//! The recall cache: recall results kept per namespace and query, with hit and miss counts.

use vstd::prelude::*;

use crate::types::strs_view;

verus! {

broadcast use vstd::seq_lib::group_seq_properties;

/// The view of one cached recall: namespace, query and the ids it returned.
pub type CachedView = (Seq<char>, Seq<char>, Seq<Seq<char>>);

/// One cached recall.
pub struct CachedRecall {
    pub namespace: String,
    pub query: String,
    pub ids: Vec<String>,
}

pub open spec fn cached_view(c: CachedRecall) -> CachedView {
    (c.namespace@, c.query@, strs_view(c.ids@))
}

/// The value of a [`RecallCache`].
pub struct CacheView {
    pub entries: Seq<CachedView>,
    pub hits: u64,
    pub misses: u64,
}

/// A cached recall of another namespace.
pub open spec fn other_namespace(ns: Seq<char>) -> spec_fn(CachedView) -> bool {
    |c: CachedView| c.0 != ns
}

/// The recall cache.
pub struct RecallCache {
    entries: Vec<CachedRecall>,
    hits: u64,
    misses: u64,
}

impl View for RecallCache {
    type V = CacheView;

    closed spec fn view(&self) -> CacheView {
        CacheView {
            entries: self.entries@.map_values(|c: CachedRecall| cached_view(c)),
            hits: self.hits,
            misses: self.misses,
        }
    }
}

impl RecallCache {
    /// An empty cache with no hits and no misses.
    pub fn new() -> (r: RecallCache)
        ensures
            r@.entries == Seq::<CachedView>::empty(),
            r@.hits == 0,
            r@.misses == 0,
    {
        let r = RecallCache { entries: Vec::new(), hits: 0, misses: 0 };
        assert(r@.entries =~= Seq::<CachedView>::empty());
        r
    }

    /// The number of lookups that found a cached recall, and of those that did not.
    pub fn metrics(&self) -> (r: (u64, u64))
        ensures
            r == (self@.hits, self@.misses),
    {
        (self.hits, self.misses)
    }

    /// Caches the ids that a recall of `query` in `namespace` returned.
    pub fn put(&mut self, namespace: &str, query: &str, ids: Vec<String>)
        ensures
            final(self)@.entries == old(self)@.entries.push((namespace@, query@, strs_view(ids@))),
            final(self)@.hits == old(self)@.hits,
            final(self)@.misses == old(self)@.misses,
    {
        let ghost before = self@.entries;
        let c = CachedRecall { namespace: String::from_str(namespace), query: String::from_str(query), ids };
        self.entries.push(c);
        assert(self@.entries =~= before.push((namespace@, query@, strs_view(ids@))));
    }

    /// The ids of the latest cached recall of `query` in `namespace`, counting a hit or
    /// a miss (each count stops at its maximum).
    pub fn get(&mut self, namespace: &str, query: &str) -> (r: Option<Vec<String>>)
        ensures
            final(self)@.entries == old(self)@.entries,
            match r {
                Some(ids) => exists|i: int|
                    0 <= i < old(self)@.entries.len() && #[trigger] old(self)@.entries[i] == (namespace@, query@, strs_view(ids@))
                        && forall|j: int| i < j < old(self)@.entries.len() ==> !(#[trigger] old(self)@.entries[j].0 == namespace@ && old(self)@.entries[j].1 == query@),
                None => forall|i: int| 0 <= i < old(self)@.entries.len() ==> !(#[trigger] old(self)@.entries[i].0 == namespace@ && old(self)@.entries[i].1 == query@),
            },
            final(self)@.hits == if r is Some && old(self)@.hits < u64::MAX { old(self)@.hits + 1 } else { old(self)@.hits as int },
            final(self)@.misses == if r is None && old(self)@.misses < u64::MAX { old(self)@.misses + 1 } else { old(self)@.misses as int },
    {
        let ns = String::from_str(namespace);
        let q = String::from_str(query);
        let mut i = self.entries.len();
        while i > 0
            invariant
                i <= self.entries@.len(),
                self@ == old(self)@,
                ns@ == namespace@,
                q@ == query@,
                forall|j: int| i <= j < self@.entries.len() ==> !(#[trigger] self@.entries[j].0 == namespace@ && self@.entries[j].1 == query@),
            decreases i,
        {
            i -= 1;
            if self.entries[i].namespace == ns && self.entries[i].query == q {
                let ids = crate::types::clone_strings(&self.entries[i].ids);
                assert(self@.entries[i as int] == (namespace@, query@, strs_view(ids@)));
                if self.hits < u64::MAX {
                    self.hits = self.hits + 1;
                }
                assert(self@.entries == old(self)@.entries);
                return Some(ids);
            }
        }
        if self.misses < u64::MAX {
            self.misses = self.misses + 1;
        }
        assert(self@.entries == old(self)@.entries);
        None
    }

    /// Drops the cached recalls of one namespace.
    pub fn invalidate_namespace(&mut self, namespace: &str)
        ensures
            final(self)@.entries == old(self)@.entries.filter(other_namespace(namespace@)),
            final(self)@.hits == old(self)@.hits,
            final(self)@.misses == old(self)@.misses,
    {
        let ghost es = self@.entries;
        let ghost pred = other_namespace(namespace@);
        let ns = String::from_str(namespace);
        let mut kept: Vec<CachedRecall> = Vec::new();
        let n = self.entries.len();
        for i in 0..n
            invariant
                n == es.len(),
                es == self@.entries,
                pred == other_namespace(namespace@),
                ns@ == namespace@,
                kept@.map_values(|c: CachedRecall| cached_view(c)) == es.take(i as int).filter(pred),
        {
            assert(es.take(i + 1) =~= es.take(i as int).push(es[i as int]));
            proof {
                es.take(i as int).lemma_filter_push(es[i as int], pred);
            }
            if self.entries[i].namespace != ns {
                let ghost before = kept@;
                let c = CachedRecall {
                    namespace: self.entries[i].namespace.clone(),
                    query: self.entries[i].query.clone(),
                    ids: crate::types::clone_strings(&self.entries[i].ids),
                };
                kept.push(c);
                assert(kept@.map_values(|c: CachedRecall| cached_view(c)) =~= before.map_values(|c: CachedRecall| cached_view(c)).push(es[i as int]));
            }
        }
        assert(es.take(es.len() as int) =~= es);
        self.entries = kept;
    }

    /// Drops every cached recall.
    pub fn clear(&mut self)
        ensures
            final(self)@.entries == Seq::<CachedView>::empty(),
            final(self)@.hits == old(self)@.hits,
            final(self)@.misses == old(self)@.misses,
    {
        self.entries = Vec::new();
        assert(self@.entries =~= Seq::<CachedView>::empty());
    }
}

} // verus!
