//! The vector index: one vector per key, and the copy of it that was last saved.

use vstd::prelude::*;

use crate::store::contains_string;
use crate::types::{clone_words, strs_view};

verus! {

broadcast use vstd::seq_lib::group_seq_properties;

/// The view of one index entry: its key and its vector.
pub type EntryView = (Seq<char>, Seq<u32>);

/// The views of index entries.
pub open spec fn entries_view(v: Seq<(String, Vec<u32>)>) -> Seq<EntryView> {
    v.map_values(|e: (String, Vec<u32>)| (e.0@, e.1@))
}

/// No two entries share a key.
pub open spec fn keys_unique(es: Seq<EntryView>) -> bool {
    forall|i: int, j: int| 0 <= i < es.len() && 0 <= j < es.len() && i != j ==> #[trigger] es[i].0 != #[trigger] es[j].0
}

/// Some entry has this key.
pub open spec fn has_key(es: Seq<EntryView>, k: Seq<char>) -> bool {
    exists|i: int| 0 <= i < es.len() && #[trigger] es[i].0 == k
}

/// The entries after `k` is set to `v`: the entry with key `k` replaced in place, or
/// appended when there is none.
pub open spec fn with_entry(es: Seq<EntryView>, k: Seq<char>, v: Seq<u32>) -> Seq<EntryView> {
    if has_key(es, k) {
        es.map_values(|e: EntryView| if e.0 == k { (k, v) } else { e })
    } else {
        es.push((k, v))
    }
}

/// An entry whose key differs from `k`.
pub open spec fn other_key(k: Seq<char>) -> spec_fn(EntryView) -> bool {
    |e: EntryView| e.0 != k
}

/// An entry whose key is not listed.
pub open spec fn unlisted_key(keys: Seq<Seq<char>>) -> spec_fn(EntryView) -> bool {
    |e: EntryView| !keys.contains(e.0)
}

/// The entries after the entry with key `k`, if any, is removed.
pub open spec fn without_key(es: Seq<EntryView>, k: Seq<char>) -> Seq<EntryView> {
    es.filter(other_key(k))
}

/// The entries of an index built from `items`, set one after the other.
pub open spec fn built_from(items: Seq<EntryView>) -> Seq<EntryView>
    decreases items.len(),
{
    if items.len() == 0 {
        Seq::empty()
    } else {
        let last = items.last();
        with_entry(built_from(items.drop_last()), last.0, last.1)
    }
}

/// The entries after each of `items` is set in turn, starting from `es`.
pub open spec fn with_entries(es: Seq<EntryView>, items: Seq<EntryView>) -> Seq<EntryView>
    decreases items.len(),
{
    if items.len() == 0 {
        es
    } else {
        let last = items.last();
        with_entry(with_entries(es, items.drop_last()), last.0, last.1)
    }
}

/// The value of a [`VectorIndex`]: its entries, whether they differ from the saved
/// copy, and the saved copy.
pub struct IndexView {
    pub entries: Seq<EntryView>,
    pub dirty: bool,
    pub persisted: Seq<EntryView>,
}

impl IndexView {
    pub open spec fn wf(self) -> bool {
        keys_unique(self.entries)
    }
}

/// The vector index.
pub struct VectorIndex {
    entries: Vec<(String, Vec<u32>)>,
    dirty: bool,
    persisted: Vec<(String, Vec<u32>)>,
}

impl View for VectorIndex {
    type V = IndexView;

    closed spec fn view(&self) -> IndexView {
        IndexView { entries: entries_view(self.entries@), dirty: self.dirty, persisted: entries_view(self.persisted@) }
    }
}

/// Copies a list of entries, keeping its view.
fn clone_entries(v: &Vec<(String, Vec<u32>)>) -> (r: Vec<(String, Vec<u32>)>)
    ensures
        entries_view(r@) == entries_view(v@),
{
    let mut r: Vec<(String, Vec<u32>)> = Vec::new();
    for i in 0..v.len()
        invariant
            r@.len() == i,
            forall|k: int| 0 <= k < i ==> (#[trigger] r@[k]).0@ == v@[k].0@ && r@[k].1@ == v@[k].1@,
    {
        r.push((v[i].0.clone(), clone_words(&v[i].1)));
    }
    assert(entries_view(r@) =~= entries_view(v@));
    r
}

proof fn lemma_with_entry_unique(es: Seq<EntryView>, k: Seq<char>, v: Seq<u32>)
    requires
        keys_unique(es),
    ensures
        keys_unique(with_entry(es, k, v)),
        has_key(with_entry(es, k, v), k),
{
    let r = with_entry(es, k, v);
    if has_key(es, k) {
        let i = choose|i: int| 0 <= i < es.len() && #[trigger] es[i].0 == k;
        assert(r[i].0 == k);
        assert forall|a: int, b: int| 0 <= a < r.len() && 0 <= b < r.len() && a != b implies #[trigger] r[a].0 != #[trigger] r[b].0 by {
            assert(es[a].0 != es[b].0);
        }
    } else {
        assert(r[es.len() as int].0 == k);
        assert forall|a: int, b: int| 0 <= a < r.len() && 0 <= b < r.len() && a != b implies #[trigger] r[a].0 != #[trigger] r[b].0 by {
            if a < es.len() && b < es.len() {
                assert(es[a].0 != es[b].0);
            }
        }
    }
}

pub proof fn lemma_with_entries_unique(es: Seq<EntryView>, items: Seq<EntryView>)
    requires
        keys_unique(es),
    ensures
        keys_unique(with_entries(es, items)),
    decreases items.len(),
{
    if items.len() > 0 {
        lemma_with_entries_unique(es, items.drop_last());
        lemma_with_entry_unique(with_entries(es, items.drop_last()), items.last().0, items.last().1);
    }
}

pub proof fn lemma_built_from_unique(items: Seq<EntryView>)
    ensures
        keys_unique(built_from(items)),
    decreases items.len(),
{
    if items.len() > 0 {
        lemma_built_from_unique(items.drop_last());
        lemma_with_entry_unique(built_from(items.drop_last()), items.last().0, items.last().1);
    }
}

impl VectorIndex {
    /// An empty index, saved and clean.
    pub fn new() -> (r: VectorIndex)
        ensures
            r@.entries == Seq::<EntryView>::empty(),
            r@.persisted == Seq::<EntryView>::empty(),
            !r@.dirty,
            r@.wf(),
    {
        let r = VectorIndex { entries: Vec::new(), dirty: false, persisted: Vec::new() };
        assert(r@.entries =~= Seq::<EntryView>::empty());
        assert(r@.persisted =~= Seq::<EntryView>::empty());
        r
    }

    /// The number of entries.
    pub fn len(&self) -> (n: usize)
        ensures
            n == self@.entries.len(),
    {
        self.entries.len()
    }

    /// The entries differ from the saved copy.
    pub fn is_dirty(&self) -> (b: bool)
        ensures
            b == self@.dirty,
    {
        self.dirty
    }

    /// The entries, in index order.
    pub fn entries(&self) -> (r: &Vec<(String, Vec<u32>)>)
        ensures
            entries_view(r@) == self@.entries,
    {
        &self.entries
    }

    fn position_of(&self, key: &String) -> (r: Option<usize>)
        ensures
            match r {
                Some(i) => i < self@.entries.len() && self@.entries[i as int].0 == key@,
                None => !has_key(self@.entries, key@),
            },
    {
        let mut i: usize = 0;
        while i < self.entries.len()
            invariant
                i <= self.entries@.len(),
                forall|k: int| 0 <= k < i ==> self@.entries[k].0 != key@,
            decreases self.entries@.len() - i,
        {
            if self.entries[i].0 == *key {
                return Some(i);
            }
            i += 1;
        }
        None
    }

    /// Some entry has this key.
    pub fn contains(&self, key: &String) -> (b: bool)
        ensures
            b == has_key(self@.entries, key@),
    {
        self.position_of(key).is_some()
    }

    /// Sets the vector of `key`.
    pub fn insert(&mut self, key: String, vector: Vec<u32>)
        requires
            old(self)@.wf(),
        ensures
            final(self)@.wf(),
            final(self)@.entries == with_entry(old(self)@.entries, key@, vector@),
            final(self)@.dirty,
            final(self)@.persisted == old(self)@.persisted,
    {
        let ghost es = self@.entries;
        let ghost k = key@;
        let ghost v = vector@;
        proof {
            lemma_with_entry_unique(es, k, v);
        }
        match self.position_of(&key) {
            Some(i) => {
                let ghost prev = self.entries@;
                self.entries.set(i, (key, vector));
                assert forall|a: int| 0 <= a < es.len() implies #[trigger] self@.entries[a] == (if es[a].0 == k { (k, v) } else { es[a] }) by {
                    if a != i {
                        assert(self.entries@[a] == prev[a]);
                        if es[a].0 == k {
                            assert(es[a].0 != es[i as int].0);
                        }
                    }
                }
                assert(self@.entries =~= with_entry(es, k, v));
            },
            None => {
                self.entries.push((key, vector));
                assert(self@.entries =~= with_entry(es, k, v));
            },
        }
        self.dirty = true;
        assert(self@.persisted == old(self)@.persisted);
    }

    /// Removes the entry of `key`, if any; returns whether there was one.
    pub fn remove(&mut self, key: &String) -> (removed: bool)
        requires
            old(self)@.wf(),
        ensures
            final(self)@.wf(),
            removed == has_key(old(self)@.entries, key@),
            final(self)@.entries == without_key(old(self)@.entries, key@),
            final(self)@.dirty == (old(self)@.dirty || removed),
            final(self)@.persisted == old(self)@.persisted,
    {
        let ghost es = self@.entries;
        let ghost pred = other_key(key@);
        let removed = self.contains(key);
        let mut kept: Vec<(String, Vec<u32>)> = Vec::new();
        let ghost mut origin: Seq<int> = Seq::empty();
        let n = self.entries.len();
        for i in 0..n
            invariant
                n == es.len(),
                es == self@.entries,
                keys_unique(es),
                pred == other_key(key@),
                entries_view(kept@) == es.take(i as int).filter(pred),
                origin.len() == kept@.len(),
                forall|a: int| 0 <= a < origin.len() ==> 0 <= #[trigger] origin[a] < i && entries_view(kept@)[a] == es[origin[a]],
                forall|a: int, b: int| 0 <= a < b < origin.len() ==> #[trigger] origin[a] < #[trigger] origin[b],
        {
            assert(es.take(i + 1) =~= es.take(i as int).push(es[i as int]));
            proof {
                es.take(i as int).lemma_filter_push(es[i as int], pred);
            }
            if self.entries[i].0 != *key {
                let ghost before = kept@;
                kept.push((self.entries[i].0.clone(), clone_words(&self.entries[i].1)));
                proof {
                    origin = origin.push(i as int);
                }
                assert(entries_view(kept@) =~= entries_view(before).push(es[i as int]));
            }
        }
        assert(es.take(es.len() as int) =~= es);
        self.entries = kept;
        if removed {
            self.dirty = true;
        }
        assert forall|a: int, b: int|
            0 <= a < self@.entries.len() && 0 <= b < self@.entries.len() && a != b
                implies #[trigger] self@.entries[a].0 != #[trigger] self@.entries[b].0 by {
            if a < b {
                assert(origin[a] < origin[b]);
            } else {
                assert(origin[b] < origin[a]);
            }
        }
        assert(self@.persisted == old(self)@.persisted);
        removed
    }

    /// Removes the entries of all listed keys; returns how many it removed.
    pub fn remove_all(&mut self, keys: &Vec<String>) -> (removed: usize)
        requires
            old(self)@.wf(),
        ensures
            final(self)@.wf(),
            final(self)@.entries == old(self)@.entries.filter(unlisted_key(strs_view(keys@))),
            removed == old(self)@.entries.len() - final(self)@.entries.len(),
            final(self)@.dirty == (old(self)@.dirty || removed > 0),
            final(self)@.persisted == old(self)@.persisted,
    {
        let ghost es = self@.entries;
        let ghost pred = unlisted_key(strs_view(keys@));
        let mut kept: Vec<(String, Vec<u32>)> = Vec::new();
        let ghost mut origin: Seq<int> = Seq::empty();
        let n = self.entries.len();
        for i in 0..n
            invariant
                n == es.len(),
                es == self@.entries,
                keys_unique(es),
                pred == unlisted_key(strs_view(keys@)),
                entries_view(kept@) == es.take(i as int).filter(pred),
                origin.len() == kept@.len(),
                kept@.len() <= i,
                forall|a: int| 0 <= a < origin.len() ==> 0 <= #[trigger] origin[a] < i && entries_view(kept@)[a] == es[origin[a]],
                forall|a: int, b: int| 0 <= a < b < origin.len() ==> #[trigger] origin[a] < #[trigger] origin[b],
        {
            assert(es.take(i + 1) =~= es.take(i as int).push(es[i as int]));
            proof {
                es.take(i as int).lemma_filter_push(es[i as int], pred);
            }
            if !contains_string(keys, &self.entries[i].0) {
                let ghost before = kept@;
                kept.push((self.entries[i].0.clone(), clone_words(&self.entries[i].1)));
                proof {
                    origin = origin.push(i as int);
                }
                assert(entries_view(kept@) =~= entries_view(before).push(es[i as int]));
            }
        }
        assert(es.take(es.len() as int) =~= es);
        let removed = n - kept.len();
        self.entries = kept;
        if removed > 0 {
            self.dirty = true;
        }
        assert forall|a: int, b: int|
            0 <= a < self@.entries.len() && 0 <= b < self@.entries.len() && a != b
                implies #[trigger] self@.entries[a].0 != #[trigger] self@.entries[b].0 by {
            if a < b {
                assert(origin[a] < origin[b]);
            } else {
                assert(origin[b] < origin[a]);
            }
        }
        assert(self@.persisted == old(self)@.persisted);
        removed
    }

    /// Replaces every entry by those of `items`, set one after the other.
    pub fn build(&mut self, items: &Vec<(String, Vec<u32>)>)
        ensures
            final(self)@.wf(),
            final(self)@.entries == built_from(entries_view(items@)),
            final(self)@.dirty,
            final(self)@.persisted == old(self)@.persisted,
    {
        let ghost iv = entries_view(items@);
        self.entries = Vec::new();
        assert(self@.entries =~= built_from(iv.take(0)));
        for i in 0..items.len()
            invariant
                iv == entries_view(items@),
                self@.entries == built_from(iv.take(i as int)),
                self@.persisted == old(self)@.persisted,
        {
            proof {
                lemma_built_from_unique(iv.take(i as int));
                assert(iv.take(i + 1).drop_last() =~= iv.take(i as int));
            }
            self.insert(items[i].0.clone(), clone_words(&items[i].1));
        }
        assert(iv.take(items@.len() as int) =~= iv);
        self.dirty = true;
        proof {
            lemma_built_from_unique(iv);
        }
    }

    /// Sets each of `items` in turn.
    pub fn insert_all(&mut self, items: &Vec<(String, Vec<u32>)>)
        requires
            old(self)@.wf(),
        ensures
            final(self)@.wf(),
            final(self)@.entries == with_entries(old(self)@.entries, entries_view(items@)),
            final(self)@.dirty == (old(self)@.dirty || items@.len() > 0),
            final(self)@.persisted == old(self)@.persisted,
    {
        let ghost iv = entries_view(items@);
        let ghost es = self@.entries;
        assert(iv.take(0) =~= Seq::<EntryView>::empty());
        for i in 0..items.len()
            invariant
                iv == entries_view(items@),
                keys_unique(es),
                self@.wf(),
                self@.entries == with_entries(es, iv.take(i as int)),
                self@.dirty == (old(self)@.dirty || i > 0),
                self@.persisted == old(self)@.persisted,
        {
            assert(iv.take(i + 1).drop_last() =~= iv.take(i as int));
            self.insert(items[i].0.clone(), clone_words(&items[i].1));
        }
        assert(iv.take(items@.len() as int) =~= iv);
    }

    /// Saves the entries: the saved copy becomes equal to them and the index is clean.
    pub fn save(&mut self)
        ensures
            final(self)@.entries == old(self)@.entries,
            final(self)@.persisted == old(self)@.entries,
            !final(self)@.dirty,
    {
        self.persisted = clone_entries(&self.entries);
        self.dirty = false;
    }
}

} // verus!
