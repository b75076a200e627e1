//! Maintenance of the engine: consistency checks, index rebuild, statistics and shutdown.

use vstd::prelude::*;

use crate::clock::now_millis;
use crate::engine::Uteke;
use crate::index::{built_from, entries_view, with_entries, EntryView};
use crate::reports::{AgingStatus, ReembedReport, RepairReport, StoreStats, VerifyReport};
use crate::store::{chunk_pairs, has_live_namespace, names_of, ns_view, Scope, StoreView, Tier};
use crate::types::{clone_words, Error, Memory, MemoryView};

verus! {

broadcast use vstd::seq_lib::group_seq_properties;

/// The index key of a document chunk.
pub open spec fn chunk_key(id: Seq<char>) -> Seq<char> {
    "chunk:"@ + id
}

/// A memory that has a vector.
pub open spec fn embedded_pred() -> spec_fn(MemoryView) -> bool {
    |m: MemoryView| m.embedding.len() > 0
}

/// The index entry of a memory.
pub open spec fn memory_entry(m: MemoryView) -> EntryView {
    (m.id, m.embedding)
}

/// The index entries of the memories that have a vector, in order.
pub open spec fn memory_entries(ms: Seq<MemoryView>) -> Seq<EntryView> {
    ms.filter(embedded_pred()).map_values(|m: MemoryView| memory_entry(m))
}

/// The index entries of the document chunks, in order.
pub open spec fn chunk_entries(s: StoreView) -> Seq<EntryView> {
    s.chunks.map_values(|c: crate::types::ChunkView| (chunk_key(c.id), c.embedding))
}

/// What repair rebuilds the index from: every live memory that has a vector, then
/// every document chunk under its `chunk:` key.
pub open spec fn repair_items(s: StoreView) -> Seq<EntryView> {
    memory_entries(s.scoped(None, Scope::Live)) + chunk_entries(s)
}

/// The aging status of a store at `now`.
pub open spec fn aging_status_spec(s: StoreView, ns: Option<Seq<char>>, now: i64, hot_days: u32, warm_days: u32) -> (
    int,
    int,
    int,
    int,
    int,
) {
    (
        s.scoped(ns, Scope::Live).len() as int,
        s.tiered(ns, now, hot_days, warm_days, Tier::Hot).len() as int,
        s.tiered(ns, now, hot_days, warm_days, Tier::Warm).len() as int,
        s.tiered(ns, now, hot_days, warm_days, Tier::Cold).len() as int,
        s.scoped(ns, Scope::NeverAccessed).len() as int,
    )
}

/// A memory without a vector.
pub open spec fn unembedded_pred() -> spec_fn(MemoryView) -> bool {
    |m: MemoryView| m.embedding.len() == 0
}

/// The live memories without a vector, in store order.
pub open spec fn missing_vectors(s: StoreView) -> Seq<MemoryView> {
    s.scoped(None, Scope::Live).filter(unembedded_pred())
}

/// A memory with a fresh vector, updated at `now`.
pub open spec fn refreshed(m: MemoryView, v: Seq<u32>, now: i64) -> MemoryView {
    MemoryView { embedding: v, updated_at: now, ..m }
}

/// The memories after the first `k` missing memories that got a vector are refreshed,
/// one after the other.
pub open spec fn refreshed_all(ms: Seq<MemoryView>, missing: Seq<MemoryView>, vs: Seq<Option<Seq<u32>>>, now: i64, k: int)
    -> Seq<MemoryView>
    decreases k,
{
    if k <= 0 {
        ms
    } else {
        let prev = refreshed_all(ms, missing, vs, now, k - 1);
        match vs[k - 1] {
            Some(v) => prev.map_values(
                |x: MemoryView| if x.id == missing[k - 1].id { refreshed(missing[k - 1], v, now) } else { x },
            ),
            None => prev,
        }
    }
}

/// The index entries of the missing memories that got a vector, in order.
pub open spec fn fresh_entries(missing: Seq<MemoryView>, vs: Seq<Option<Seq<u32>>>, k: int) -> Seq<EntryView>
    decreases k,
{
    if k <= 0 {
        Seq::empty()
    } else {
        let prev = fresh_entries(missing, vs, k - 1);
        match vs[k - 1] {
            Some(v) => prev.push((missing[k - 1].id, v)),
            None => prev,
        }
    }
}

/// The number of outcomes that hold a vector.
pub open spec fn count_some(vs: Seq<Option<Seq<u32>>>) -> nat
    decreases vs.len(),
{
    if vs.len() == 0 {
        0
    } else {
        count_some(vs.drop_last()) + if vs.last() is Some { 1nat } else { 0nat }
    }
}

/// The views of embedding outcomes.
pub open spec fn outcomes_view(v: Seq<Option<Vec<u32>>>) -> Seq<Option<Seq<u32>>> {
    v.map_values(|o: Option<Vec<u32>>| match o {
        Some(e) => Some(e@),
        None => None,
    })
}

/// What storing the re-embedded vectors at `now` did: `vs[k]` is the outcome for the
/// `k`-th memory without a vector.
pub open spec fn reembed_done(before: Uteke, after: Uteke, vs: Seq<Option<Seq<u32>>>, now: i64, r: Result<ReembedReport, Error>) -> bool {
    let missing = missing_vectors(before.store@);
    let fresh = fresh_entries(missing, vs, vs.len() as int);
    &&& r matches Ok(rep) && rep.total_scanned == before.store@.scoped(None, Scope::Live).len()
        && rep.missing_count == missing.len() && rep.reembedded == count_some(vs)
        && rep.reembedded + rep.failed == missing.len()
    &&& after.store@.memories == refreshed_all(before.store@.memories, missing, vs, now, vs.len() as int)
    &&& after.store@.chunks == before.store@.chunks
    &&& fresh.len() == 0 ==> after.index@ == before.index@
    &&& fresh.len() > 0 ==> after.index@.entries == with_entries(before.index@.entries, fresh)
        && after.index@.persisted == after.index@.entries && !after.index@.dirty
    &&& after.recall_cache@ == before.recall_cache@
    &&& after.tier_config == before.tier_config
    &&& after.lifecycle_config == before.lifecycle_config
}

/// The report that `verify` gives on an engine: the live memories and the index
/// entries, counted and compared.
pub open spec fn verify_report(u: Uteke, v: VerifyReport) -> bool {
    &&& v.db_count == u.store@.scoped(None, Scope::Live).len()
    &&& v.index_count == u.index@.entries.len()
    &&& v.consistent == (v.db_count == v.index_count)
}

/// What a repair did: the index is rebuilt from [`repair_items`] and saved, nothing else
/// changes, and the report gives the counts before and the number of items after.
pub open spec fn repair_done(before: Uteke, after: Uteke, r: Result<RepairReport, Error>) -> bool {
    &&& after.store@ == before.store@
    &&& after.index@.entries == built_from(repair_items(before.store@))
    &&& after.index@.persisted == after.index@.entries
    &&& !after.index@.dirty
    &&& after.recall_cache@ == before.recall_cache@
    &&& after.tier_config == before.tier_config
    &&& after.lifecycle_config == before.lifecycle_config
    &&& r matches Ok(rep) && rep.db_count == before.store@.scoped(None, Scope::Live).len()
        && rep.index_before == before.index@.entries.len()
        && rep.index_after == repair_items(before.store@).len()
}

/// The statistics of a namespace at `now`: its live memories, their distinct tags, the
/// given file size, the tier counts and the cache counters.
pub open spec fn stats_report(u: Uteke, ns: Option<Seq<char>>, now: i64, db_size_bytes: u64, st: StoreStats) -> bool {
    let s = u.store@;
    let (hot, warm) = (u.tier_config.hot_days, u.tier_config.warm_days);
    &&& st.total_memories == s.scoped(ns, Scope::Live).len()
    &&& st.unique_tags == s.tag_set(ns).len()
    &&& st.db_size_bytes == db_size_bytes
    &&& st.hot == s.tiered(ns, now, hot, warm, Tier::Hot).len()
    &&& st.warm == s.tiered(ns, now, hot, warm, Tier::Warm).len()
    &&& st.cold == s.tiered(ns, now, hot, warm, Tier::Cold).len()
    &&& st.cache_hits == u.recall_cache@.hits
    &&& st.cache_misses == u.recall_cache@.misses
}

impl Uteke {
    /// Compares the number of stored memories with the number of index entries.
    pub fn verify(&self) -> (r: Result<VerifyReport, Error>)
        ensures
            r matches Ok(v) && verify_report(*self, v),
    {
        let db_count = self.store.count(None);
        let index_count = self.index.len();
        Ok(VerifyReport { db_count, index_count, consistent: db_count == index_count })
    }

    /// Rebuilds the vector index from the store: every live memory that has a vector and
    /// every document chunk (under `chunk:<id>`), then saves it.
    pub fn repair(&mut self) -> (r: Result<RepairReport, Error>)
        requires
            old(self).wf(),
        ensures
            final(self).wf(),
            repair_done(*old(self), *final(self), r),
    {
        let before_db = self.store.count(None);
        let before_index = self.index.len();
        let all = self.store.load_all(None);
        let ghost live = self.store@.scoped(None, Scope::Live);
        let mut items: Vec<(String, Vec<u32>)> = Vec::new();
        for i in 0..all.len()
            invariant
                all@.map_values(|m: Memory| m@) == live,
                entries_view(items@) == live.take(i as int).filter(embedded_pred()).map_values(|m: MemoryView| memory_entry(m)),
        {
            let ghost before = items@;
            assert(live.take(i + 1) =~= live.take(i as int).push(live[i as int]));
            proof {
                live.take(i as int).lemma_filter_push(live[i as int], embedded_pred());
            }
            assert(all@[i as int]@ == live[i as int]);
            if !all[i].embedding.is_empty() {
                items.push((all[i].id.clone(), clone_words(&all[i].embedding)));
                assert(entries_view(items@) =~= entries_view(before).push(memory_entry(live[i as int])));
            }
        }
        assert(live.take(all@.len() as int) =~= live);
        let chunks = self.store.load_all_chunk_embeddings();
        let ghost cs = self.store@.chunks;
        let ghost mem_part = entries_view(items@);
        let n = chunks.len();
        assert(mem_part == memory_entries(live));
        assert(entries_view(chunks@).len() == chunks@.len());
        assert(chunk_pairs(cs).len() == cs.len());
        for k in 0..n
            invariant
                n == chunks@.len(),
                n == cs.len(),
                entries_view(chunks@) == chunk_pairs(cs),
                entries_view(items@) == mem_part + cs.take(k as int).map_values(
                    |c: crate::types::ChunkView| (chunk_key(c.id), c.embedding),
                ),
        {
            let ghost before = items@;
            let mut key = String::from_str("chunk:");
            key.append(chunks[k].0.as_str());
            assert(entries_view(chunks@)[k as int] == chunk_pairs(cs)[k as int]);
            assert(chunks@[k as int].0@ == cs[k as int].id);
            assert(chunks@[k as int].1@ == cs[k as int].embedding);
            assert(key@ == chunk_key(cs[k as int].id));
            items.push((key, clone_words(&chunks[k].1)));
            assert(entries_view(items@) =~= entries_view(before).push((chunk_key(cs[k as int].id), cs[k as int].embedding)));
            assert(cs.take(k + 1) =~= cs.take(k as int).push(cs[k as int]));
            assert(entries_view(items@) =~= mem_part + cs.take(k + 1).map_values(
                |c: crate::types::ChunkView| (chunk_key(c.id), c.embedding),
            ));
        }
        assert(cs.take(cs.len() as int) =~= cs);
        assert(live == self.store@.scoped(None, Scope::Live));
        assert(entries_view(items@) =~= repair_items(self.store@));
        self.index.build(&items);
        self.index.save();
        Ok(RepairReport { db_count: before_db, index_before: before_index, index_after: items.len() })
    }

    /// The number of live pinned memories of the namespace.
    pub fn count_pinned(&self, namespace: Option<&str>) -> (r: Result<usize, Error>)
        ensures
            r == Ok::<usize, Error>(self.store@.scoped(ns_view(namespace), Scope::Pinned).len() as usize),
    {
        Ok(self.store.count_pinned(namespace))
    }

    /// The number of deprecated (soft-deleted) memories of the namespace.
    pub fn count_deprecated(&self, namespace: Option<&str>) -> (r: Result<usize, Error>)
        ensures
            r == Ok::<usize, Error>(self.store@.scoped(ns_view(namespace), Scope::Deprecated).len() as usize),
    {
        Ok(self.store.count_deprecated(namespace))
    }

    /// Each namespace that has live memories, once, with its number of live memories.
    pub fn namespace_counts(&self) -> (r: Result<Vec<(String, usize)>, Error>)
        ensures
            r matches Ok(v) && names_of(v@).no_duplicates()
                && (forall|n: Seq<char>| #[trigger] names_of(v@).contains(n) <==> has_live_namespace(self.store@.memories, n))
                && (forall|j: int| 0 <= j < v@.len() ==> (#[trigger] v@[j]).1 == self.store@.scoped(Some(v@[j].0@), Scope::Live).len()),
    {
        Ok(self.store.list_namespaces_with_counts())
    }

    /// The memories of the namespace by access tier at `now`.
    pub fn aging_status_at(&self, namespace: Option<&str>, now: i64) -> (r: Result<AgingStatus, Error>)
        ensures
            r matches Ok(a) && (a.total as int, a.hot as int, a.warm as int, a.cold as int, a.never_accessed as int)
                == aging_status_spec(self.store@, ns_view(namespace), now, self.tier_config.hot_days, self.tier_config.warm_days),
    {
        let total = self.store.count(namespace);
        let (hot, warm, cold) = self.store.tier_counts(
            namespace,
            self.tier_config.hot_days,
            self.tier_config.warm_days,
            now,
        );
        let never_accessed = self.store.count_never_accessed(namespace);
        Ok(AgingStatus { total, hot, warm, cold, never_accessed })
    }

    /// The memories of the namespace by access tier, now.
    pub fn aging_status(&self, namespace: Option<&str>) -> (r: Result<AgingStatus, Error>)
        ensures
            r matches Ok(a) && exists|now: i64| now >= 0 && (a.total as int, a.hot as int, a.warm as int, a.cold as int, a.never_accessed as int)
                == aging_status_spec(self.store@, ns_view(namespace), now, self.tier_config.hot_days, self.tier_config.warm_days),
    {
        let now = now_millis();
        self.aging_status_at(namespace, now)
    }

    /// The aged memories that a cleanup at `now` would consider, oldest first (a dry run).
    pub fn aging_preview_at(&self, older_than_days: u32, max_access_count: u32, namespace: Option<&str>, now: i64)
        -> (r: Result<Vec<Memory>, Error>)
        ensures
            r matches Ok(v) && v@.map_values(|m: Memory| m@) == self.store@.aged(ns_view(namespace), now, older_than_days, max_access_count),
    {
        Ok(self.store.find_aged(older_than_days, max_access_count, namespace, now))
    }

    /// The aged memories that a cleanup now would consider, oldest first (a dry run).
    pub fn aging_preview(&self, older_than_days: u32, max_access_count: u32, namespace: Option<&str>)
        -> (r: Result<Vec<Memory>, Error>)
        ensures
            r matches Ok(v) && exists|now: i64| now >= 0 && v@.map_values(|m: Memory| m@) == self.store@.aged(ns_view(namespace), now, older_than_days, max_access_count),
    {
        let now = now_millis();
        self.aging_preview_at(older_than_days, max_access_count, namespace, now)
    }

    /// Statistics of the namespace at `now`; the size of the database file is measured
    /// by the caller.
    pub fn stats_at(&self, namespace: Option<&str>, now: i64, db_size_bytes: u64) -> (r: Result<StoreStats, Error>)
        ensures
            r matches Ok(st) && stats_report(*self, ns_view(namespace), now, db_size_bytes, st),
    {
        let total_memories = self.store.count(namespace);
        let unique_tags = self.store.unique_tag_count(namespace);
        let (hot, warm, cold) = self.store.tier_counts(
            namespace,
            self.tier_config.hot_days,
            self.tier_config.warm_days,
            now,
        );
        let (cache_hits, cache_misses) = self.recall_cache.metrics();
        Ok(StoreStats { total_memories, unique_tags, db_size_bytes, hot, warm, cold, cache_hits, cache_misses })
    }

    /// The live memories without a vector, in store order: those that re-embedding fills.
    pub fn missing_embeddings(&self) -> (r: Vec<Memory>)
        ensures
            r@.map_values(|m: Memory| m@) == missing_vectors(self.store@),
    {
        let all = self.store.load_all(None);
        let ghost live = self.store@.scoped(None, Scope::Live);
        let mut r: Vec<Memory> = Vec::new();
        for i in 0..all.len()
            invariant
                all@.map_values(|m: Memory| m@) == live,
                r@.map_values(|m: Memory| m@) == live.take(i as int).filter(unembedded_pred()),
        {
            let ghost before = r@;
            assert(live.take(i + 1) =~= live.take(i as int).push(live[i as int]));
            proof {
                live.take(i as int).lemma_filter_push(live[i as int], unembedded_pred());
            }
            assert(all@[i as int]@ == live[i as int]);
            if all[i].embedding.is_empty() {
                r.push(all[i].duplicate());
                assert(r@.map_values(|m: Memory| m@) =~= before.map_values(|m: Memory| m@).push(live[i as int]));
            }
        }
        assert(live.take(all@.len() as int) =~= live);
        r
    }

    /// Stores the vectors that were computed for the memories without one at `now`:
    /// `vectors[k]` is the outcome for the `k`-th memory of [`Uteke::missing_embeddings`]
    /// (`None` when embedding it failed). Each memory that got a vector is updated and
    /// added to the index, which is then saved.
    pub fn reembed_missing_at(&mut self, vectors: Vec<Option<Vec<u32>>>, now: i64) -> (r: Result<ReembedReport, Error>)
        requires
            old(self).wf(),
            vectors@.len() == missing_vectors(old(self).store@).len(),
        ensures
            final(self).wf(),
            reembed_done(*old(self), *final(self), outcomes_view(vectors@), now, r),
    {
        let total_scanned = self.store.count_active(None);
        let missing = self.missing_embeddings();
        let missing_count = missing.len();
        let ghost ms = missing_vectors(old(self).store@);
        let ghost vs = outcomes_view(vectors@);
        let ghost m0 = old(self).store@.memories;
        let mut reembedded: usize = 0;
        let mut failed: usize = 0;
        let mut new_items: Vec<(String, Vec<u32>)> = Vec::new();
        proof {
            assert forall|j: int| 0 <= j < ms.len() implies old(self).store@.has_id(#[trigger] ms[j].id) by {
                let live = old(self).store@.scoped(None, Scope::Live);
                live.lemma_filter_contains_rev(unembedded_pred(), ms[j]);
                assert(live.filter(unembedded_pred()).contains(ms[j]));
                let p = choose|p: int| 0 <= p < live.len() && live[p] == ms[j];
                m0.lemma_filter_contains_rev(crate::store::scope_pred(None, Scope::Live), live[p]);
                assert(live.contains(live[p]));
                let q = choose|q: int| 0 <= q < m0.len() && m0[q] == live[p];
                assert(m0[q].id == ms[j].id);
            }
        }
        for k in 0..missing_count
            invariant
                missing_count == ms.len(),
                missing@.map_values(|m: Memory| m@) == ms,
                vs == outcomes_view(vectors@),
                vs.len() == ms.len(),
                self.store@.wf(),
                self.store@.chunks == old(self).store@.chunks,
                self.store@.memories == refreshed_all(m0, ms, vs, now, k as int),
                forall|j: int| 0 <= j < ms.len() ==> self.store@.has_id(#[trigger] ms[j].id),
                entries_view(new_items@) == fresh_entries(ms, vs, k as int),
                reembedded == count_some(vs.take(k as int)),
                reembedded + failed == k,
                self.index@ == old(self).index@,
                self.recall_cache@ == old(self).recall_cache@,
                self.tier_config == old(self).tier_config,
                self.lifecycle_config == old(self).lifecycle_config,
        {
            assert(vs.take(k + 1).drop_last() =~= vs.take(k as int));
            assert(missing@[k as int]@ == ms[k as int]);
            match &vectors[k] {
                Some(v) => {
                    assert(vs[k as int] == Some(v@));
                    let ghost before_items = new_items@;
                    let ghost prev = self.store@;
                    let mut u = missing[k].duplicate();
                    u.embedding = clone_words(v);
                    u.updated_at = now;
                    assert(u@ == refreshed(ms[k as int], v@, now));
                    let res = self.store.update(u);
                    assert(res is Ok);
                    proof {
                        assert forall|j: int| 0 <= j < ms.len() implies self.store@.has_id(#[trigger] ms[j].id) by {
                            assert(prev.has_id(ms[j].id));
                            let p = choose|p: int| 0 <= p < prev.memories.len() && #[trigger] prev.memories[p].id == ms[j].id;
                            assert(self.store@.memories[p].id == ms[j].id);
                        }
                    }
                    new_items.push((missing[k].id.clone(), clone_words(v)));
                    assert(entries_view(new_items@) =~= entries_view(before_items).push((ms[k as int].id, v@)));
                    reembedded += 1;
                },
                None => {
                    assert(vs[k as int] is None);
                    failed += 1;
                },
            }
        }
        assert(vs.take(missing_count as int) =~= vs);
        if new_items.len() > 0 {
            self.index.insert_all(&new_items);
            self.index.save();
        }
        Ok(ReembedReport { total_scanned, missing_count, reembedded, failed })
    }

    /// Stores the vectors computed for the memories without one, now (see
    /// [`Uteke::reembed_missing_at`]).
    pub fn reembed_missing(&mut self, vectors: Vec<Option<Vec<u32>>>) -> (r: Result<ReembedReport, Error>)
        requires
            old(self).wf(),
            vectors@.len() == missing_vectors(old(self).store@).len(),
        ensures
            final(self).wf(),
            exists|now: i64| now >= 0 && #[trigger] reembed_done(*old(self), *final(self), outcomes_view(vectors@), now, r),
    {
        let now = now_millis();
        self.reembed_missing_at(vectors, now)
    }

    /// Statistics of the namespace, now; the size of the database file is measured by the
    /// caller.
    pub fn stats(&self, namespace: Option<&str>, db_size_bytes: u64) -> (r: Result<StoreStats, Error>)
        ensures
            r matches Ok(st) && st.total_memories == self.store@.scoped(ns_view(namespace), Scope::Live).len()
                && st.unique_tags == self.store@.tag_set(ns_view(namespace)).len()
                && st.db_size_bytes == db_size_bytes
                && st.hot + st.warm + st.cold == self.store@.scoped(ns_view(namespace), Scope::Live).len()
                && exists|now: i64| now >= 0
                    && st.hot == #[trigger] self.store@.tiered(ns_view(namespace), now, self.tier_config.hot_days, self.tier_config.warm_days, Tier::Hot).len()
                    && st.warm == self.store@.tiered(ns_view(namespace), now, self.tier_config.hot_days, self.tier_config.warm_days, Tier::Warm).len()
                    && st.cold == self.store@.tiered(ns_view(namespace), now, self.tier_config.hot_days, self.tier_config.warm_days, Tier::Cold).len()
                && st.cache_hits == self.recall_cache@.hits && st.cache_misses == self.recall_cache@.misses,
    {
        let now = now_millis();
        let r = self.stats_at(namespace, now, db_size_bytes);
        proof {
            crate::laws::law_tiers_partition_live(self.store@, ns_view(namespace), now, self.tier_config.hot_days, self.tier_config.warm_days);
        }
        r
    }

    /// Saves the index when it differs from its saved copy.
    pub fn shutdown(&mut self) -> (r: Result<(), Error>)
        ensures
            r is Ok,
            final(self).store@ == old(self).store@,
            final(self).index@.entries == old(self).index@.entries,
            final(self).index@.persisted == if old(self).index@.dirty { old(self).index@.entries } else { old(self).index@.persisted },
            !final(self).index@.dirty,
            final(self).recall_cache@ == old(self).recall_cache@,
            final(self).tier_config == old(self).tier_config,
            final(self).lifecycle_config == old(self).lifecycle_config,
    {
        if self.index.is_dirty() {
            self.index.save();
        }
        Ok(())
    }
}

} // verus!
