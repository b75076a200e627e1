//! What the operations do, stated over the fields of the memories they read and write.

use vstd::prelude::*;

use crate::aging::{
    cleanup_cap, cleanup_done, cleanup_ids, ids_of, lifecycle_cap, lifecycle_done, min_count, prune_done,
};
use crate::engine::Uteke;
use crate::import_export::{exported, import_done, EntryOutcome, EntryView};
use crate::maintenance::stats_report;
use crate::laws::lemma_aged_listing;
use crate::reports::{CleanupResult, ImportResult, LifecycleCycleResult, PruneResult, StoreStats};
use crate::store::{
    aged_pred, expired_pred, is_aged, lemma_oldest_first_exists, tier_pred, Tier, lists_oldest_first, oldest_first, scope_pred, unlisted_pred,
    Scope, StoreView,
};
use crate::types::{strs_view, Error, MemoryView};

verus! {

broadcast use vstd::seq_lib::group_seq_properties;

/// The memory is of namespace `n` when a namespace is given; any memory otherwise.
pub open spec fn belongs_to(m: MemoryView, ns: Option<Seq<char>>) -> bool {
    match ns {
        Some(n) => m.namespace == n,
        None => true,
    }
}

/// The memory was created more than `days` days (in milliseconds) before `now`.
pub open spec fn created_before(m: MemoryView, now: i64, days: u32) -> bool {
    (m.created_at as int) < now as int - days as int * 86_400_000
}

/// A live memory of the namespace, not pinned, created more than `days` days before
/// `now`, and accessed at most `max_access` times.
pub open spec fn old_and_unused(ns: Option<Seq<char>>, now: i64, days: u32, max_access: u32) -> spec_fn(MemoryView) -> bool {
    |m: MemoryView|
        !m.deprecated && belongs_to(m, ns) && !m.pinned && created_before(m, now, days) && m.access_count <= max_access
}

/// Some memory with the id satisfies `sel`.
pub open spec fn memory_with_id_where(ms: Seq<MemoryView>, id: Seq<char>, sel: spec_fn(MemoryView) -> bool) -> bool {
    exists|i: int| 0 <= i < ms.len() && #[trigger] id_is(ms[i], id) && sel(ms[i])
}

/// The memory has the id.
pub open spec fn id_is(m: MemoryView, id: Seq<char>) -> bool {
    m.id == id
}

/// A deprecated memory of the namespace, last updated (deprecated) more than `days` days
/// before `now`.
pub open spec fn deprecated_before(ns: Option<Seq<char>>, now: i64, days: u32) -> spec_fn(MemoryView) -> bool {
    |m: MemoryView| m.deprecated && belongs_to(m, ns) && (m.updated_at as int) < now as int - days as int * 86_400_000
}

/// The positions `0..n` whose memory satisfies `sel`, as a set.
spec fn selected_set(ms: Seq<MemoryView>, sel: spec_fn(MemoryView) -> bool, n: int) -> Set<int> {
    Set::new(|x: int| 0 <= x < n && sel(ms[x]))
}

proof fn lemma_selected_set_len(ms: Seq<MemoryView>, sel: spec_fn(MemoryView) -> bool, n: int)
    requires
        0 <= n <= ms.len(),
    ensures
        selected_set(ms, sel, n).finite(),
        selected_set(ms, sel, n).len() == ms.take(n).filter(sel).len(),
    decreases n,
{
    if n == 0 {
        assert(selected_set(ms, sel, n) =~= Set::<int>::empty());
        assert(ms.take(0) =~= Seq::<MemoryView>::empty());
    } else {
        lemma_selected_set_len(ms, sel, n - 1);
        let prev = selected_set(ms, sel, n - 1);
        assert(ms.take(n) =~= ms.take(n - 1).push(ms[n - 1]));
        ms.take(n - 1).lemma_filter_push(ms[n - 1], sel);
        if sel(ms[n - 1]) {
            assert(selected_set(ms, sel, n) =~= prev.insert(n - 1));
            assert(!prev.contains(n - 1));
        } else {
            assert(selected_set(ms, sel, n) =~= prev);
        }
    }
}

/// An oldest-first listing holds as many positions as there are memories that satisfy
/// the selection.
proof fn lemma_listing_len(ms: Seq<MemoryView>, sel: spec_fn(MemoryView) -> bool, ps: Seq<int>)
    requires
        lists_oldest_first(ms, sel, ps),
    ensures
        ps.len() == ms.filter(sel).len(),
{
    assert(ps.no_duplicates()) by {
        assert forall|i: int, j: int| 0 <= i < ps.len() && 0 <= j < ps.len() && i != j implies ps[i] != ps[j] by {
            if i < j {
                assert(crate::store::older_first(ms)(ps[i], ps[j]));
            } else {
                assert(crate::store::older_first(ms)(ps[j], ps[i]));
            }
        }
    }
    ps.unique_seq_to_set();
    lemma_selected_set_len(ms, sel, ms.len() as int);
    assert(ps.to_set() =~= selected_set(ms, sel, ms.len() as int)) by {
        assert forall|x: int| ps.to_set().contains(x) <==> selected_set(ms, sel, ms.len() as int).contains(x) by {
            assert(ps.contains(x) <==> (0 <= x < ms.len() && sel(ms[x])));
        }
    }
    assert(ms.take(ms.len() as int) =~= ms);
}

/// A lifecycle cycle deprecates only memories that are live, of the namespace, not
/// pinned, created more than `min_age_days` days before `now`, and accessed at most
/// `max_access_count` times; and the candidates it counts are exactly those memories.
pub proof fn law_lifecycle_deprecates_only_aged(
    u0: Uteke,
    u1: Uteke,
    r: Result<LifecycleCycleResult, Error>,
    ns: Option<Seq<char>>,
    now: i64,
)
    requires
        lifecycle_done(u0, u1, r, ns, now),
    ensures
        r is Ok,
        r->Ok_0.candidates == u0.store@.memories.filter(
            old_and_unused(ns, now, u0.lifecycle_config.min_age_days, u0.lifecycle_config.max_access_count),
        ).len(),
        forall|k: int|
            0 <= k < strs_view(r->Ok_0.deprecated_ids@).len() ==> #[trigger] memory_with_id_where(
                u0.store@.memories,
                strs_view(r->Ok_0.deprecated_ids@)[k],
                old_and_unused(ns, now, u0.lifecycle_config.min_age_days, u0.lifecycle_config.max_access_count),
            ),
{
    let s = u0.store@;
    let ms = s.memories;
    let cfg = u0.lifecycle_config;
    let sel = aged_pred(ns, now, cfg.min_age_days, cfg.max_access_count);
    let fields = old_and_unused(ns, now, cfg.min_age_days, cfg.max_access_count);
    assert(sel =~= fields);
    lemma_oldest_first_exists(ms, sel);
    let ps = oldest_first(ms, sel);
    lemma_listing_len(ms, sel, ps);
    let aged = s.aged(ns, now, cfg.min_age_days, cfg.max_access_count);
    assert(aged.len() == ps.len());
    assert(ms.filter(sel) == ms.filter(fields));
    assert(r->Ok_0.candidates == ms.filter(fields).len());
    let ids = strs_view(r->Ok_0.deprecated_ids@);
    let n = ids.len() as int;
    crate::laws::law_lifecycle_cap_bounds(s, ns, now, cfg);
    assert(ids == ids_of(aged.take(n)));
    assert forall|k: int| 0 <= k < ids.len() implies #[trigger] memory_with_id_where(
        ms,
        ids[k],
        old_and_unused(ns, now, cfg.min_age_days, cfg.max_access_count),
    ) by {
        let i = lemma_taken_id_old_and_unused(s, ns, now, cfg.min_age_days, cfg.max_access_count, n, k);
        assert(id_is(ms[i], ids[k]));
    }
}

/// The `k`-th of the first `n` aged memories is the memory at the returned position,
/// and it is old and unused.
proof fn lemma_taken_id_old_and_unused(s: StoreView, ns: Option<Seq<char>>, now: i64, days: u32, max_access: u32, n: int, k: int)
    -> (i: int)
    requires
        0 <= k < n <= s.aged(ns, now, days, max_access).len(),
    ensures
        0 <= i < s.memories.len(),
        id_is(s.memories[i], ids_of(s.aged(ns, now, days, max_access).take(n))[k]),
        old_and_unused(ns, now, days, max_access)(s.memories[i]),
{
    let ms = s.memories;
    let sel = aged_pred(ns, now, days, max_access);
    let fields = old_and_unused(ns, now, days, max_access);
    assert(sel =~= fields);
    lemma_oldest_first_exists(ms, sel);
    let ps = oldest_first(ms, sel);
    let aged = s.aged(ns, now, days, max_access);
    let ids = ids_of(aged.take(n));
    assert(ids[k] == aged[k].id);
    assert(ps.contains(ps[k]));
    assert(aged[k] == ms[ps[k]]);
    assert(sel(ms[ps[k]]));
    ps[k]
}

/// Taking the first `n` aged memories takes only old and unused memories, and none
/// younger than an old and unused memory it leaves.
proof fn lemma_first_aged_ids(s: StoreView, ns: Option<Seq<char>>, now: i64, days: u32, max_access: u32, n: int)
    requires
        s.wf(),
        0 <= n <= s.aged(ns, now, days, max_access).len(),
    ensures
        ({
            let ms = s.memories;
            let ids = ids_of(s.aged(ns, now, days, max_access).take(n));
            let sel = old_and_unused(ns, now, days, max_access);
            &&& forall|i: int| 0 <= i < ms.len() && #[trigger] ids.contains(ms[i].id) ==> sel(ms[i])
            &&& forall|i: int, j: int|
                0 <= i < ms.len() && 0 <= j < ms.len() && #[trigger] ids.contains(ms[i].id) && !#[trigger] ids.contains(
                    ms[j].id,
                ) && sel(ms[j]) ==> ms[i].created_at <= ms[j].created_at
        }),
{
    let ms = s.memories;
    let aged = s.aged(ns, now, days, max_access);
    let ids = ids_of(aged.take(n));
    let sel = old_and_unused(ns, now, days, max_access);
    let asel = aged_pred(ns, now, days, max_access);
    assert(asel =~= sel);
    lemma_aged_listing(s, ns, now, days, max_access);
    lemma_oldest_first_exists(ms, asel);
    let ps = oldest_first(ms, asel);
    assert forall|i: int| 0 <= i < ms.len() && #[trigger] ids.contains(ms[i].id) implies (exists|k: int|
        0 <= k < n && aged[k] == ms[i]) by {
        let k = choose|k: int| 0 <= k < ids.len() && ids[k] == ms[i].id;
        assert(ids[k] == aged[k].id);
        assert(ms.contains(aged[k]));
        let p = choose|p: int| 0 <= p < ms.len() && ms[p] == aged[k];
        assert(ms[p].id == ms[i].id);
        assert(p == i);
    }
    assert forall|i: int| 0 <= i < ms.len() && #[trigger] ids.contains(ms[i].id) implies sel(ms[i]) by {
        let k = choose|k: int| 0 <= k < n && aged[k] == ms[i];
        assert(is_aged(aged[k], ns, now, days, max_access));
        assert(asel(aged[k]));
    }
    assert forall|i: int, j: int|
        0 <= i < ms.len() && 0 <= j < ms.len() && #[trigger] ids.contains(ms[i].id) && !#[trigger] ids.contains(ms[j].id)
            && sel(ms[j]) implies ms[i].created_at <= ms[j].created_at by {
        let k = choose|k: int| 0 <= k < n && aged[k] == ms[i];
        assert(asel(ms[j]));
        assert(ps.contains(j));
        let q = choose|q: int| 0 <= q < ps.len() && ps[q] == j;
        assert(aged[q] == ms[j]);
        if q < n {
            assert(ids[q] == ms[j].id);
            assert(ids.contains(ms[j].id));
        }
        assert(aged[k].created_at <= aged[q].created_at);
    }
}

/// A lifecycle cycle deprecates the oldest candidates: each memory whose id it lists is
/// old and unused, and no older than any old and unused memory of the namespace that it
/// leaves.
pub proof fn law_lifecycle_deprecates_oldest(
    u0: Uteke,
    u1: Uteke,
    r: Result<LifecycleCycleResult, Error>,
    ns: Option<Seq<char>>,
    now: i64,
)
    requires
        u0.store@.wf(),
        lifecycle_done(u0, u1, r, ns, now),
    ensures
        ({
            let ms = u0.store@.memories;
            let cfg = u0.lifecycle_config;
            let ids = strs_view(r->Ok_0.deprecated_ids@);
            let sel = old_and_unused(ns, now, cfg.min_age_days, cfg.max_access_count);
            &&& forall|i: int| 0 <= i < ms.len() && #[trigger] ids.contains(ms[i].id) ==> sel(ms[i])
            &&& forall|i: int, j: int|
                0 <= i < ms.len() && 0 <= j < ms.len() && #[trigger] ids.contains(ms[i].id) && !#[trigger] ids.contains(
                    ms[j].id,
                ) && sel(ms[j]) ==> ms[i].created_at <= ms[j].created_at
        }),
{
    let s = u0.store@;
    let cfg = u0.lifecycle_config;
    let cands = s.aged(ns, now, cfg.min_age_days, cfg.max_access_count);
    let n = min_count(lifecycle_cap(s, ns, cfg), cands.len() as int);
    crate::laws::law_lifecycle_cap_bounds(s, ns, now, cfg);
    lemma_first_aged_ids(s, ns, now, cfg.min_age_days, cfg.max_access_count, n);
}

/// Aging cleanup changes or removes only old and unused memories of the namespace (by
/// `older_than_days` and `max_access_count`), and the oldest of them: every memory that is
/// no longer stored as it was is old and unused, and no younger than any old and unused
/// memory that is still stored as it was.
pub proof fn law_cleanup_takes_oldest_aged(
    u0: Uteke,
    u1: Uteke,
    r: Result<CleanupResult, Error>,
    days: u32,
    max_access: u32,
    ns: Option<Seq<char>>,
    now: i64,
)
    requires
        u0.store@.wf(),
        cleanup_done(u0, u1, r, days, max_access, ns, now),
    ensures
        ({
            let ms = u0.store@.memories;
            let after = u1.store@.memories;
            let sel = old_and_unused(ns, now, days, max_access);
            &&& forall|i: int| 0 <= i < ms.len() && !#[trigger] after.contains(ms[i]) ==> sel(ms[i])
            &&& forall|i: int, j: int|
                0 <= i < ms.len() && 0 <= j < ms.len() && !#[trigger] after.contains(ms[i]) && #[trigger] after.contains(
                    ms[j],
                ) && sel(ms[j]) ==> ms[i].created_at <= ms[j].created_at
        }),
{
    let s = u0.store@;
    let ms = s.memories;
    let after = u1.store@.memories;
    let cfg = u0.lifecycle_config;
    let ids = cleanup_ids(s, ns, now, days, max_access, cfg);
    let sel = old_and_unused(ns, now, days, max_access);
    let n = cleanup_cap(s, ns, now, days, max_access, cfg);
    crate::laws::law_cleanup_cap_bounds(s, ns, now, days, max_access, cfg);
    lemma_first_aged_ids(s, ns, now, days, max_access, n);
    // A memory no longer stored as it was is listed; a live one still stored is not.
    assert forall|i: int| 0 <= i < ms.len() && !#[trigger] after.contains(ms[i]) implies ids.contains(ms[i].id) by {
        if !ids.contains(ms[i].id) {
            if ids.len() > 0 && cfg.soft_delete_only {
                assert(after[i] == ms[i]);
            } else if ids.len() > 0 {
                ms.lemma_filter_contains(unlisted_pred(ids), i);
            } else {
                assert(after[i] == ms[i]);
            }
        }
    }
    assert forall|j: int| 0 <= j < ms.len() && #[trigger] after.contains(ms[j]) && sel(ms[j]) implies !ids.contains(ms[j].id) by {
        if ids.contains(ms[j].id) && ids.len() > 0 {
            let p = choose|p: int| 0 <= p < after.len() && after[p] == ms[j];
            if cfg.soft_delete_only {
                assert(after[p] != ms[p] ==> after[p].deprecated);
                if after[p] == ms[p] {
                    assert(ms[p].id == ms[j].id);
                    assert(p == j);
                }
            } else {
                assert(after.contains(ms[j]));
                ms.lemma_filter_contains_rev(unlisted_pred(ids), ms[j]);
            }
        }
    }
}

/// Pruning deletes only deprecated memories of the namespace whose deprecation is older
/// than `ttl_days` days at `now`: every other memory is still stored afterwards, and
/// each id that a prune lists is that of such a memory.
pub proof fn law_prune_deletes_only_expired_of_namespace(
    u0: Uteke,
    u1: Uteke,
    r: Result<PruneResult, Error>,
    ttl_days: u32,
    ns: Option<Seq<char>>,
    dry_run: bool,
    now: i64,
)
    requires
        u0.store@.wf(),
        prune_done(u0, u1, r, ttl_days, ns, dry_run, now),
    ensures
        ({
            let ms = u0.store@.memories;
            let ids = strs_view(r->Ok_0.deprecated_ids@);
            &&& forall|i: int|
                0 <= i < ms.len() && !(ms[i].deprecated && belongs_to(ms[i], ns) && (ms[i].updated_at as int) < now as int
                    - ttl_days as int * 86_400_000) ==> u1.store@.memories.contains(#[trigger] ms[i])
            &&& forall|k: int| 0 <= k < ids.len() ==> #[trigger] memory_with_id_where(ms, ids[k], deprecated_before(ns, now, ttl_days))
        }),
{
    let s = u0.store@;
    let ms = s.memories;
    let pred = expired_pred(ns, now, ttl_days);
    let exp = s.expired(ns, now, ttl_days);
    let ids = strs_view(r->Ok_0.deprecated_ids@);
    assert forall|k: int| 0 <= k < ids.len() implies #[trigger] memory_with_id_where(ms, ids[k], deprecated_before(ns, now, ttl_days)) by {
        assert(ids[k] == exp[k].id);
        ms.lemma_filter_pred(pred, k);
        assert(exp.contains(exp[k]));
        ms.lemma_filter_contains_rev(pred, exp[k]);
        let i = choose|i: int| 0 <= i < ms.len() && ms[i] == exp[k];
        assert(id_is(ms[i], ids[k]));
        assert(deprecated_before(ns, now, ttl_days)(ms[i]));
    }
    assert forall|i: int|
        0 <= i < ms.len() && !(ms[i].deprecated && belongs_to(ms[i], ns) && (ms[i].updated_at as int) < now as int
            - ttl_days as int * 86_400_000) implies u1.store@.memories.contains(#[trigger] ms[i]) by {
        if !(dry_run || exp.len() == 0) {
            let lids = ids_of(exp);
            if lids.contains(ms[i].id) {
                let k = choose|k: int| 0 <= k < lids.len() && lids[k] == ms[i].id;
                ms.lemma_filter_pred(pred, k);
                assert(exp.contains(exp[k]));
                ms.lemma_filter_contains_rev(pred, exp[k]);
                let p = choose|p: int| 0 <= p < ms.len() && ms[p] == exp[k];
                assert(ms[p].id == ms[i].id);
                assert(p == i);
            }
            ms.lemma_filter_contains(unlisted_pred(lids), i);
        }
    }
}

/// An imported memory carries its entry: after an entry is imported, the store holds one
/// more memory, at the end, with the given id and the entry's content, tags, metadata and
/// creation time, its vector (the entry's own, else the computed one), the namespace of
/// the import (`default` without one), live, unpinned, never accessed, and with source
/// `import:` followed by the entry's source.
pub proof fn law_import_keeps_entry(
    u0: Uteke,
    u1: Uteke,
    counted: ImportResult,
    tally: ImportResult,
    e: EntryView,
    computed: Option<Seq<u32>>,
    duplicate: bool,
    ns: Option<Seq<char>>,
    id: Seq<char>,
    now: i64,
)
    requires
        import_done(u0, u1, counted, tally, e, computed, duplicate, ns, id, now, EntryOutcome::Imported),
    ensures
        ({
            let ms = u1.store@.memories;
            let m = ms.last();
            &&& ms.len() == u0.store@.memories.len() + 1
            &&& ms.take(ms.len() - 1) == u0.store@.memories
            &&& m.id == id
            &&& m.content == e.content
            &&& m.tags == e.tags
            &&& m.metadata == e.metadata
            &&& m.created_at == e.created_at
            &&& m.embedding == match e.embedding {
                Some(v) => v,
                None => computed->Some_0,
            }
            &&& m.namespace == match ns {
                Some(n) => n,
                None => "default"@,
            }
            &&& !m.deprecated && !m.pinned && m.access_count == 0
            &&& m.source == Some(
                "import:"@ + match e.source {
                    Some(src) => src,
                    None => Seq::empty(),
                },
            )
            &&& tally.imported == counted.imported + 1
        }),
{
    let ms = u1.store@.memories;
    assert(ms.take(ms.len() - 1) =~= u0.store@.memories);
}

/// Import then export: after an entry is imported, the export of all namespaces ends
/// with an entry that has the imported entry's content, tags, metadata and creation time.
pub proof fn law_import_then_export(
    u0: Uteke,
    u1: Uteke,
    counted: ImportResult,
    tally: ImportResult,
    e: EntryView,
    computed: Option<Seq<u32>>,
    duplicate: bool,
    ns: Option<Seq<char>>,
    id: Seq<char>,
    now: i64,
    es: Seq<EntryView>,
)
    requires
        import_done(u0, u1, counted, tally, e, computed, duplicate, ns, id, now, EntryOutcome::Imported),
        exported(u1, None, es),
    ensures
        es.len() > 0,
        es.last().content == e.content,
        es.last().tags == e.tags,
        es.last().metadata == e.metadata,
        es.last().created_at == e.created_at,
        es.last().embedding is None,
{
    law_import_keeps_entry(u0, u1, counted, tally, e, computed, duplicate, ns, id, now);
    let ms = u1.store@.memories;
    let prev = ms.take(ms.len() - 1);
    let p = scope_pred(None, Scope::Live);
    assert(prev.push(ms.last()) =~= ms);
    prev.lemma_filter_push(ms.last(), p);
    assert(p(ms.last()));
}

/// The export of a namespace has one entry per live memory of the namespace, in store
/// order, each with that memory's content, tags, metadata, creation time and source, and
/// without a vector.
pub proof fn law_export_carries_memories(u: Uteke, ns: Option<Seq<char>>, es: Seq<EntryView>)
    requires
        exported(u, ns, es),
    ensures
        ({
            let live = u.store@.memories.filter(|m: MemoryView| !m.deprecated && belongs_to(m, ns));
            &&& es.len() == live.len()
            &&& forall|k: int| 0 <= k < es.len() ==> {
                &&& (#[trigger] es[k]).content == live[k].content
                &&& es[k].tags == live[k].tags
                &&& es[k].metadata == live[k].metadata
                &&& es[k].created_at == live[k].created_at
                &&& es[k].source == live[k].source
                &&& es[k].embedding is None
            }
        }),
{
    let fields = |m: MemoryView| !m.deprecated && belongs_to(m, ns);
    assert(scope_pred(ns, Scope::Live) =~= fields);
}

/// The distinct tags that the statistics of a namespace count are exactly the tags of its
/// live memories.
pub proof fn law_stats_counts_namespace_tags(u: Uteke, ns: Option<Seq<char>>, now: i64, db_size_bytes: u64, st: StoreStats)
    requires
        stats_report(u, ns, now, db_size_bytes, st),
    ensures
        st.unique_tags == Set::new(
            |t: Seq<char>| exists|i: int, k: int|
                0 <= i < u.store@.memories.len() && !u.store@.memories[i].deprecated
                    && belongs_to(u.store@.memories[i], ns) && 0 <= k < u.store@.memories[i].tags.len()
                    && #[trigger] u.store@.memories[i].tags[k] == t,
        ).len(),
{
    let ms = u.store@.memories;
    let mine = Set::new(
        |t: Seq<char>| exists|i: int, k: int|
            0 <= i < ms.len() && !ms[i].deprecated && belongs_to(ms[i], ns) && 0 <= k < ms[i].tags.len()
                && #[trigger] ms[i].tags[k] == t,
    );
    assert(u.store@.tag_set(ns) =~= mine);
}

/// The time of a memory's last access, else its creation.
pub open spec fn active_at(m: MemoryView) -> int {
    match m.last_accessed {
        Some(t) => t as int,
        None => m.created_at as int,
    }
}

/// A live memory of the namespace.
pub open spec fn live_of(ns: Option<Seq<char>>) -> spec_fn(MemoryView) -> bool {
    |m: MemoryView| !m.deprecated && belongs_to(m, ns)
}

/// The memories that the counts of a namespace count: live ones; deprecated ones; live
/// pinned ones; live ones never accessed.
pub proof fn law_scopes_by_fields(s: StoreView, ns: Option<Seq<char>>)
    ensures
        s.scoped(ns, Scope::Live) == s.memories.filter(live_of(ns)),
        s.scoped(ns, Scope::Deprecated) == s.memories.filter(|m: MemoryView| m.deprecated && belongs_to(m, ns)),
        s.scoped(ns, Scope::Pinned) == s.memories.filter(|m: MemoryView| !m.deprecated && m.pinned && belongs_to(m, ns)),
        s.scoped(ns, Scope::NeverAccessed) == s.memories.filter(
            |m: MemoryView| !m.deprecated && m.access_count == 0 && belongs_to(m, ns),
        ),
{
    assert(scope_pred(ns, Scope::Live) =~= live_of(ns));
    assert(scope_pred(ns, Scope::Deprecated) =~= (|m: MemoryView| m.deprecated && belongs_to(m, ns)));
    assert(scope_pred(ns, Scope::Pinned) =~= (|m: MemoryView| !m.deprecated && m.pinned && belongs_to(m, ns)));
    assert(scope_pred(ns, Scope::NeverAccessed) =~= (
    |m: MemoryView| !m.deprecated && m.access_count == 0 && belongs_to(m, ns)));
}

/// A live memory of the namespace last active at or after `hot_days` days before `now`.
pub open spec fn hot_of(ns: Option<Seq<char>>, now: i64, hot_days: u32) -> spec_fn(MemoryView) -> bool {
    |m: MemoryView| !m.deprecated && belongs_to(m, ns) && active_at(m) >= now as int - hot_days as int * 86_400_000
}

/// A live memory of the namespace last active before `hot_days` days but at or after
/// `warm_days` days before `now`.
pub open spec fn warm_of(ns: Option<Seq<char>>, now: i64, hot_days: u32, warm_days: u32) -> spec_fn(MemoryView) -> bool {
    |m: MemoryView|
        !m.deprecated && belongs_to(m, ns) && active_at(m) < now as int - hot_days as int * 86_400_000
            && active_at(m) >= now as int - warm_days as int * 86_400_000
}

/// A live memory of the namespace last active before both `hot_days` and `warm_days` days
/// before `now`.
pub open spec fn cold_of(ns: Option<Seq<char>>, now: i64, hot_days: u32, warm_days: u32) -> spec_fn(MemoryView) -> bool {
    |m: MemoryView|
        !m.deprecated && belongs_to(m, ns) && active_at(m) < now as int - hot_days as int * 86_400_000
            && active_at(m) < now as int - warm_days as int * 86_400_000
}

/// The statistics of a namespace count its live memories, and split them into hot (last
/// active within `hot_days`), warm (within `warm_days` but not `hot_days`) and cold (the
/// rest), by the time of each memory's last access, else its creation.
pub proof fn law_stats_by_fields(u: Uteke, ns: Option<Seq<char>>, now: i64, db_size_bytes: u64, st: StoreStats)
    requires
        stats_report(u, ns, now, db_size_bytes, st),
    ensures
        st.total_memories == u.store@.memories.filter(live_of(ns)).len(),
        st.hot == u.store@.memories.filter(hot_of(ns, now, u.tier_config.hot_days)).len(),
        st.warm == u.store@.memories.filter(warm_of(ns, now, u.tier_config.hot_days, u.tier_config.warm_days)).len(),
        st.cold == u.store@.memories.filter(cold_of(ns, now, u.tier_config.hot_days, u.tier_config.warm_days)).len(),
        st.db_size_bytes == db_size_bytes,
{
    let (h, w) = (u.tier_config.hot_days, u.tier_config.warm_days);
    law_scopes_by_fields(u.store@, ns);
    assert(tier_pred(ns, now, h, w, Tier::Hot) =~= hot_of(ns, now, h));
    assert(tier_pred(ns, now, h, w, Tier::Warm) =~= warm_of(ns, now, h, w));
    assert(tier_pred(ns, now, h, w, Tier::Cold) =~= cold_of(ns, now, h, w));
}

} // verus!
