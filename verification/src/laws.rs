//! What holds of the library across its operations.

use vstd::prelude::*;

use crate::aging::{
    cleanup_cap, cleanup_ids, floored_share, ids_of, prune_done, lifecycle_cap, lifecycle_candidates, lifecycle_deprecate_ids, min_count,
};
use crate::engine::LifecycleConfig;
use crate::index::{built_from, has_key, with_entry, EntryView};
use crate::engine::Uteke;
use crate::maintenance::{chunk_key, embedded_pred, memory_entry, repair_done, repair_items, verify_report};
use crate::reports::{PruneResult, RepairReport, VerifyReport};
use crate::types::{strs_view, Error};
use crate::store::{
    aged_pred, deprecate_listed, expired_pred, is_aged, lemma_oldest_first_exists,
    lists_oldest_first, older_first, oldest_first, scope_pred, tier_pred, unlisted_pred, Scope, StoreView, Tier,
};
use crate::text::{joined, jsonl_records, records_of, split_lines, split_state, trimmed};
use crate::types::MemoryView;

verus! {

broadcast use vstd::seq_lib::group_seq_properties;

proof fn lemma_with_entry_keys(es: Seq<EntryView>, k: Seq<char>, v: Seq<u32>, x: Seq<char>)
    ensures
        has_key(with_entry(es, k, v), x) <==> (has_key(es, x) || x == k),
{
    let r = with_entry(es, k, v);
    if has_key(es, k) {
        if has_key(es, x) {
            let i = choose|i: int| 0 <= i < es.len() && #[trigger] es[i].0 == x;
            assert(r[i].0 == x);
        }
        if x == k {
            let i = choose|i: int| 0 <= i < es.len() && #[trigger] es[i].0 == k;
            assert(r[i].0 == x);
        }
        if has_key(r, x) {
            let i = choose|i: int| 0 <= i < r.len() && #[trigger] r[i].0 == x;
            if es[i].0 != k {
                assert(es[i].0 == x);
            }
        }
    } else {
        if has_key(es, x) {
            let i = choose|i: int| 0 <= i < es.len() && #[trigger] es[i].0 == x;
            assert(r[i].0 == x);
        }
        if x == k {
            assert(r[es.len() as int].0 == x);
        }
        if has_key(r, x) {
            let i = choose|i: int| 0 <= i < r.len() && #[trigger] r[i].0 == x;
            if i < es.len() {
                assert(es[i].0 == x);
            }
        }
    }
}

/// An index built from `items` has exactly the keys of `items`.
pub proof fn lemma_built_from_keys(items: Seq<EntryView>, x: Seq<char>)
    ensures
        has_key(built_from(items), x) <==> exists|i: int| 0 <= i < items.len() && #[trigger] items[i].0 == x,
    decreases items.len(),
{
    if items.len() > 0 {
        let prev = items.drop_last();
        lemma_built_from_keys(prev, x);
        lemma_with_entry_keys(built_from(prev), items.last().0, items.last().1, x);
        if exists|i: int| 0 <= i < prev.len() && #[trigger] prev[i].0 == x {
            let i = choose|i: int| 0 <= i < prev.len() && #[trigger] prev[i].0 == x;
            assert(items[i].0 == x);
        }
        if exists|i: int| 0 <= i < items.len() && #[trigger] items[i].0 == x {
            let i = choose|i: int| 0 <= i < items.len() && #[trigger] items[i].0 == x;
            if i < prev.len() {
                assert(prev[i].0 == x);
            }
        }
    }
}

/// After repair the index holds a vector for exactly the live memories that have one
/// and for every document chunk (under `chunk:<id>`); in particular no chunk vector is
/// lost.
pub proof fn law_repair_index_keys(s: StoreView, x: Seq<char>)
    ensures
        has_key(built_from(repair_items(s)), x) <==> (
            (exists|i: int| 0 <= i < s.memories.len() && !s.memories[i].deprecated
                && s.memories[i].embedding.len() > 0 && #[trigger] s.memories[i].id == x)
            || (exists|j: int| 0 <= j < s.chunks.len() && #[trigger] chunk_key(s.chunks[j].id) == x)
        ),
{
    let items = repair_items(s);
    let live = s.scoped(None, Scope::Live);
    let emb = live.filter(embedded_pred());
    let a = emb.map_values(|m: MemoryView| memory_entry(m));
    let b = s.chunks.map_values(|c: crate::types::ChunkView| (chunk_key(c.id), c.embedding));
    assert(items == a + b);
    lemma_built_from_keys(items, x);
    if exists|i: int| 0 <= i < items.len() && #[trigger] items[i].0 == x {
        let i = choose|i: int| 0 <= i < items.len() && #[trigger] items[i].0 == x;
        if i < a.len() {
            let m = emb[i];
            assert(m.id == x);
            s.scoped(None, Scope::Live).lemma_filter_pred(embedded_pred(), i);
            assert(emb.contains(m));
            live.lemma_filter_contains_rev(embedded_pred(), m);
            let p = choose|p: int| 0 <= p < live.len() && live[p] == m;
            s.memories.lemma_filter_pred(scope_pred(None, Scope::Live), p);
            assert(live.contains(m));
            s.memories.lemma_filter_contains_rev(scope_pred(None, Scope::Live), m);
            let q = choose|q: int| 0 <= q < s.memories.len() && s.memories[q] == m;
            assert(s.memories[q].id == x);
        } else {
            assert(b[i - a.len()].0 == x);
            assert(chunk_key(s.chunks[i - a.len()].id) == x);
        }
    }
    if exists|i: int| 0 <= i < s.memories.len() && !s.memories[i].deprecated
        && s.memories[i].embedding.len() > 0 && #[trigger] s.memories[i].id == x {
        let i = choose|i: int| 0 <= i < s.memories.len() && !s.memories[i].deprecated
            && s.memories[i].embedding.len() > 0 && #[trigger] s.memories[i].id == x;
        let m = s.memories[i];
        s.memories.lemma_filter_contains(scope_pred(None, Scope::Live), i);
        let p = choose|p: int| 0 <= p < live.len() && live[p] == m;
        live.lemma_filter_contains(embedded_pred(), p);
        let k = choose|k: int| 0 <= k < emb.len() && emb[k] == m;
        assert(items[k].0 == x);
    }
    if exists|j: int| 0 <= j < s.chunks.len() && #[trigger] chunk_key(s.chunks[j].id) == x {
        let j = choose|j: int| 0 <= j < s.chunks.len() && #[trigger] chunk_key(s.chunks[j].id) == x;
        assert(items[a.len() + j].0 == x);
    }
}

proof fn lemma_filter_keeps_all(ms: Seq<MemoryView>, p: spec_fn(MemoryView) -> bool)
    requires
        forall|i: int| 0 <= i < ms.len() ==> p(#[trigger] ms[i]),
    ensures
        ms.filter(p) == ms,
    decreases ms.len(),
{
    reveal_with_fuel(Seq::filter, 1);
    if ms.len() > 0 {
        let prev = ms.drop_last();
        assert forall|i: int| 0 <= i < prev.len() implies p(#[trigger] prev[i]) by {
            assert(prev[i] == ms[i]);
        }
        lemma_filter_keeps_all(prev, p);
        assert(p(ms[ms.len() - 1]));
        assert(prev.push(ms.last()) =~= ms);
    }
}

proof fn lemma_filter_ids_unique(ms: Seq<MemoryView>, p: spec_fn(MemoryView) -> bool)
    requires
        crate::store::ids_unique(ms),
    ensures
        crate::store::ids_unique(ms.filter(p)),
        forall|x: MemoryView| ms.filter(p).contains(x) ==> ms.contains(x),
    decreases ms.len(),
{
    if ms.len() > 0 {
        let prev = ms.drop_last();
        let x = ms.last();
        assert forall|i: int, j: int| 0 <= i < prev.len() && 0 <= j < prev.len() && i != j implies
            #[trigger] prev[i].id != #[trigger] prev[j].id by {
            assert(ms[i].id != ms[j].id);
        }
        lemma_filter_ids_unique(prev, p);
        assert(prev.push(x) =~= ms);
        prev.lemma_filter_push(x, p);
        let f = prev.filter(p);
        if p(x) {
            let g = f.push(x);
            assert forall|i: int, j: int| 0 <= i < g.len() && 0 <= j < g.len() && i != j implies
                #[trigger] g[i].id != #[trigger] g[j].id by {
                if i < f.len() && j < f.len() {
                    assert(f[i].id != f[j].id);
                } else if i < f.len() {
                    assert(f.contains(f[i]));
                    assert(prev.contains(f[i]));
                    let a = choose|a: int| 0 <= a < prev.len() && prev[a] == f[i];
                    assert(ms[a] == prev[a]);
                    assert(ms[a].id != ms[ms.len() - 1].id);
                    assert(g[i] == f[i] && g[j] == x);
                } else {
                    assert(f.contains(f[j]));
                    assert(prev.contains(f[j]));
                    let a = choose|a: int| 0 <= a < prev.len() && prev[a] == f[j];
                    assert(ms[a] == prev[a]);
                    assert(ms[a].id != ms[ms.len() - 1].id);
                    assert(g[j] == f[j] && g[i] == x);
                }
            }
            assert forall|y: MemoryView| g.contains(y) implies ms.contains(y) by {
                let k = choose|k: int| 0 <= k < g.len() && g[k] == y;
                if k < f.len() {
                    assert(f[k] == y);
                    assert(f.contains(y));
                    assert(prev.contains(y));
                    let a = choose|a: int| 0 <= a < prev.len() && prev[a] == y;
                    assert(ms[a] == prev[a]);
                    assert(ms[a] == y);
                } else {
                    assert(ms[ms.len() - 1] == y);
                }
            }
        } else {
            assert forall|y: MemoryView| f.contains(y) implies ms.contains(y) by {
                assert(prev.contains(y));
                let a = choose|a: int| 0 <= a < prev.len() && prev[a] == y;
                assert(ms[a] == prev[a]);
                assert(ms[a] == y);
            }
        }
    } else {
        reveal_with_fuel(Seq::filter, 1);
    }
}

proof fn lemma_built_from_unique_keys(items: Seq<EntryView>)
    requires
        crate::index::keys_unique(items),
    ensures
        built_from(items) == items,
    decreases items.len(),
{
    if items.len() > 0 {
        let prev = items.drop_last();
        assert forall|i: int, j: int| 0 <= i < prev.len() && 0 <= j < prev.len() && i != j implies
            #[trigger] prev[i].0 != #[trigger] prev[j].0 by {
            assert(items[i].0 != items[j].0);
        }
        lemma_built_from_unique_keys(prev);
        assert(!has_key(prev, items.last().0)) by {
            if has_key(prev, items.last().0) {
                let i = choose|i: int| 0 <= i < prev.len() && #[trigger] prev[i].0 == items.last().0;
                assert(items[i].0 != items[items.len() - 1].0);
            }
        }
        assert(prev.push(items.last()) =~= items);
    }
}

/// Repair makes the store and the index agree: when there are no document chunks and
/// every live memory has a vector, the rebuilt index has exactly one entry per live
/// memory, so the counts that `verify` and `doctor` compare are equal.
pub proof fn law_repair_restores_consistency(s: StoreView)
    requires
        s.wf(),
        s.chunks.len() == 0,
        forall|i: int| 0 <= i < s.memories.len() && !s.memories[i].deprecated ==> (#[trigger] s.memories[i]).embedding.len() > 0,
    ensures
        built_from(repair_items(s)).len() == s.scoped(None, Scope::Live).len(),
{
    let live = s.scoped(None, Scope::Live);
    lemma_filter_ids_unique(s.memories, scope_pred(None, Scope::Live));
    assert forall|i: int| 0 <= i < live.len() implies embedded_pred()(#[trigger] live[i]) by {
        s.memories.lemma_filter_pred(scope_pred(None, Scope::Live), i);
        assert(live.contains(live[i]));
        assert(s.memories.contains(live[i]));
        let p = choose|p: int| 0 <= p < s.memories.len() && s.memories[p] == live[i];
        assert(scope_pred(None, Scope::Live)(live[i]));
        assert(!s.memories[p].deprecated);
        assert(s.memories[p].embedding.len() > 0);
    }
    lemma_filter_keeps_all(live, embedded_pred());
    let items = repair_items(s);
    let a = live.map_values(|m: MemoryView| memory_entry(m));
    assert(items =~= a);
    assert forall|i: int, j: int| 0 <= i < a.len() && 0 <= j < a.len() && i != j implies #[trigger] a[i].0 != #[trigger] a[j].0 by {
        assert(live[i].id != live[j].id);
    }
    lemma_built_from_unique_keys(items);
}

/// No memory has the `chunk:<id>` key of a document chunk as its id, so the keys that
/// repair rebuilds the index from cannot collide.
pub open spec fn no_chunk_key_ids(s: StoreView) -> bool {
    forall|i: int, j: int|
        0 <= i < s.memories.len() && 0 <= j < s.chunks.len() ==> #[trigger] s.memories[i].id != chunk_key(
            #[trigger] s.chunks[j].id,
        )
}

proof fn lemma_chunk_key_injective(x: Seq<char>, y: Seq<char>)
    requires
        chunk_key(x) == chunk_key(y),
    ensures
        x == y,
{
    let p = "chunk:"@;
    assert((p + x).skip(p.len() as int) =~= x);
    assert((p + y).skip(p.len() as int) =~= y);
}

proof fn lemma_repair_items_unique(s: StoreView)
    requires
        s.wf(),
        no_chunk_key_ids(s),
    ensures
        crate::index::keys_unique(repair_items(s)),
{
    let live = s.scoped(None, Scope::Live);
    lemma_filter_ids_unique(s.memories, scope_pred(None, Scope::Live));
    lemma_filter_ids_unique(live, embedded_pred());
    let emb = live.filter(embedded_pred());
    let a = emb.map_values(|m: MemoryView| memory_entry(m));
    let b = s.chunks.map_values(|c: crate::types::ChunkView| (chunk_key(c.id), c.embedding));
    let items = repair_items(s);
    assert(items =~= a + b);
    assert forall|k: int| 0 <= k < a.len() implies s.memories.contains(#[trigger] emb[k]) && a[k].0 == emb[k].id by {
        assert(emb.contains(emb[k]));
        assert(live.contains(emb[k]));
    }
    assert forall|i: int, j: int| 0 <= i < items.len() && 0 <= j < items.len() && i != j implies
        #[trigger] items[i].0 != #[trigger] items[j].0 by {
        if i < a.len() && j < a.len() {
            assert(items[i].0 == emb[i].id && items[j].0 == emb[j].id);
            assert(emb[i].id != emb[j].id);
        } else if i >= a.len() && j >= a.len() {
            let ci = s.chunks[i - a.len()].id;
            let cj = s.chunks[j - a.len()].id;
            assert(items[i].0 == chunk_key(ci) && items[j].0 == chunk_key(cj));
            if chunk_key(ci) == chunk_key(cj) {
                lemma_chunk_key_injective(ci, cj);
            }
        } else {
            let m = if i < a.len() { i } else { j };
            let c = if i < a.len() { j - a.len() } else { i - a.len() };
            assert(s.memories.contains(emb[m]));
            let q = choose|q: int| 0 <= q < s.memories.len() && s.memories[q] == emb[m];
            assert(s.memories[q].id != chunk_key(s.chunks[c].id));
            assert(items[m].0 == emb[m].id);
            assert(items[a.len() + c].0 == chunk_key(s.chunks[c].id));
        }
    }
}

/// When no memory id collides with a chunk key, repair rebuilds the index with exactly
/// its items, one entry each, in order.
pub proof fn law_repair_rebuilds_its_items(s: StoreView)
    requires
        s.wf(),
        no_chunk_key_ids(s),
    ensures
        built_from(repair_items(s)) == repair_items(s),
{
    lemma_repair_items_unique(s);
    lemma_built_from_unique_keys(repair_items(s));
}

/// Repairing twice in a row: the second repair finds the index the first one built
/// (`index_before` is the first `index_after`), reports the same counts, and rebuilds the
/// same entries. It holds when no memory id collides with a chunk key.
pub proof fn law_repair_twice(u0: Uteke, u1: Uteke, r1: Result<RepairReport, Error>, u2: Uteke, r2: Result<RepairReport, Error>)
    requires
        u0.wf(),
        no_chunk_key_ids(u0.store@),
        repair_done(u0, u1, r1),
        repair_done(u1, u2, r2),
    ensures
        r1 is Ok && r2 is Ok,
        r2->Ok_0.index_before == r1->Ok_0.index_after,
        r2->Ok_0.index_after == r1->Ok_0.index_after,
        r2->Ok_0.db_count == r1->Ok_0.db_count,
        u2.index@.entries == u1.index@.entries,
        u2.store@ == u0.store@,
{
    law_repair_rebuilds_its_items(u0.store@);
}

/// `verify` right after a repair counts the live memories that repair reported and as
/// many index entries as repair rebuilt, and calls them consistent exactly when those two
/// numbers agree. It holds when no memory id collides with a chunk key.
pub proof fn law_verify_after_repair(u0: Uteke, u1: Uteke, r: Result<RepairReport, Error>, v: VerifyReport)
    requires
        u0.wf(),
        no_chunk_key_ids(u0.store@),
        repair_done(u0, u1, r),
        verify_report(u1, v),
    ensures
        r is Ok,
        v.db_count == r->Ok_0.db_count,
        v.index_count == r->Ok_0.index_after,
        v.consistent == (r->Ok_0.db_count == r->Ok_0.index_after),
{
    law_repair_rebuilds_its_items(u0.store@);
}

/// A cleanup takes no more aged memories than there are and no more than
/// `max_deprecate_per_cycle`; when the bounds are ordered it takes at least
/// `min_deprecate_per_cycle` of them (or all, when there are fewer); it never takes more
/// than `max_deprecate_basis_points` hundredths of a percent of the memories of the
/// namespace, unless it takes no more than `min_deprecate_per_cycle`; between the bounds it
/// takes that share, rounded down.
pub proof fn law_cleanup_cap_bounds(s: StoreView, ns: Option<Seq<char>>, now: i64, days: u32, max_access: u32, cfg: LifecycleConfig)
    ensures
        ({
            let cap = cleanup_cap(s, ns, now, days, max_access, cfg);
            let avail = s.aged(ns, now, days, max_access).len() as int;
            let total = s.scoped(ns, Scope::Live).len() as int;
            let share = floored_share(total, cfg.max_deprecate_basis_points as int);
            &&& 0 <= cap <= avail
            &&& cap <= cfg.max_deprecate_per_cycle
            &&& cap * 10000 <= total * cfg.max_deprecate_basis_points || cap <= cfg.min_deprecate_per_cycle
            &&& cfg.min_deprecate_per_cycle <= cfg.max_deprecate_per_cycle ==> cap >= min_count(cfg.min_deprecate_per_cycle as int, avail)
            &&& cfg.min_deprecate_per_cycle <= share <= cfg.max_deprecate_per_cycle ==> cap == min_count(share, avail)
        }),
{
    let total = s.scoped(ns, Scope::Live).len() as int;
    let bp = cfg.max_deprecate_basis_points as int;
    assert(total * bp >= 0) by (nonlinear_arith)
        requires
            total >= 0,
            bp >= 0,
    ;
}

/// A lifecycle cycle deprecates no more than `max_deprecate_per_cycle` memories, no more
/// than there are candidates, no more than `max_deprecate_basis_points` hundredths of a
/// percent of the live memories unless no more than `min_deprecate_per_cycle`, and, when the
/// bounds are ordered, at least `min_deprecate_per_cycle` of them (or all, when there are
/// fewer).
pub proof fn law_lifecycle_cap_bounds(s: StoreView, ns: Option<Seq<char>>, now: i64, cfg: LifecycleConfig)
    ensures
        ({
            let cap = lifecycle_cap(s, ns, cfg);
            let avail = lifecycle_candidates(s, ns, now, cfg).len() as int;
            let taken = lifecycle_deprecate_ids(s, ns, now, cfg).len() as int;
            &&& taken == min_count(cap, avail)
            &&& 0 <= taken <= avail
            &&& taken <= cfg.max_deprecate_per_cycle
            &&& taken * 10000 <= s.scoped(ns, Scope::Live).len() * cfg.max_deprecate_basis_points
                || taken <= cfg.min_deprecate_per_cycle
            &&& cfg.min_deprecate_per_cycle <= cfg.max_deprecate_per_cycle ==> taken >= min_count(cfg.min_deprecate_per_cycle as int, avail)
        }),
{
    let total = s.scoped(ns, Scope::Live).len() as int;
    let bp = cfg.max_deprecate_basis_points as int;
    assert(total * bp >= 0) by (nonlinear_arith)
        requires
            total >= 0,
            bp >= 0,
    ;
}

/// The aged memories are listed oldest first, and each of them is aged.
pub proof fn lemma_aged_listing(s: StoreView, ns: Option<Seq<char>>, now: i64, days: u32, max_access: u32)
    ensures
        forall|i: int, j: int| 0 <= i < j < s.aged(ns, now, days, max_access).len() ==>
            (#[trigger] s.aged(ns, now, days, max_access)[i]).created_at <= (#[trigger] s.aged(ns, now, days, max_access)[j]).created_at,
        forall|i: int| 0 <= i < s.aged(ns, now, days, max_access).len() ==> is_aged(#[trigger] s.aged(ns, now, days, max_access)[i], ns, now, days, max_access),
        forall|i: int| 0 <= i < s.aged(ns, now, days, max_access).len() ==> s.memories.contains(#[trigger] s.aged(ns, now, days, max_access)[i]),
{
    let sel = aged_pred(ns, now, days, max_access);
    lemma_oldest_first_exists(s.memories, sel);
    let ps = oldest_first(s.memories, sel);
    let aged = s.aged(ns, now, days, max_access);
    assert(lists_oldest_first(s.memories, sel, ps));
    assert forall|i: int, j: int| 0 <= i < j < aged.len() implies (#[trigger] aged[i]).created_at <= (#[trigger] aged[j]).created_at by {
        assert(older_first(s.memories)(ps[i], ps[j]));
        assert(aged[i] == s.memories[ps[i]]);
        assert(aged[j] == s.memories[ps[j]]);
    }
    assert forall|i: int| 0 <= i < aged.len() implies is_aged(#[trigger] aged[i], ns, now, days, max_access) by {
        assert(ps.contains(ps[i]));
        assert(s.memories[ps[i]] == aged[i]);
        assert(sel(s.memories[ps[i]]));
    }
    assert forall|i: int| 0 <= i < aged.len() implies s.memories.contains(#[trigger] aged[i]) by {
        assert(ps.contains(ps[i]));
        assert(s.memories[ps[i]] == aged[i]);
    }
}

/// A cleanup takes the oldest aged memories: each one it takes was created no later than
/// each aged memory it leaves, and each one it takes is aged (live, unpinned, old enough,
/// rarely accessed).
pub proof fn law_cleanup_takes_oldest(s: StoreView, ns: Option<Seq<char>>, now: i64, days: u32, max_access: u32, cfg: LifecycleConfig)
    ensures
        ({
            let aged = s.aged(ns, now, days, max_access);
            let cap = cleanup_cap(s, ns, now, days, max_access, cfg);
            &&& forall|i: int, j: int| 0 <= i < cap <= j < aged.len() ==> #[trigger] aged[i].created_at <= #[trigger] aged[j].created_at
            &&& forall|i: int| 0 <= i < cap ==> is_aged(#[trigger] aged[i], ns, now, days, max_access)
            &&& cleanup_ids(s, ns, now, days, max_access, cfg) == ids_of(aged.take(cap))
        }),
{
    lemma_aged_listing(s, ns, now, days, max_access);
    law_cleanup_cap_bounds(s, ns, now, days, max_access, cfg);
}

/// No id that aging takes (the first `n` aged memories) is the id of a pinned or a
/// deprecated memory.
proof fn lemma_taken_ids_spare(s: StoreView, ns: Option<Seq<char>>, now: i64, days: u32, max_access: u32, n: int, i: int)
    requires
        s.wf(),
        0 <= n <= s.aged(ns, now, days, max_access).len(),
        0 <= i < s.memories.len(),
        s.memories[i].pinned || s.memories[i].deprecated,
    ensures
        !ids_of(s.aged(ns, now, days, max_access).take(n)).contains(s.memories[i].id),
{
    lemma_aged_listing(s, ns, now, days, max_access);
    let aged = s.aged(ns, now, days, max_access);
    let ids = ids_of(aged.take(n));
    if ids.contains(s.memories[i].id) {
        let k = choose|k: int| 0 <= k < ids.len() && ids[k] == s.memories[i].id;
        assert(is_aged(aged[k], ns, now, days, max_access));
        assert(s.memories.contains(aged[k]));
        let p = choose|p: int| 0 <= p < s.memories.len() && s.memories[p] == aged[k];
        assert(s.memories[p].id == s.memories[i].id);
        assert(p == i);
    }
}

/// Aging cleanup never takes a pinned memory: whether it deprecates or deletes, each
/// pinned memory stays as it was.
pub proof fn law_cleanup_spares_pinned(s: StoreView, ns: Option<Seq<char>>, now: i64, days: u32, max_access: u32, cfg: LifecycleConfig, reason: Seq<char>, i: int)
    requires
        s.wf(),
        0 <= i < s.memories.len(),
        s.memories[i].pinned,
    ensures
        !cleanup_ids(s, ns, now, days, max_access, cfg).contains(s.memories[i].id),
        deprecate_listed(s.memories, cleanup_ids(s, ns, now, days, max_access, cfg), reason, now)[i] == s.memories[i],
        s.memories.filter(unlisted_pred(cleanup_ids(s, ns, now, days, max_access, cfg))).contains(s.memories[i]),
{
    law_cleanup_cap_bounds(s, ns, now, days, max_access, cfg);
    lemma_taken_ids_spare(s, ns, now, days, max_access, cleanup_cap(s, ns, now, days, max_access, cfg), i);
    let ids = cleanup_ids(s, ns, now, days, max_access, cfg);
    s.memories.lemma_filter_contains(unlisted_pred(ids), i);
}

/// The deprecate phase of a lifecycle cycle never touches a pinned memory.
pub proof fn law_lifecycle_spares_pinned(s: StoreView, ns: Option<Seq<char>>, now: i64, cfg: LifecycleConfig, reason: Seq<char>, i: int)
    requires
        s.wf(),
        0 <= i < s.memories.len(),
        s.memories[i].pinned,
    ensures
        !lifecycle_deprecate_ids(s, ns, now, cfg).contains(s.memories[i].id),
        deprecate_listed(s.memories, lifecycle_deprecate_ids(s, ns, now, cfg), reason, now)[i] == s.memories[i],
{
    law_lifecycle_cap_bounds(s, ns, now, cfg);
    let cands = lifecycle_candidates(s, ns, now, cfg);
    lemma_taken_ids_spare(
        s,
        ns,
        now,
        cfg.min_age_days,
        cfg.max_access_count,
        min_count(lifecycle_cap(s, ns, cfg), cands.len() as int),
        i,
    );
}

/// Soft deletion keeps every memory: the same number, in the same order, each with its
/// id, content, tags, metadata and vector; a listed live memory becomes deprecated with
/// the reason and time, and every other memory is unchanged. A deprecated memory is
/// thus hidden, not lost.
pub proof fn law_soft_delete_keeps_memories(ms: Seq<MemoryView>, ids: Seq<Seq<char>>, reason: Seq<char>, now: i64)
    ensures
        ({
            let r = deprecate_listed(ms, ids, reason, now);
            &&& r.len() == ms.len()
            &&& forall|i: int| 0 <= i < ms.len() ==> {
                &&& (#[trigger] r[i]).id == ms[i].id
                &&& r[i].content == ms[i].content
                &&& r[i].tags == ms[i].tags
                &&& r[i].metadata == ms[i].metadata
                &&& r[i].embedding == ms[i].embedding
                &&& r[i].namespace == ms[i].namespace
                &&& (ids.contains(ms[i].id) && !ms[i].deprecated) ==> r[i].deprecated && r[i].deprecate_reason == Some(reason)
                    && r[i].updated_at == now
                &&& !(ids.contains(ms[i].id) && !ms[i].deprecated) ==> r[i] == ms[i]
            }
        }),
{
}

/// Pruning deletes only deprecated memories: every live memory is still stored after it.
pub proof fn law_prune_spares_live(s: StoreView, ns: Option<Seq<char>>, now: i64, ttl_days: u32, i: int)
    requires
        s.wf(),
        0 <= i < s.memories.len(),
        !s.memories[i].deprecated,
    ensures
        !ids_of(s.expired(ns, now, ttl_days)).contains(s.memories[i].id),
        s.memories.filter(unlisted_pred(ids_of(s.expired(ns, now, ttl_days)))).contains(s.memories[i]),
{
    let exp = s.expired(ns, now, ttl_days);
    let ids = ids_of(exp);
    let pred = expired_pred(ns, now, ttl_days);
    if ids.contains(s.memories[i].id) {
        let k = choose|k: int| 0 <= k < ids.len() && ids[k] == s.memories[i].id;
        s.memories.lemma_filter_pred(pred, k);
        assert(exp.contains(exp[k]));
        s.memories.lemma_filter_contains_rev(pred, exp[k]);
        let p = choose|p: int| 0 <= p < s.memories.len() && s.memories[p] == exp[k];
        assert(s.memories[p].deprecated);
        assert(p != i);
        assert(s.memories[p].id == s.memories[i].id);
    }
    s.memories.lemma_filter_contains(unlisted_pred(ids), i);
}

proof fn lemma_nothing_expired_after_prune(ms: Seq<MemoryView>, ns: Option<Seq<char>>, now: i64, ttl_days: u32)
    ensures
        ms.filter(unlisted_pred(ids_of(ms.filter(expired_pred(ns, now, ttl_days))))).filter(
            expired_pred(ns, now, ttl_days),
        ).len() == 0,
{
    let pred = expired_pred(ns, now, ttl_days);
    let exp = ms.filter(pred);
    let ids = ids_of(exp);
    let m1 = ms.filter(unlisted_pred(ids));
    if m1.filter(pred).len() > 0 {
        let x = m1.filter(pred)[0];
        m1.lemma_filter_pred(pred, 0);
        assert(m1.filter(pred).contains(x));
        m1.lemma_filter_contains_rev(pred, x);
        assert(m1.contains(x));
        ms.lemma_filter_contains_rev(unlisted_pred(ids), x);
        let p = choose|p: int| 0 <= p < ms.len() && ms[p] == x;
        ms.lemma_filter_contains(pred, p);
        let k = choose|k: int| 0 <= k < exp.len() && exp[k] == x;
        assert(ids[k] == x.id);
        assert(ids.contains(x.id));
    }
}

/// A dry-run prune changes nothing and lists exactly the memories that a real prune at
/// the same instant deletes.
pub proof fn law_prune_dry_run_previews(
    u0: Uteke,
    dry: Uteke,
    r_dry: Result<PruneResult, Error>,
    done: Uteke,
    r_done: Result<PruneResult, Error>,
    ttl_days: u32,
    ns: Option<Seq<char>>,
    now: i64,
)
    requires
        prune_done(u0, dry, r_dry, ttl_days, ns, true, now),
        prune_done(u0, done, r_done, ttl_days, ns, false, now),
    ensures
        dry.store@ == u0.store@,
        dry.index@ == u0.index@,
        r_dry->Ok_0.pruned == 0,
        r_dry->Ok_0.deprecated == r_done->Ok_0.deprecated,
        strs_view(r_dry->Ok_0.deprecated_ids@) == strs_view(r_done->Ok_0.ids@),
{
    let exp = u0.store@.expired(ns, now, ttl_days);
    if exp.len() == 0 {
        assert(strs_view(r_done->Ok_0.ids@) =~= ids_of(exp));
    }
}

/// Pruning again at the same instant finds nothing more to prune and changes nothing.
pub proof fn law_prune_twice(
    u0: Uteke,
    u1: Uteke,
    r1: Result<PruneResult, Error>,
    u2: Uteke,
    r2: Result<PruneResult, Error>,
    ttl_days: u32,
    ns: Option<Seq<char>>,
    now: i64,
)
    requires
        prune_done(u0, u1, r1, ttl_days, ns, false, now),
        prune_done(u1, u2, r2, ttl_days, ns, false, now),
    ensures
        r2->Ok_0.deprecated == 0,
        r2->Ok_0.pruned == 0,
        u2.store@ == u1.store@,
        u2.index@ == u1.index@,
{
    lemma_nothing_expired_after_prune(u0.store@.memories, ns, now, ttl_days);
}

proof fn lemma_split_append(a: Seq<char>, b: Seq<char>)
    requires
        !b.contains('\n'),
    ensures
        split_state(a + b) == (split_state(a).0, split_state(a).1 + b),
    decreases b.len(),
{
    if b.len() == 0 {
        assert(a + b =~= a);
        assert(split_state(a).1 + b =~= split_state(a).1);
    } else {
        let c = b.last();
        let b2 = b.drop_last();
        assert(!b2.contains('\n')) by {
            if b2.contains('\n') {
                let k = choose|k: int| 0 <= k < b2.len() && b2[k] == '\n';
                assert(b[k] == '\n');
            }
        }
        lemma_split_append(a, b2);
        assert((a + b).drop_last() =~= a + b2);
        assert(c != '\n') by {
            assert(b[b.len() - 1] == c);
        }
        assert(split_state(a).1 + b =~= (split_state(a).1 + b2).push(c));
    }
}

proof fn lemma_split_joined(ls: Seq<Seq<char>>)
    requires
        ls.len() > 0,
        forall|i: int| 0 <= i < ls.len() ==> !(#[trigger] ls[i]).contains('\n'),
    ensures
        split_state(joined(ls)) == (ls.drop_last(), ls.last()),
    decreases ls.len(),
{
    if ls.len() == 1 {
        lemma_split_append(Seq::empty(), ls[0]);
        assert(Seq::<char>::empty() + ls[0] =~= ls[0]);
        assert(split_state(Seq::<char>::empty()) == (Seq::<Seq<char>>::empty(), Seq::<char>::empty()));
        assert(Seq::<char>::empty() + ls[0] =~= ls[0]);
        assert(ls.drop_last() =~= Seq::<Seq<char>>::empty());
    } else {
        let prev = ls.drop_last();
        lemma_split_joined(prev);
        let j = joined(prev);
        let jn = j + seq!['\n'];
        assert(jn.drop_last() =~= j);
        assert(split_state(jn) == (prev.drop_last().push(prev.last()), Seq::<char>::empty()));
        assert(prev.drop_last().push(prev.last()) =~= prev);
        lemma_split_append(jn, ls.last());
        assert(Seq::<char>::empty() + ls.last() =~= ls.last());
        assert(joined(ls) == jn + ls.last());
    }
}

proof fn lemma_records_of_clean(ls: Seq<Seq<char>>)
    requires
        forall|i: int| 0 <= i < ls.len() ==> (#[trigger] ls[i]).len() > 0 && trimmed(ls[i]) == ls[i],
    ensures
        records_of(ls) == ls,
    decreases ls.len(),
{
    if ls.len() > 0 {
        lemma_records_of_clean(ls.drop_last());
        assert(ls.drop_last().push(ls.last()) =~= ls);
    }
}

/// Every live memory of a namespace is in exactly one tier: the hot, warm and cold
/// counts add up to the live count.
pub proof fn law_tiers_partition_live(s: StoreView, ns: Option<Seq<char>>, now: i64, hot_days: u32, warm_days: u32)
    ensures
        s.tiered(ns, now, hot_days, warm_days, Tier::Hot).len() + s.tiered(ns, now, hot_days, warm_days, Tier::Warm).len()
            + s.tiered(ns, now, hot_days, warm_days, Tier::Cold).len() == s.scoped(ns, Scope::Live).len(),
{
    lemma_tiers_partition(s.memories, ns, now, hot_days, warm_days);
}

proof fn lemma_tiers_partition(ms: Seq<MemoryView>, ns: Option<Seq<char>>, now: i64, hot_days: u32, warm_days: u32)
    ensures
        ms.filter(tier_pred(ns, now, hot_days, warm_days, Tier::Hot)).len() + ms.filter(tier_pred(ns, now, hot_days, warm_days, Tier::Warm)).len()
            + ms.filter(tier_pred(ns, now, hot_days, warm_days, Tier::Cold)).len() == ms.filter(scope_pred(ns, Scope::Live)).len(),
    decreases ms.len(),
{
    if ms.len() > 0 {
        let prev = ms.drop_last();
        lemma_tiers_partition(prev, ns, now, hot_days, warm_days);
        assert(prev.push(ms.last()) =~= ms);
        prev.lemma_filter_push(ms.last(), tier_pred(ns, now, hot_days, warm_days, Tier::Hot));
        prev.lemma_filter_push(ms.last(), tier_pred(ns, now, hot_days, warm_days, Tier::Warm));
        prev.lemma_filter_push(ms.last(), tier_pred(ns, now, hot_days, warm_days, Tier::Cold));
        prev.lemma_filter_push(ms.last(), scope_pred(ns, Scope::Live));
    } else {
        reveal_with_fuel(Seq::filter, 1);
    }
}

/// Lines that are not blank, hold no line feed and have no white space at either end
/// come back unchanged when they are joined with line feeds (as an export writes them)
/// and read back as JSON Lines (as an import reads them).
pub proof fn law_jsonl_round_trip(ls: Seq<Seq<char>>)
    requires
        forall|i: int| 0 <= i < ls.len() ==> (#[trigger] ls[i]).len() > 0 && trimmed(ls[i]) == ls[i] && !ls[i].contains('\n'),
    ensures
        jsonl_records(joined(ls)) == ls,
{
    if ls.len() == 0 {
        assert(split_state(Seq::<char>::empty()) == (Seq::<Seq<char>>::empty(), Seq::<char>::empty()));
        let lines = split_lines(joined(ls));
        assert(lines =~= seq![Seq::<char>::empty()]);
        assert(lines.drop_last() =~= Seq::<Seq<char>>::empty());
        assert(crate::text::trim_start(Seq::<char>::empty()) == Seq::<char>::empty());
        assert(crate::text::trim_end(Seq::<char>::empty()) == Seq::<char>::empty());
        assert(trimmed(Seq::<char>::empty()) == Seq::<char>::empty());
        assert(records_of(lines.drop_last()) == Seq::<Seq<char>>::empty());
        assert(records_of(lines) == records_of(lines.drop_last()));
        assert(ls =~= Seq::<Seq<char>>::empty());
    } else {
        lemma_split_joined(ls);
        assert(split_lines(joined(ls)) =~= ls);
        lemma_records_of_clean(ls);
    }
}

} // verus!
