//! Aging cleanup, pruning of deprecated memories, and the lifecycle cycle.

use vstd::prelude::*;

use crate::cache::other_namespace;
use crate::clock::now_millis;
use crate::engine::{LifecycleConfig, Uteke};
use crate::index::{unlisted_key, EntryView};
use crate::reports::{CleanupResult, LifecycleCycleResult, PruneResult};
use crate::store::{
    deprecate_listed, expired_pred, listed_live_pred, ns_view, unlisted_pred, Scope, StoreView,
};
use crate::text::{append_str, decimal, push_decimal};
use crate::types::{strs_view, Error, Memory, MemoryView};

verus! {

broadcast use vstd::seq_lib::group_seq_properties;

/// `raw`, raised to `lo`, then lowered to `hi` (`raw.max(lo).min(hi)`).
pub open spec fn clamp_count(raw: int, lo: int, hi: int) -> int {
    let a = if raw >= lo { raw } else { lo };
    if a <= hi { a } else { hi }
}

/// `basis_points` hundredths of a percent of `total`, rounded down.
pub open spec fn floored_share(total: int, basis_points: int) -> int {
    (total * basis_points) / 10000
}

/// The smaller of two counts.
pub open spec fn min_count(a: int, b: int) -> int {
    if a <= b { a } else { b }
}

/// The ids of memories, in order.
pub open spec fn ids_of(ms: Seq<MemoryView>) -> Seq<Seq<char>> {
    ms.map_values(|m: MemoryView| m.id)
}

/// The reason recorded on memories that aging cleanup deprecates.
pub open spec fn aging_reason(days: u32, max_access: u32) -> Seq<char> {
    "auto-aging: older than "@ + decimal(days as nat) + " days, access count ≤ "@ + decimal(max_access as nat)
}

/// The reason recorded on memories that the lifecycle cycle deprecates.
pub open spec fn lifecycle_reason() -> Seq<char> {
    "lifecycle_cycle: aged memory (auto-deprecate)"@
}

/// How many aged memories one cleanup may take: the share (rounded down) of all memories
/// of the namespace, clamped to the configured bounds, and no more than there are.
pub open spec fn cleanup_cap(
    s: StoreView,
    ns: Option<Seq<char>>,
    now: i64,
    days: u32,
    max_access: u32,
    cfg: LifecycleConfig,
) -> int {
    min_count(
        clamp_count(
            floored_share(s.scoped(ns, Scope::Live).len() as int, cfg.max_deprecate_basis_points as int),
            cfg.min_deprecate_per_cycle as int,
            cfg.max_deprecate_per_cycle as int,
        ),
        s.aged(ns, now, days, max_access).len() as int,
    )
}

/// The ids that one cleanup takes: the oldest aged memories, up to the cap.
pub open spec fn cleanup_ids(
    s: StoreView,
    ns: Option<Seq<char>>,
    now: i64,
    days: u32,
    max_access: u32,
    cfg: LifecycleConfig,
) -> Seq<Seq<char>> {
    ids_of(s.aged(ns, now, days, max_access).take(cleanup_cap(s, ns, now, days, max_access, cfg)))
}

/// The cap of one lifecycle cycle: the share (rounded down) of the live memories of the
/// namespace, clamped to the configured bounds.
pub open spec fn lifecycle_cap(s: StoreView, ns: Option<Seq<char>>, cfg: LifecycleConfig) -> int {
    clamp_count(
        floored_share(s.scoped(ns, Scope::Live).len() as int, cfg.max_deprecate_basis_points as int),
        cfg.min_deprecate_per_cycle as int,
        cfg.max_deprecate_per_cycle as int,
    )
}

/// The candidates of one lifecycle cycle, oldest first.
pub open spec fn lifecycle_candidates(s: StoreView, ns: Option<Seq<char>>, now: i64, cfg: LifecycleConfig) -> Seq<MemoryView> {
    s.aged(ns, now, cfg.min_age_days, cfg.max_access_count)
}

/// The ids that one lifecycle cycle deprecates: the oldest candidates, up to the cap.
pub open spec fn lifecycle_deprecate_ids(s: StoreView, ns: Option<Seq<char>>, now: i64, cfg: LifecycleConfig) -> Seq<Seq<char>> {
    ids_of(
        lifecycle_candidates(s, ns, now, cfg).take(
            min_count(lifecycle_cap(s, ns, cfg), lifecycle_candidates(s, ns, now, cfg).len() as int),
        ),
    )
}

/// The memories after the deprecate phase of a lifecycle cycle.
pub open spec fn lifecycle_phase1(s: StoreView, ns: Option<Seq<char>>, now: i64, cfg: LifecycleConfig) -> Seq<MemoryView> {
    let ids = lifecycle_deprecate_ids(s, ns, now, cfg);
    if ids.len() > 0 {
        deprecate_listed(s.memories, ids, lifecycle_reason(), now)
    } else {
        s.memories
    }
}

/// The ids that the prune phase of a lifecycle cycle deletes.
pub open spec fn lifecycle_prune_ids(s: StoreView, ns: Option<Seq<char>>, now: i64, cfg: LifecycleConfig) -> Seq<Seq<char>> {
    if cfg.auto_prune_enabled {
        ids_of(lifecycle_phase1(s, ns, now, cfg).filter(expired_pred(ns, now, cfg.deprecated_ttl_days)))
    } else {
        Seq::empty()
    }
}

/// The entries left after removing the listed keys, when there are any.
pub open spec fn drop_keys(es: Seq<EntryView>, ids: Seq<Seq<char>>) -> Seq<EntryView> {
    if ids.len() > 0 {
        es.filter(unlisted_key(ids))
    } else {
        es
    }
}

/// The memories left after deleting the listed ids, when there are any.
pub open spec fn drop_ids(ms: Seq<MemoryView>, ids: Seq<Seq<char>>) -> Seq<MemoryView> {
    if ids.len() > 0 {
        ms.filter(unlisted_pred(ids))
    } else {
        ms
    }
}

/// What a cleanup at `now` did: `before` and `after` are the engine before and after it.
pub open spec fn cleanup_done(
    before: Uteke,
    after: Uteke,
    r: Result<CleanupResult, Error>,
    days: u32,
    max_access: u32,
    ns: Option<Seq<char>>,
    now: i64,
) -> bool {
    let ids = cleanup_ids(before.store@, ns, now, days, max_access, before.lifecycle_config);
    &&& r is Ok
    &&& after.store@.chunks == before.store@.chunks
    &&& after.recall_cache@ == before.recall_cache@
    &&& after.tier_config == before.tier_config
    &&& after.lifecycle_config == before.lifecycle_config
    &&& ids.len() == 0 ==> after.store@ == before.store@ && after.index@ == before.index@ && r->Ok_0.deleted == 0
    &&& ids.len() > 0 && before.lifecycle_config.soft_delete_only ==> after.store@.memories == deprecate_listed(
        before.store@.memories,
        ids,
        aging_reason(days, max_access),
        now,
    ) && r->Ok_0.deleted == before.store@.memories.filter(listed_live_pred(ids)).len()
    &&& ids.len() > 0 && !before.lifecycle_config.soft_delete_only ==> after.store@.memories
        == before.store@.memories.filter(unlisted_pred(ids)) && r->Ok_0.deleted == before.store@.memories.len()
        - after.store@.memories.len()
    &&& ids.len() > 0 ==> after.index@.entries == before.index@.entries.filter(unlisted_key(ids))
        && after.index@.persisted == after.index@.entries && !after.index@.dirty
}

/// What a prune at `now` did.
pub open spec fn prune_done(
    before: Uteke,
    after: Uteke,
    r: Result<PruneResult, Error>,
    ttl_days: u32,
    ns: Option<Seq<char>>,
    dry_run: bool,
    now: i64,
) -> bool {
    let exp = before.store@.expired(ns, now, ttl_days);
    let ids = ids_of(exp);
    &&& r is Ok
    &&& after.store@.chunks == before.store@.chunks
    &&& after.recall_cache@ == before.recall_cache@
    &&& after.tier_config == before.tier_config
    &&& after.lifecycle_config == before.lifecycle_config
    &&& r->Ok_0.deprecated == exp.len()
    &&& strs_view(r->Ok_0.deprecated_ids@) == ids
    &&& (dry_run || exp.len() == 0) ==> after.store@ == before.store@ && after.index@ == before.index@
        && r->Ok_0.pruned == 0 && r->Ok_0.ids@.len() == 0
    &&& !(dry_run || exp.len() == 0) ==> after.store@.memories == before.store@.memories.filter(unlisted_pred(ids))
        && r->Ok_0.pruned == before.store@.memories.len() - after.store@.memories.len()
        && strs_view(r->Ok_0.ids@) == ids
        && after.index@.entries == before.index@.entries.filter(unlisted_key(ids))
        && after.index@.persisted == after.index@.entries && !after.index@.dirty
}

/// What a lifecycle cycle at `now` did.
pub open spec fn lifecycle_done(
    before: Uteke,
    after: Uteke,
    r: Result<LifecycleCycleResult, Error>,
    ns: Option<Seq<char>>,
    now: i64,
) -> bool {
    let cfg = before.lifecycle_config;
    let s = before.store@;
    let dep = lifecycle_deprecate_ids(s, ns, now, cfg);
    let pr = lifecycle_prune_ids(s, ns, now, cfg);
    let m1 = lifecycle_phase1(s, ns, now, cfg);
    &&& r is Ok
    &&& r->Ok_0.total_active == s.scoped(ns, Scope::Live).len()
    &&& r->Ok_0.candidates == lifecycle_candidates(s, ns, now, cfg).len()
    &&& r->Ok_0.cap == lifecycle_cap(s, ns, cfg)
    &&& strs_view(r->Ok_0.deprecated_ids@) == dep
    &&& r->Ok_0.deprecated == (if dep.len() > 0 { s.memories.filter(listed_live_pred(dep)).len() } else { 0 })
    &&& strs_view(r->Ok_0.pruned_ids@) == pr
    &&& after.store@.memories == drop_ids(m1, pr)
    &&& r->Ok_0.pruned == m1.len() - after.store@.memories.len()
    &&& after.store@.chunks == s.chunks
    &&& after.index@.entries == drop_keys(drop_keys(before.index@.entries, dep), pr)
    &&& (dep.len() > 0 || pr.len() > 0) ==> after.index@.persisted == after.index@.entries && !after.index@.dirty
    &&& (dep.len() == 0 && pr.len() == 0) ==> after.index@ == before.index@
    &&& after.recall_cache@.entries == match ns {
        Some(n) => before.recall_cache@.entries.filter(other_namespace(n)),
        None => Seq::empty(),
    }
    &&& after.recall_cache@.hits == before.recall_cache@.hits
    &&& after.recall_cache@.misses == before.recall_cache@.misses
    &&& after.tier_config == before.tier_config
    &&& after.lifecycle_config == before.lifecycle_config
}

/// `numerator / 10000`, raised to `lo`, then lowered to `hi`.
fn clamp_share(numerator: u128, lo: usize, hi: usize) -> (r: usize)
    ensures
        r as int == clamp_count(numerator as int / 10000, lo as int, hi as int),
{
    let raw = numerator / 10000;
    let a: u128 = if raw >= lo as u128 { raw } else { lo as u128 };
    if a <= hi as u128 { a as usize } else { hi }
}

/// `total * basis_points`, which fits in a `u128`.
fn share_numerator(total: usize, basis_points: u32) -> (r: u128)
    ensures
        r as int == total as int * basis_points as int,
        r <= 0xffff_ffff_ffff_ffffu128 * 0xffff_ffffu128,
{
    let t = total as u128;
    let b = basis_points as u128;
    assert(t * b <= 0xffff_ffff_ffff_ffffu128 * 0xffff_ffffu128) by (nonlinear_arith)
        requires
            t <= 0xffff_ffff_ffff_ffffu128,
            b <= 0xffff_ffffu128,
    ;
    t * b
}

/// The ids of the first `n` memories.
fn first_ids(ms: &Vec<Memory>, n: usize) -> (r: Vec<String>)
    requires
        n <= ms@.len(),
    ensures
        strs_view(r@) == ids_of(ms@.map_values(|m: Memory| m@).take(n as int)),
{
    let ghost mv = ms@.map_values(|m: Memory| m@);
    let mut r: Vec<String> = Vec::new();
    for k in 0..n
        invariant
            n <= ms@.len(),
            mv == ms@.map_values(|m: Memory| m@),
            r@.len() == k,
            forall|a: int| 0 <= a < k ==> (#[trigger] r@[a])@ == mv[a].id,
    {
        r.push(ms[k].id.clone());
    }
    assert(strs_view(r@) =~= ids_of(mv.take(n as int)));
    r
}

/// The ids of all the memories.
fn all_ids(ms: &Vec<Memory>) -> (r: Vec<String>)
    ensures
        strs_view(r@) == ids_of(ms@.map_values(|m: Memory| m@)),
{
    let r = first_ids(ms, ms.len());
    assert(ms@.map_values(|m: Memory| m@).take(ms@.len() as int) =~= ms@.map_values(|m: Memory| m@));
    r
}

/// The cleanup reason as a string.
fn aging_reason_string(days: u32, max_access: u32) -> (r: String)
    ensures
        r@ == aging_reason(days, max_access),
{
    let mut r = String::from_str("auto-aging: older than ");
    push_decimal(&mut r, days as u64);
    append_str(&mut r, " days, access count ≤ ");
    push_decimal(&mut r, max_access as u64);
    r
}

impl Uteke {
    /// Cleans up aged memories at `now`: takes the oldest of them up to the cap
    /// (`max_deprecate_basis_points` of all memories of the namespace, rounded down, clamped to
    /// `[min_deprecate_per_cycle, max_deprecate_per_cycle]`), then deprecates them when
    /// `soft_delete_only` is set and deletes them otherwise, and in both cases removes them
    /// from the index and saves it.
    pub fn aging_cleanup_at(&mut self, older_than_days: u32, max_access_count: u32, namespace: Option<&str>, now: i64)
        -> (r: Result<CleanupResult, Error>)
        requires
            old(self).wf(),
        ensures
            final(self).wf(),
            cleanup_done(*old(self), *final(self), r, older_than_days, max_access_count, ns_view(namespace), now),
    {
        let ghost s0 = self.store@;
        let ghost nsv = ns_view(namespace);
        let aged = self.store.find_aged(older_than_days, max_access_count, namespace, now);
        let ghost agedv = s0.aged(nsv, now, older_than_days, max_access_count);
        if aged.len() == 0 {
            assert(agedv.take(0) =~= Seq::<MemoryView>::empty());
            assert(cleanup_ids(s0, nsv, now, older_than_days, max_access_count, self.lifecycle_config) =~= Seq::<Seq<char>>::empty());
            return Ok(CleanupResult { deleted: 0 });
        }
        let total = self.store.count(namespace);
        let lc = self.lifecycle_config;
        let pct_cap = clamp_share(
            share_numerator(total, lc.max_deprecate_basis_points),
            lc.min_deprecate_per_cycle,
            lc.max_deprecate_per_cycle,
        );
        let cap = if pct_cap <= aged.len() { pct_cap } else { aged.len() };
        let ids = first_ids(&aged, cap);
        let ghost idv = strs_view(ids@);
        assert(idv == cleanup_ids(s0, nsv, now, older_than_days, max_access_count, lc));
        if ids.len() == 0 {
            assert(idv.len() == 0);
            return Ok(CleanupResult { deleted: 0 });
        }
        if lc.soft_delete_only {
            let reason = aging_reason_string(older_than_days, max_access_count);
            let deprecated = self.store.deprecate_by_ids(&ids, reason.as_str(), now);
            self.index.remove_all(&ids);
            self.index.save();
            Ok(CleanupResult { deleted: deprecated })
        } else {
            let deleted = self.store.delete_by_ids(&ids);
            self.index.remove_all(&ids);
            self.index.save();
            Ok(CleanupResult { deleted })
        }
    }

    /// Deletes the deprecated memories of the namespace whose deprecation is older than
    /// `ttl_days` at `now`, from the store and from the index; a dry run only lists them.
    pub fn prune_at(&mut self, ttl_days: u32, namespace: Option<&str>, dry_run: bool, now: i64)
        -> (r: Result<PruneResult, Error>)
        requires
            old(self).wf(),
        ensures
            final(self).wf(),
            prune_done(*old(self), *final(self), r, ttl_days, ns_view(namespace), dry_run, now),
    {
        let deprecated = self.store.find_deprecated_for_prune(ttl_days, namespace, now);
        let ids = all_ids(&deprecated);
        let count = ids.len();
        let ghost exp = old(self).store@.expired(ns_view(namespace), now, ttl_days);
        assert(strs_view(ids@) == ids_of(exp));
        assert(strs_view(ids@).len() == ids@.len());
        assert(ids_of(exp).len() == exp.len());
        if dry_run || count == 0 {
            return Ok(PruneResult { pruned: 0, ids: Vec::new(), deprecated: count, deprecated_ids: ids });
        }
        let pruned = self.store.delete_by_ids(&ids);
        self.index.remove_all(&ids);
        self.index.save();
        let listed = crate::types::clone_strings(&ids);
        assert(strs_view(listed@) == ids_of(exp));
        Ok(PruneResult { pruned, ids: listed, deprecated: count, deprecated_ids: ids })
    }

    /// Deletes the deprecated memories past their time to live, now (see [`Uteke::prune_at`]).
    pub fn prune(&mut self, ttl_days: u32, namespace: Option<&str>, dry_run: bool) -> (r: Result<PruneResult, Error>)
        requires
            old(self).wf(),
        ensures
            final(self).wf(),
            exists|now: i64| now >= 0 && #[trigger] prune_done(*old(self), *final(self), r, ttl_days, ns_view(namespace), dry_run, now),
    {
        let now = now_millis();
        self.prune_at(ttl_days, namespace, dry_run, now)
    }

    /// One lifecycle cycle at `now`. First it deprecates the oldest aged memories (by
    /// `min_age_days` and `max_access_count`), at most the cap (`max_deprecate_basis_points`
    /// of the live memories, rounded down, clamped to `[min_deprecate_per_cycle,
    /// max_deprecate_per_cycle]`), removes them from the index and saves it; it drops the
    /// cached recalls of the namespace (all of them without one); then, when
    /// `auto_prune_enabled` is set, it deletes the deprecated memories past
    /// `deprecated_ttl_days` from the store and the index.
    pub fn lifecycle_cycle_at(&mut self, namespace: Option<&str>, now: i64) -> (r: Result<LifecycleCycleResult, Error>)
        requires
            old(self).wf(),
        ensures
            final(self).wf(),
            lifecycle_done(*old(self), *final(self), r, ns_view(namespace), now),
    {
        let cfg = self.lifecycle_config;
        let ghost s0 = self.store@;
        let ghost nsv = ns_view(namespace);
        let total_active = self.store.count_active(namespace);
        let candidates = self.store.find_aged(cfg.min_age_days, cfg.max_access_count, namespace, now);
        let cap = clamp_share(
            share_numerator(total_active, cfg.max_deprecate_basis_points),
            cfg.min_deprecate_per_cycle,
            cfg.max_deprecate_per_cycle,
        );
        let take = if cap <= candidates.len() { cap } else { candidates.len() };
        let to_deprecate = first_ids(&candidates, take);
        assert(strs_view(to_deprecate@) == lifecycle_deprecate_ids(s0, nsv, now, cfg));
        let deprecated_ids = crate::types::clone_strings(&to_deprecate);
        let deprecated_count = if to_deprecate.len() > 0 {
            self.store.deprecate_by_ids(&to_deprecate, "lifecycle_cycle: aged memory (auto-deprecate)", now)
        } else {
            0
        };
        if to_deprecate.len() > 0 {
            self.index.remove_all(&to_deprecate);
            self.index.save();
        }
        assert(self.store@.memories == lifecycle_phase1(s0, nsv, now, cfg));
        match namespace {
            Some(ns) => self.recall_cache.invalidate_namespace(ns),
            None => self.recall_cache.clear(),
        }
        let ghost idx1 = self.index@;
        let (pruned, pruned_ids) = if cfg.auto_prune_enabled {
            let expired = self.store.find_deprecated_for_prune(cfg.deprecated_ttl_days, namespace, now);
            let expired_ids = all_ids(&expired);
            assert(strs_view(expired_ids@) == lifecycle_prune_ids(s0, nsv, now, cfg));
            if expired_ids.len() == 0 {
                (0, Vec::new())
            } else {
                let c = self.store.delete_by_ids(&expired_ids);
                self.index.remove_all(&expired_ids);
                self.index.save();
                (c, expired_ids)
            }
        } else {
            (0, Vec::new())
        };
        assert(strs_view(pruned_ids@) == lifecycle_prune_ids(s0, nsv, now, cfg));
        Ok(LifecycleCycleResult {
            total_active,
            candidates: candidates.len(),
            cap,
            deprecated: deprecated_count,
            deprecated_ids,
            pruned,
            pruned_ids,
        })
    }

    /// One lifecycle cycle, now (see [`Uteke::lifecycle_cycle_at`]).
    pub fn lifecycle_cycle(&mut self, namespace: Option<&str>) -> (r: Result<LifecycleCycleResult, Error>)
        requires
            old(self).wf(),
        ensures
            final(self).wf(),
            exists|now: i64| now >= 0 && #[trigger] lifecycle_done(*old(self), *final(self), r, ns_view(namespace), now),
    {
        let now = now_millis();
        self.lifecycle_cycle_at(namespace, now)
    }

    /// Cleans up aged memories now (see [`Uteke::aging_cleanup_at`]).
    pub fn aging_cleanup(&mut self, older_than_days: u32, max_access_count: u32, namespace: Option<&str>)
        -> (r: Result<CleanupResult, Error>)
        requires
            old(self).wf(),
        ensures
            final(self).wf(),
            exists|now: i64| now >= 0 && #[trigger] cleanup_done(*old(self), *final(self), r, older_than_days, max_access_count, ns_view(namespace), now),
    {
        let now = now_millis();
        self.aging_cleanup_at(older_than_days, max_access_count, namespace, now)
    }
}

} // verus!
