//! The memory store: the memories and document chunk embeddings, and the queries
//! that maintenance runs on them.

use vstd::prelude::*;

use crate::order::{lemma_insert_sorted, lemma_sorted_unique, sorted_by, strict_total};
use crate::types::{opt_str_view, strs_view, ChunkView, DocChunk, Error, Memory, MemoryView, DAY_MS};

verus! {

broadcast use vstd::seq_lib::group_seq_properties;

/// The view of an optional namespace filter.
pub open spec fn ns_view(ns: Option<&str>) -> Option<Seq<char>> {
    match ns {
        Some(s) => Some(s@),
        None => None,
    }
}

/// A memory is in the namespace filter: any namespace when there is none.
pub open spec fn ns_matches(m: MemoryView, ns: Option<Seq<char>>) -> bool {
    match ns {
        Some(n) => m.namespace == n,
        None => true,
    }
}

/// The first instant that is not older than `days` days before `now`.
pub open spec fn cutoff(now: i64, days: u32) -> int {
    now as int - days as int * DAY_MS as int
}

/// Which memories of a namespace a query counts.
#[derive(Clone, Copy, Debug, PartialEq, Eq)]
pub enum Scope {
    /// Memories that are not deprecated.
    Live,
    /// Deprecated (soft-deleted) memories.
    Deprecated,
    /// Live memories that are pinned.
    Pinned,
    /// Live memories that were never accessed.
    NeverAccessed,
}

/// A memory is in the namespace filter and in the scope.
pub open spec fn in_scope(m: MemoryView, ns: Option<Seq<char>>, scope: Scope) -> bool {
    ns_matches(m, ns) && match scope {
        Scope::Live => !m.deprecated,
        Scope::Deprecated => m.deprecated,
        Scope::Pinned => !m.deprecated && m.pinned,
        Scope::NeverAccessed => !m.deprecated && m.access_count == 0,
    }
}

/// `in_scope` as a predicate.
pub open spec fn scope_pred(ns: Option<Seq<char>>, scope: Scope) -> spec_fn(MemoryView) -> bool {
    |m: MemoryView| in_scope(m, ns, scope)
}

/// The time of a memory's last activity: its last access, else its creation.
pub open spec fn last_activity(m: MemoryView) -> i64 {
    match m.last_accessed {
        Some(t) => t,
        None => m.created_at,
    }
}

/// The access tier of a live memory, by last activity: hot within `hot_days`, warm
/// within `warm_days`, cold otherwise.
#[derive(Clone, Copy, Debug, PartialEq, Eq)]
pub enum Tier {
    Hot,
    Warm,
    Cold,
}

pub open spec fn tier_of(m: MemoryView, now: i64, hot_days: u32, warm_days: u32) -> Tier {
    if last_activity(m) as int >= cutoff(now, hot_days) {
        Tier::Hot
    } else if last_activity(m) as int >= cutoff(now, warm_days) {
        Tier::Warm
    } else {
        Tier::Cold
    }
}

/// A live memory of the namespace in the given tier.
pub open spec fn tier_pred(ns: Option<Seq<char>>, now: i64, hot_days: u32, warm_days: u32, tier: Tier)
    -> spec_fn(MemoryView) -> bool {
    |m: MemoryView| in_scope(m, ns, Scope::Live) && tier_of(m, now, hot_days, warm_days) == tier
}

/// A memory that aging may clean up: live, in the namespace, not pinned, created more
/// than `days` days before `now`, and accessed at most `max_access` times.
pub open spec fn is_aged(m: MemoryView, ns: Option<Seq<char>>, now: i64, days: u32, max_access: u32) -> bool {
    &&& in_scope(m, ns, Scope::Live)
    &&& !m.pinned
    &&& (m.created_at as int) < cutoff(now, days)
    &&& m.access_count <= max_access
}

/// `is_aged` as a predicate.
pub open spec fn aged_pred(ns: Option<Seq<char>>, now: i64, days: u32, max_access: u32) -> spec_fn(MemoryView) -> bool {
    |m: MemoryView| is_aged(m, ns, now, days, max_access)
}

/// Position `p` comes before position `q`: its memory is older, or as old and stored earlier.
pub open spec fn older_first(ms: Seq<MemoryView>) -> spec_fn(int, int) -> bool {
    |p: int, q: int| ms[p].created_at < ms[q].created_at || (ms[p].created_at == ms[q].created_at && p < q)
}

/// `ps` lists exactly the positions whose memory satisfies `sel`, oldest first.
pub open spec fn lists_oldest_first(ms: Seq<MemoryView>, sel: spec_fn(MemoryView) -> bool, ps: Seq<int>) -> bool {
    &&& forall|x: int| ps.contains(x) <==> (0 <= x < ms.len() && sel(ms[x]))
    &&& sorted_by(ps, older_first(ms))
}

/// The positions whose memory satisfies `sel`, oldest first, ties in store order.
pub open spec fn oldest_first(ms: Seq<MemoryView>, sel: spec_fn(MemoryView) -> bool) -> Seq<int> {
    choose|ps: Seq<int>| lists_oldest_first(ms, sel, ps)
}

pub proof fn lemma_older_first_strict_total(ms: Seq<MemoryView>)
    ensures
        strict_total(older_first(ms)),
{
}

/// There is only one oldest-first listing.
pub proof fn lemma_oldest_first_unique(ms: Seq<MemoryView>, sel: spec_fn(MemoryView) -> bool, ps: Seq<int>)
    requires
        lists_oldest_first(ms, sel, ps),
    ensures
        oldest_first(ms, sel) == ps,
{
    let qs = oldest_first(ms, sel);
    assert(lists_oldest_first(ms, sel, qs));
    lemma_older_first_strict_total(ms);
    lemma_sorted_unique(qs, ps, older_first(ms));
}

/// A deprecated memory of the namespace last updated (deprecated) more than `ttl_days`
/// days before `now`.
pub open spec fn is_expired(m: MemoryView, ns: Option<Seq<char>>, now: i64, ttl_days: u32) -> bool {
    in_scope(m, ns, Scope::Deprecated) && (m.updated_at as int) < cutoff(now, ttl_days)
}

pub open spec fn expired_pred(ns: Option<Seq<char>>, now: i64, ttl_days: u32) -> spec_fn(MemoryView) -> bool {
    |m: MemoryView| is_expired(m, ns, now, ttl_days)
}

/// A live memory whose id is listed.
pub open spec fn listed_live_pred(ids: Seq<Seq<char>>) -> spec_fn(MemoryView) -> bool {
    |m: MemoryView| ids.contains(m.id) && !m.deprecated
}

/// A memory whose id is not listed.
pub open spec fn unlisted_pred(ids: Seq<Seq<char>>) -> spec_fn(MemoryView) -> bool {
    |m: MemoryView| !ids.contains(m.id)
}

/// The memory after it is deprecated with `reason` at `now`.
pub open spec fn deprecated_view(m: MemoryView, reason: Seq<char>, now: i64) -> MemoryView {
    MemoryView { deprecated: true, deprecate_reason: Some(reason), updated_at: now, ..m }
}

/// Deprecating the listed live memories with `reason` at `now`.
pub open spec fn deprecate_listed(ms: Seq<MemoryView>, ids: Seq<Seq<char>>, reason: Seq<char>, now: i64) -> Seq<MemoryView> {
    ms.map_values(
        |m: MemoryView| if ids.contains(m.id) && !m.deprecated { deprecated_view(m, reason, now) } else { m },
    )
}

/// A tag of a live memory of the namespace.
pub open spec fn has_live_tag(ms: Seq<MemoryView>, ns: Option<Seq<char>>, t: Seq<char>) -> bool {
    exists|i: int, k: int|
        0 <= i < ms.len() && in_scope(ms[i], ns, Scope::Live) && 0 <= k < ms[i].tags.len() && #[trigger] ms[i].tags[k] == t
}

/// The namespace of some live memory.
pub open spec fn has_live_namespace(ms: Seq<MemoryView>, n: Seq<char>) -> bool {
    exists|i: int| 0 <= i < ms.len() && !ms[i].deprecated && #[trigger] ms[i].namespace == n
}

/// The number of live memories of namespace `n` in `s`.
pub open spec fn live_count_in(s: Seq<MemoryView>, n: Seq<char>) -> nat {
    s.filter(scope_pred(Some(n), Scope::Live)).len()
}

/// No live memory of namespace `n` in `s` means a count of zero.
pub proof fn lemma_live_count_zero(s: Seq<MemoryView>, n: Seq<char>)
    requires
        forall|a: int| 0 <= a < s.len() ==> !(!(#[trigger] s[a]).deprecated && s[a].namespace == n),
    ensures
        live_count_in(s, n) == 0,
{
    let p = scope_pred(Some(n), Scope::Live);
    if s.filter(p).len() > 0 {
        let x = s.filter(p)[0];
        s.lemma_filter_pred(p, 0);
        assert(s.filter(p).contains(x));
        s.lemma_filter_contains_rev(p, x);
        let a = choose|a: int| 0 <= a < s.len() && s[a] == x;
        assert(!s[a].deprecated && s[a].namespace == n);
    }
}

/// The names of a list of (namespace, count) pairs.
pub open spec fn names_of(r: Seq<(String, usize)>) -> Seq<Seq<char>> {
    r.map_values(|e: (String, usize)| e.0@)
}

/// The (id, embedding) pairs of document chunks.
pub open spec fn chunk_pairs(cs: Seq<ChunkView>) -> Seq<(Seq<char>, Seq<u32>)> {
    cs.map_values(|c: ChunkView| (c.id, c.embedding))
}

/// No two memories share an id.
pub open spec fn ids_unique(ms: Seq<MemoryView>) -> bool {
    forall|i: int, j: int|
        0 <= i < ms.len() && 0 <= j < ms.len() && i != j ==> #[trigger] ms[i].id != #[trigger] ms[j].id
}

/// The positions below `n` whose memory satisfies `sel`, in increasing order.
pub open spec fn selected_positions(ms: Seq<MemoryView>, sel: spec_fn(MemoryView) -> bool, n: int) -> Seq<int>
    decreases n,
{
    if n <= 0 {
        Seq::empty()
    } else if sel(ms[n - 1]) {
        selected_positions(ms, sel, n - 1).push(n - 1)
    } else {
        selected_positions(ms, sel, n - 1)
    }
}

proof fn lemma_selected_positions(ms: Seq<MemoryView>, sel: spec_fn(MemoryView) -> bool, n: int)
    requires
        0 <= n <= ms.len(),
    ensures
        forall|x: int| selected_positions(ms, sel, n).contains(x) <==> (0 <= x < n && sel(ms[x])),
        forall|i: int, j: int| 0 <= i < j < selected_positions(ms, sel, n).len() ==>
            #[trigger] selected_positions(ms, sel, n)[i] < #[trigger] selected_positions(ms, sel, n)[j],
    decreases n,
{
    if n > 0 {
        lemma_selected_positions(ms, sel, n - 1);
        let prev = selected_positions(ms, sel, n - 1);
        if sel(ms[n - 1]) {
            let cur = prev.push(n - 1);
            assert forall|x: int| cur.contains(x) <==> (0 <= x < n && sel(ms[x])) by {
                if 0 <= x < n - 1 && sel(ms[x]) {
                    assert(prev.contains(x));
                    let k = choose|k: int| 0 <= k < prev.len() && prev[k] == x;
                    assert(cur[k] == x);
                }
                if x == n - 1 {
                    assert(cur[prev.len() as int] == x);
                }
                if cur.contains(x) {
                    let k = choose|k: int| 0 <= k < cur.len() && cur[k] == x;
                    if k < prev.len() {
                        assert(prev.contains(x));
                    }
                }
            }
            assert forall|i: int, j: int| 0 <= i < j < cur.len() implies #[trigger] cur[i] < #[trigger] cur[j] by {
                if j == prev.len() {
                    assert(prev.contains(prev[i]));
                }
            }
        }
    }
}

/// Equal positions, or `p` before `q` by [`older_first`].
pub open spec fn older_or_same(ms: Seq<MemoryView>) -> spec_fn(int, int) -> bool {
    |p: int, q: int| p == q || older_first(ms)(p, q)
}

/// An oldest-first listing exists, so [`oldest_first`] is one.
pub proof fn lemma_oldest_first_exists(ms: Seq<MemoryView>, sel: spec_fn(MemoryView) -> bool)
    ensures
        lists_oldest_first(ms, sel, oldest_first(ms, sel)),
{
    broadcast use vstd::seq_lib::group_to_multiset_ensures;

    let cands = selected_positions(ms, sel, ms.len() as int);
    lemma_selected_positions(ms, sel, ms.len() as int);
    let leq = older_or_same(ms);
    assert(vstd::relations::total_ordering(leq));
    cands.lemma_sort_by_ensures(leq);
    let ps = cands.sort_by(leq);
    assert(cands.no_duplicates());
    cands.lemma_multiset_has_no_duplicates();
    ps.lemma_multiset_has_no_duplicates_conv();
    assert forall|x: int| ps.contains(x) <==> cands.contains(x) by {
        assert(ps.contains(x) <==> ps.to_multiset().count(x) > 0);
        assert(cands.contains(x) <==> cands.to_multiset().count(x) > 0);
    }
    assert forall|i: int, j: int| 0 <= i < j < ps.len() implies #[trigger] older_first(ms)(ps[i], ps[j]) by {
        assert(leq(ps[i], ps[j]));
        assert(ps[i] != ps[j]);
    }
    assert(lists_oldest_first(ms, sel, ps));
}

/// The value of a [`MemoryStore`].
pub struct StoreView {
    pub memories: Seq<MemoryView>,
    pub chunks: Seq<ChunkView>,
}

impl StoreView {
    /// No two memories share an id, and no two chunks share an id.
    pub open spec fn wf(self) -> bool {
        &&& ids_unique(self.memories)
        &&& forall|i: int, j: int|
            0 <= i < self.chunks.len() && 0 <= j < self.chunks.len() && i != j
                ==> #[trigger] self.chunks[i].id != #[trigger] self.chunks[j].id
    }

    /// Some memory has this id.
    pub open spec fn has_id(self, id: Seq<char>) -> bool {
        exists|i: int| 0 <= i < self.memories.len() && #[trigger] self.memories[i].id == id
    }

    /// The memories of a namespace in a scope, in store order.
    pub open spec fn scoped(self, ns: Option<Seq<char>>, scope: Scope) -> Seq<MemoryView> {
        self.memories.filter(scope_pred(ns, scope))
    }

    /// The memories that aging may clean up, oldest first (ties in store order).
    pub open spec fn aged(self, ns: Option<Seq<char>>, now: i64, days: u32, max_access: u32) -> Seq<MemoryView> {
        oldest_first(self.memories, aged_pred(ns, now, days, max_access)).map_values(|p: int| self.memories[p])
    }

    /// The deprecated memories of a namespace past their time to live, in store order.
    pub open spec fn expired(self, ns: Option<Seq<char>>, now: i64, ttl_days: u32) -> Seq<MemoryView> {
        self.memories.filter(expired_pred(ns, now, ttl_days))
    }

    /// The distinct tags of the live memories of a namespace.
    pub open spec fn tag_set(self, ns: Option<Seq<char>>) -> Set<Seq<char>> {
        Set::new(|t: Seq<char>| has_live_tag(self.memories, ns, t))
    }

    /// The live memories of a namespace in a tier.
    pub open spec fn tiered(self, ns: Option<Seq<char>>, now: i64, hot_days: u32, warm_days: u32, tier: Tier)
        -> Seq<MemoryView> {
        self.memories.filter(tier_pred(ns, now, hot_days, warm_days, tier))
    }
}

/// The memories and the document chunk embeddings.
pub struct MemoryStore {
    memories: Vec<Memory>,
    chunks: Vec<DocChunk>,
}

impl View for MemoryStore {
    type V = StoreView;

    closed spec fn view(&self) -> StoreView {
        StoreView {
            memories: self.memories@.map_values(|m: Memory| m@),
            chunks: self.chunks@.map_values(|c: DocChunk| c@),
        }
    }
}

/// The listed strings include `s`.
pub fn contains_string(list: &Vec<String>, s: &String) -> (r: bool)
    ensures
        r == strs_view(list@).contains(s@),
{
    let mut i: usize = 0;
    while i < list.len()
        invariant
            i <= list@.len(),
            forall|k: int| 0 <= k < i ==> list@[k]@ != s@,
        decreases list@.len() - i,
    {
        if list[i] == *s {
            assert(strs_view(list@)[i as int] == s@);
            return true;
        }
        i += 1;
    }
    assert forall|k: int| 0 <= k < strs_view(list@).len() implies strs_view(list@)[k] != s@ by {
        assert(strs_view(list@)[k] == list@[k]@);
    }
    false
}

/// The namespace filter as an owned string.
pub fn own_namespace(ns: Option<&str>) -> (r: Option<String>)
    ensures
        opt_str_view(r) == ns_view(ns),
{
    match ns {
        Some(s) => Some(String::from_str(s)),
        None => None,
    }
}

fn matches_namespace(m: &Memory, ns: &Option<String>) -> (r: bool)
    ensures
        r == ns_matches(m@, opt_str_view(*ns)),
{
    match ns {
        Some(n) => m.namespace == *n,
        None => true,
    }
}

fn matches_scope(m: &Memory, ns: &Option<String>, scope: Scope) -> (r: bool)
    ensures
        r == in_scope(m@, opt_str_view(*ns), scope),
{
    if !matches_namespace(m, ns) {
        return false;
    }
    match scope {
        Scope::Live => !m.deprecated,
        Scope::Deprecated => m.deprecated,
        Scope::Pinned => !m.deprecated && m.pinned,
        Scope::NeverAccessed => !m.deprecated && m.access_count == 0,
    }
}

/// `now - days * DAY_MS`, computed without overflow.
pub fn cutoff_of(now: i64, days: u32) -> (r: i128)
    ensures
        r as int == cutoff(now, days),
{
    now as i128 - days as i128 * 86_400_000i128
}

impl MemoryStore {
    /// An empty store.
    pub fn new() -> (r: MemoryStore)
        ensures
            r@.memories == Seq::<MemoryView>::empty(),
            r@.chunks == Seq::<ChunkView>::empty(),
            r@.wf(),
    {
        let r = MemoryStore { memories: Vec::new(), chunks: Vec::new() };
        assert(r@.memories =~= Seq::<MemoryView>::empty());
        assert(r@.chunks =~= Seq::<ChunkView>::empty());
        r
    }

    /// The stored memories, in store order.
    pub fn memories(&self) -> (r: &Vec<Memory>)
        ensures
            r@.map_values(|m: Memory| m@) == self@.memories,
    {
        &self.memories
    }

    /// The stored document chunks, in store order.
    pub fn chunks(&self) -> (r: &Vec<DocChunk>)
        ensures
            r@.map_values(|c: DocChunk| c@) == self@.chunks,
    {
        &self.chunks
    }

    /// The position of the memory with this id, if any.
    fn position_of(&self, id: &String) -> (r: Option<usize>)
        ensures
            match r {
                Some(i) => i < self@.memories.len() && self@.memories[i as int].id == id@,
                None => !self@.has_id(id@),
            },
    {
        let mut i: usize = 0;
        while i < self.memories.len()
            invariant
                i <= self.memories@.len(),
                forall|k: int| 0 <= k < i ==> self@.memories[k].id != id@,
            decreases self.memories@.len() - i,
        {
            if self.memories[i].id == *id {
                return Some(i);
            }
            i += 1;
        }
        None
    }

    /// Stores a new memory; refused when a memory with its id is stored.
    pub fn insert(&mut self, m: Memory) -> (r: Result<(), Error>)
        requires
            old(self)@.wf(),
        ensures
            final(self)@.wf(),
            final(self)@.chunks == old(self)@.chunks,
            r is Err <==> old(self)@.has_id(m@.id),
            r is Err ==> final(self)@ == old(self)@,
            r is Ok ==> final(self)@.memories == old(self)@.memories.push(m@),
    {
        match self.position_of(&m.id) {
            Some(_) => Err(Error::DuplicateId(m.id)),
            None => {
                let ghost mv = m@;
                self.memories.push(m);
                assert(self@.memories =~= old(self)@.memories.push(mv));
                assert(self@.chunks =~= old(self)@.chunks);
                assert forall|i: int, j: int|
                    0 <= i < self@.memories.len() && 0 <= j < self@.memories.len() && i != j
                        implies #[trigger] self@.memories[i].id != #[trigger] self@.memories[j].id by {
                    if i < old(self)@.memories.len() && j < old(self)@.memories.len() {
                        assert(old(self)@.memories[i].id != old(self)@.memories[j].id);
                    } else if i < old(self)@.memories.len() {
                        assert(old(self)@.memories[i].id != mv.id);
                    } else {
                        assert(old(self)@.memories[j].id != mv.id);
                    }
                }
                Ok(())
            },
        }
    }

    /// Replaces the stored memory that has the id of `m`; refused when there is none.
    pub fn update(&mut self, m: Memory) -> (r: Result<(), Error>)
        requires
            old(self)@.wf(),
        ensures
            final(self)@.wf(),
            final(self)@.chunks == old(self)@.chunks,
            r is Err <==> !old(self)@.has_id(m@.id),
            r is Err ==> final(self)@ == old(self)@,
            r is Ok ==> final(self)@.memories == old(self)@.memories.map_values(
                |x: MemoryView| if x.id == m@.id { m@ } else { x },
            ),
    {
        match self.position_of(&m.id) {
            None => Err(Error::NotFound(m.id)),
            Some(i) => {
                let ghost mv = m@;
                self.memories.set(i, m);
                assert(self@.chunks =~= old(self)@.chunks);
                assert forall|k: int| 0 <= k < self@.memories.len() implies #[trigger] self@.memories[k]
                    == (if old(self)@.memories[k].id == mv.id { mv } else { old(self)@.memories[k] }) by {
                    if k != i && old(self)@.memories[k].id == mv.id {
                        assert(old(self)@.memories[k].id != old(self)@.memories[i as int].id);
                    }
                }
                assert(self@.memories =~= old(self)@.memories.map_values(
                    |x: MemoryView| if x.id == mv.id { mv } else { x },
                ));
                assert forall|a: int, b: int|
                    0 <= a < self@.memories.len() && 0 <= b < self@.memories.len() && a != b
                        implies #[trigger] self@.memories[a].id != #[trigger] self@.memories[b].id by {
                    assert(old(self)@.memories[a].id != old(self)@.memories[b].id);
                }
                Ok(())
            },
        }
    }

    /// Stores the embedding of a document chunk; refused when a chunk with its id is stored.
    pub fn add_chunk(&mut self, c: DocChunk) -> (r: Result<(), Error>)
        requires
            old(self)@.wf(),
        ensures
            final(self)@.wf(),
            final(self)@.memories == old(self)@.memories,
            r is Err <==> exists|i: int|
                0 <= i < old(self)@.chunks.len() && #[trigger] old(self)@.chunks[i].id == c@.id,
            r is Err ==> final(self)@ == old(self)@,
            r is Ok ==> final(self)@.chunks == old(self)@.chunks.push(c@),
    {
        let mut i: usize = 0;
        while i < self.chunks.len()
            invariant
                self@ == old(self)@,
                self@.wf(),
                i <= self.chunks@.len(),
                forall|k: int| 0 <= k < i ==> self@.chunks[k].id != c@.id,
            decreases self.chunks@.len() - i,
        {
            if self.chunks[i].id == c.id {
                assert(self@.chunks[i as int].id == c@.id);
                return Err(Error::DuplicateId(c.id));
            }
            i += 1;
        }
        let ghost cv = c@;
        self.chunks.push(c);
        assert(self@.chunks =~= old(self)@.chunks.push(cv));
        assert(self@.memories =~= old(self)@.memories);
        assert forall|a: int, b: int|
            0 <= a < self@.chunks.len() && 0 <= b < self@.chunks.len() && a != b
                implies #[trigger] self@.chunks[a].id != #[trigger] self@.chunks[b].id by {
            if a < old(self)@.chunks.len() && b < old(self)@.chunks.len() {
                assert(old(self)@.chunks[a].id != old(self)@.chunks[b].id);
            }
        }
        Ok(())
    }

    fn count_scope(&self, ns: &Option<String>, scope: Scope) -> (n: usize)
        ensures
            n == self@.scoped(opt_str_view(*ns), scope).len(),
    {
        let ghost nsv = opt_str_view(*ns);
        let ghost all = self@.memories;
        let mut n: usize = 0;
        for i in 0..self.memories.len()
            invariant
                nsv == opt_str_view(*ns),
                all == self@.memories,
                all.len() == self.memories@.len(),
                n == all.take(i as int).filter(scope_pred(nsv, scope)).len(),
                n <= i,
        {
            assert(all.take(i + 1) =~= all.take(i as int).push(all[i as int]));
            proof {
                all.take(i as int).lemma_filter_push(all[i as int], scope_pred(nsv, scope));
            }
            if matches_scope(&self.memories[i], ns, scope) {
                n += 1;
            }
        }
        assert(all.take(all.len() as int) =~= all);
        n
    }

    /// The number of memories of the namespace (deprecated ones are hidden and not counted).
    pub fn count(&self, ns: Option<&str>) -> (n: usize)
        ensures
            n == self@.scoped(ns_view(ns), Scope::Live).len(),
    {
        self.count_scope(&own_namespace(ns), Scope::Live)
    }

    /// The number of live (not deprecated) memories of the namespace.
    pub fn count_active(&self, ns: Option<&str>) -> (n: usize)
        ensures
            n == self@.scoped(ns_view(ns), Scope::Live).len(),
    {
        self.count_scope(&own_namespace(ns), Scope::Live)
    }

    /// The number of deprecated memories of the namespace.
    pub fn count_deprecated(&self, ns: Option<&str>) -> (n: usize)
        ensures
            n == self@.scoped(ns_view(ns), Scope::Deprecated).len(),
    {
        self.count_scope(&own_namespace(ns), Scope::Deprecated)
    }

    /// The number of live pinned memories of the namespace.
    pub fn count_pinned(&self, ns: Option<&str>) -> (n: usize)
        ensures
            n == self@.scoped(ns_view(ns), Scope::Pinned).len(),
    {
        self.count_scope(&own_namespace(ns), Scope::Pinned)
    }

    /// The number of live memories of the namespace that were never accessed.
    pub fn count_never_accessed(&self, ns: Option<&str>) -> (n: usize)
        ensures
            n == self@.scoped(ns_view(ns), Scope::NeverAccessed).len(),
    {
        self.count_scope(&own_namespace(ns), Scope::NeverAccessed)
    }

    fn select_scope(&self, ns: &Option<String>, scope: Scope) -> (r: Vec<Memory>)
        ensures
            r@.map_values(|m: Memory| m@) == self@.scoped(opt_str_view(*ns), scope),
    {
        let ghost nsv = opt_str_view(*ns);
        let ghost all = self@.memories;
        let mut r: Vec<Memory> = Vec::new();
        for i in 0..self.memories.len()
            invariant
                nsv == opt_str_view(*ns),
                all == self@.memories,
                all.len() == self.memories@.len(),
                r@.map_values(|m: Memory| m@) == all.take(i as int).filter(scope_pred(nsv, scope)),
        {
            assert(all.take(i + 1) =~= all.take(i as int).push(all[i as int]));
            proof {
                all.take(i as int).lemma_filter_push(all[i as int], scope_pred(nsv, scope));
            }
            if matches_scope(&self.memories[i], ns, scope) {
                let ghost before = r@;
                let m = self.memories[i].duplicate();
                r.push(m);
                assert(r@.map_values(|m: Memory| m@) =~= before.map_values(|m: Memory| m@).push(
                    all[i as int],
                ));
            }
        }
        assert(all.take(all.len() as int) =~= all);
        r
    }

    /// The live memories of the namespace, in store order.
    pub fn load_all(&self, ns: Option<&str>) -> (r: Vec<Memory>)
        ensures
            r@.map_values(|m: Memory| m@) == self@.scoped(ns_view(ns), Scope::Live),
    {
        self.select_scope(&own_namespace(ns), Scope::Live)
    }

    fn is_aged_at(&self, p: usize, ns: &Option<String>, cut: i128, max_access: u32) -> (r: bool)
        requires
            p < self@.memories.len(),
        ensures
            r == (in_scope(self@.memories[p as int], opt_str_view(*ns), Scope::Live)
                && !self@.memories[p as int].pinned && (self@.memories[p as int].created_at as int) < cut
                && self@.memories[p as int].access_count <= max_access),
    {
        let m = &self.memories[p];
        matches_scope(m, ns, Scope::Live) && !m.pinned && (m.created_at as i128) < cut && m.access_count
            <= max_access as u64
    }

    /// The live, unpinned memories of the namespace created more than `older_than_days`
    /// days before `now` and accessed at most `max_access_count` times, oldest first.
    pub fn find_aged(&self, older_than_days: u32, max_access_count: u32, ns: Option<&str>, now: i64)
        -> (r: Vec<Memory>)
        ensures
            r@.map_values(|m: Memory| m@) == self@.aged(ns_view(ns), now, older_than_days, max_access_count),
    {
        let nso = own_namespace(ns);
        let cut = cutoff_of(now, older_than_days);
        let ghost ms = self@.memories;
        let ghost sel = aged_pred(ns_view(ns), now, older_than_days, max_access_count);
        let ghost lt = older_first(ms);
        let mut sorted: Vec<usize> = Vec::new();
        for i in 0..self.memories.len()
            invariant
                ms == self@.memories,
                ms.len() == self.memories@.len(),
                sel == aged_pred(ns_view(ns), now, older_than_days, max_access_count),
                opt_str_view(nso) == ns_view(ns),
                cut as int == cutoff(now, older_than_days),
                lt == older_first(ms),
                forall|k: int| 0 <= k < sorted@.len() ==> #[trigger] sorted@[k] < i,
                forall|x: int|
                    sorted@.map_values(|u: usize| u as int).contains(x) <==> (0 <= x < i && sel(ms[x])),
                sorted_by(sorted@.map_values(|u: usize| u as int), lt),
        {
            if self.is_aged_at(i, &nso, cut, max_access_count) {
                let created = self.memories[i].created_at;
                let mut j: usize = 0;
                while j < sorted.len() && self.memories[sorted[j]].created_at <= created
                    invariant
                        ms == self@.memories,
                        ms.len() == self.memories@.len(),
                        i < ms.len(),
                        created == ms[i as int].created_at,
                        j <= sorted@.len(),
                        forall|k: int| 0 <= k < sorted@.len() ==> #[trigger] sorted@[k] < i,
                        forall|k: int| 0 <= k < j ==> ms[#[trigger] sorted@[k] as int].created_at <= created,
                    decreases sorted@.len() - j,
                {
                    j += 1;
                }
                let ghost ps = sorted@.map_values(|u: usize| u as int);
                let ghost old_sorted = sorted@;
                proof {
                    assert forall|k: int| 0 <= k < j implies #[trigger] lt(ps[k], i as int) by {
                        assert(ps[k] == sorted@[k] as int);
                    }
                    assert forall|k: int| j <= k < ps.len() implies #[trigger] lt(i as int, ps[k]) by {
                        if k > j {
                            assert(lt(ps[j as int], ps[k]));
                        }
                        assert(ms[ps[j as int]].created_at > created);
                    }
                    lemma_insert_sorted(ps, j as int, i as int, lt);
                }
                sorted.insert(j, i);
                proof {
                    let qs = sorted@.map_values(|u: usize| u as int);
                    assert(qs =~= ps.insert(j as int, i as int));
                    assert forall|x: int| qs.contains(x) implies (0 <= x < i + 1 && sel(ms[x])) by {
                        let k = choose|k: int| 0 <= k < qs.len() && qs[k] == x;
                        if x != i {
                            if k < j {
                                assert(ps[k] == x);
                            } else {
                                assert(ps[k - 1] == x);
                            }
                            assert(ps.contains(x));
                        }
                    }
                    assert forall|x: int| (0 <= x < i + 1 && sel(ms[x])) implies qs.contains(x) by {
                        if x == i {
                            assert(qs[j as int] == x);
                        } else {
                            assert(ps.contains(x));
                            let k = choose|k: int| 0 <= k < ps.len() && ps[k] == x;
                            if k < j {
                                assert(qs[k] == x);
                            } else {
                                assert(qs[k + 1] == x);
                            }
                        }
                    }
                    assert forall|k: int| 0 <= k < sorted@.len() implies #[trigger] sorted@[k] < i + 1 by {
                        if k != j {
                            if k < j {
                                assert(sorted@[k] == old_sorted[k]);
                            } else {
                                assert(sorted@[k] == old_sorted[k - 1]);
                            }
                        }
                    }
                }
            }
        }
        let ghost ps = sorted@.map_values(|u: usize| u as int);
        proof {
            assert(lists_oldest_first(ms, sel, ps));
            lemma_oldest_first_unique(ms, sel, ps);
        }
        let mut r: Vec<Memory> = Vec::new();
        for k in 0..sorted.len()
            invariant
                ms == self@.memories,
                ms.len() == self.memories@.len(),
                ps == sorted@.map_values(|u: usize| u as int),
                forall|x: int| ps.contains(x) ==> 0 <= x < ms.len(),
                r@.len() == k,
                forall|a: int| 0 <= a < k ==> (#[trigger] r@[a])@ == ms[ps[a]],
        {
            assert(ps.contains(ps[k as int]));
            let m = self.memories[sorted[k]].duplicate();
            r.push(m);
        }
        assert(r@.map_values(|m: Memory| m@) =~= ps.map_values(|p: int| ms[p]));
        r
    }

    /// The deprecated memories of the namespace last updated more than `ttl_days` days
    /// before `now`, in store order.
    pub fn find_deprecated_for_prune(&self, ttl_days: u32, ns: Option<&str>, now: i64) -> (r: Vec<Memory>)
        ensures
            r@.map_values(|m: Memory| m@) == self@.expired(ns_view(ns), now, ttl_days),
    {
        let nso = own_namespace(ns);
        let cut = cutoff_of(now, ttl_days);
        let ghost all = self@.memories;
        let ghost pred = expired_pred(ns_view(ns), now, ttl_days);
        let mut r: Vec<Memory> = Vec::new();
        for i in 0..self.memories.len()
            invariant
                all == self@.memories,
                all.len() == self.memories@.len(),
                pred == expired_pred(ns_view(ns), now, ttl_days),
                opt_str_view(nso) == ns_view(ns),
                cut as int == cutoff(now, ttl_days),
                r@.map_values(|m: Memory| m@) == all.take(i as int).filter(pred),
        {
            assert(all.take(i + 1) =~= all.take(i as int).push(all[i as int]));
            proof {
                all.take(i as int).lemma_filter_push(all[i as int], pred);
            }
            if matches_scope(&self.memories[i], &nso, Scope::Deprecated) && (self.memories[i].updated_at as i128) < cut {
                let ghost before = r@;
                let m = self.memories[i].duplicate();
                r.push(m);
                assert(r@.map_values(|m: Memory| m@) =~= before.map_values(|m: Memory| m@).push(all[i as int]));
            }
        }
        assert(all.take(all.len() as int) =~= all);
        r
    }

    /// Deprecates (soft-deletes) every live memory whose id is listed, recording `reason`
    /// and `now`; returns how many it deprecated.
    pub fn deprecate_by_ids(&mut self, ids: &Vec<String>, reason: &str, now: i64) -> (n: usize)
        requires
            old(self)@.wf(),
        ensures
            final(self)@.wf(),
            final(self)@.chunks == old(self)@.chunks,
            final(self)@.memories == deprecate_listed(old(self)@.memories, strs_view(ids@), reason@, now),
            n == old(self)@.memories.filter(listed_live_pred(strs_view(ids@))).len(),
    {
        let ghost all = old(self)@.memories;
        let ghost idv = strs_view(ids@);
        let ghost pred = listed_live_pred(idv);
        let mut n: usize = 0;
        let len = self.memories.len();
        for i in 0..len
            invariant
                len == all.len(),
                all == old(self)@.memories,
                idv == strs_view(ids@),
                pred == listed_live_pred(idv),
                self.memories@.len() == all.len(),
                self@.chunks == old(self)@.chunks,
                forall|k: int| 0 <= k < i ==> #[trigger] self@.memories[k] == deprecate_listed(all, idv, reason@, now)[k],
                forall|k: int| i <= k < all.len() ==> #[trigger] self@.memories[k] == all[k],
                n == all.take(i as int).filter(pred).len(),
                n <= i,
        {
            assert(all.take(i + 1) =~= all.take(i as int).push(all[i as int]));
            proof {
                all.take(i as int).lemma_filter_push(all[i as int], pred);
            }
            assert(self@.memories[i as int] == all[i as int]);
            let listed = contains_string(ids, &self.memories[i].id);
            if listed && !self.memories[i].deprecated {
                let mut m = self.memories[i].duplicate();
                m.deprecated = true;
                m.deprecate_reason = Some(String::from_str(reason));
                m.updated_at = now;
                assert(m@ == deprecated_view(all[i as int], reason@, now));
                let ghost prev = self@.memories;
                let ghost prev_vec = self.memories@;
                self.memories.set(i, m);
                assert forall|k: int| 0 <= k < all.len() && k != i implies #[trigger] self@.memories[k] == prev[k] by {
                    assert(self.memories@[k] == prev_vec[k]);
                }
                n += 1;
            } else {
                assert(self@.memories[i as int] == all[i as int]);
            }
            assert(self@.memories[i as int] == deprecate_listed(all, idv, reason@, now)[i as int]);
        }
        assert(self@.memories =~= deprecate_listed(all, idv, reason@, now));
        assert(all.take(all.len() as int) =~= all);
        assert forall|a: int, b: int|
            0 <= a < self@.memories.len() && 0 <= b < self@.memories.len() && a != b
                implies #[trigger] self@.memories[a].id != #[trigger] self@.memories[b].id by {
            assert(all[a].id != all[b].id);
        }
        n
    }

    /// Deletes every memory whose id is listed; returns how many it deleted.
    pub fn delete_by_ids(&mut self, ids: &Vec<String>) -> (n: usize)
        requires
            old(self)@.wf(),
        ensures
            final(self)@.wf(),
            final(self)@.chunks == old(self)@.chunks,
            final(self)@.memories == old(self)@.memories.filter(unlisted_pred(strs_view(ids@))),
            n == old(self)@.memories.len() - final(self)@.memories.len(),
    {
        let ghost all = old(self)@.memories;
        let ghost idv = strs_view(ids@);
        let ghost pred = unlisted_pred(idv);
        let mut kept: Vec<Memory> = Vec::new();
        let ghost mut origin: Seq<int> = Seq::empty();
        for i in 0..self.memories.len()
            invariant
                all == old(self)@.memories,
                all == self@.memories,
                idv == strs_view(ids@),
                pred == unlisted_pred(idv),
                self.memories@.len() == all.len(),
                ids_unique(all),
                kept@.map_values(|m: Memory| m@) == all.take(i as int).filter(pred),
                origin.len() == kept@.len(),
                forall|a: int| 0 <= a < origin.len() ==> 0 <= #[trigger] origin[a] < i && kept@[a]@ == all[origin[a]],
                forall|a: int, b: int| 0 <= a < b < origin.len() ==> #[trigger] origin[a] < #[trigger] origin[b],
                kept@.len() <= i,
        {
            assert(all.take(i + 1) =~= all.take(i as int).push(all[i as int]));
            proof {
                all.take(i as int).lemma_filter_push(all[i as int], pred);
            }
            let listed = contains_string(ids, &self.memories[i].id);
            if !listed {
                let ghost before = kept@;
                let m = self.memories[i].duplicate();
                kept.push(m);
                proof {
                    origin = origin.push(i as int);
                }
                assert(kept@.map_values(|m: Memory| m@) =~= before.map_values(|m: Memory| m@).push(all[i as int]));
            }
        }
        assert(all.take(all.len() as int) =~= all);
        let n = self.memories.len() - kept.len();
        self.memories = kept;
        assert(self@.memories =~= all.filter(pred));
        assert(self@.chunks =~= old(self)@.chunks);
        assert forall|a: int, b: int|
            0 <= a < self@.memories.len() && 0 <= b < self@.memories.len() && a != b
                implies #[trigger] self@.memories[a].id != #[trigger] self@.memories[b].id by {
            assert(self@.memories[a] == all[origin[a]]);
            assert(self@.memories[b] == all[origin[b]]);
            if a < b {
                assert(origin[a] < origin[b]);
            } else {
                assert(origin[b] < origin[a]);
            }
        }
        n
    }

    /// How many live memories of the namespace are hot, warm and cold at `now`.
    pub fn tier_counts(&self, ns: Option<&str>, hot_days: u32, warm_days: u32, now: i64) -> (r: (usize, usize, usize))
        ensures
            r.0 == self@.tiered(ns_view(ns), now, hot_days, warm_days, Tier::Hot).len(),
            r.1 == self@.tiered(ns_view(ns), now, hot_days, warm_days, Tier::Warm).len(),
            r.2 == self@.tiered(ns_view(ns), now, hot_days, warm_days, Tier::Cold).len(),
    {
        let nso = own_namespace(ns);
        let hot_cut = cutoff_of(now, hot_days);
        let warm_cut = cutoff_of(now, warm_days);
        let ghost all = self@.memories;
        let ghost nsv = ns_view(ns);
        let ghost ph = tier_pred(nsv, now, hot_days, warm_days, Tier::Hot);
        let ghost pw = tier_pred(nsv, now, hot_days, warm_days, Tier::Warm);
        let ghost pc = tier_pred(nsv, now, hot_days, warm_days, Tier::Cold);
        let mut hot: usize = 0;
        let mut warm: usize = 0;
        let mut cold: usize = 0;
        for i in 0..self.memories.len()
            invariant
                all == self@.memories,
                all.len() == self.memories@.len(),
                nsv == ns_view(ns),
                opt_str_view(nso) == nsv,
                hot_cut as int == cutoff(now, hot_days),
                warm_cut as int == cutoff(now, warm_days),
                ph == tier_pred(nsv, now, hot_days, warm_days, Tier::Hot),
                pw == tier_pred(nsv, now, hot_days, warm_days, Tier::Warm),
                pc == tier_pred(nsv, now, hot_days, warm_days, Tier::Cold),
                hot == all.take(i as int).filter(ph).len(),
                warm == all.take(i as int).filter(pw).len(),
                cold == all.take(i as int).filter(pc).len(),
                hot + warm + cold <= i,
        {
            assert(all.take(i + 1) =~= all.take(i as int).push(all[i as int]));
            proof {
                all.take(i as int).lemma_filter_push(all[i as int], ph);
                all.take(i as int).lemma_filter_push(all[i as int], pw);
                all.take(i as int).lemma_filter_push(all[i as int], pc);
            }
            let m = &self.memories[i];
            if matches_scope(m, &nso, Scope::Live) {
                let act = match m.last_accessed {
                    Some(t) => t,
                    None => m.created_at,
                };
                if act as i128 >= hot_cut {
                    hot += 1;
                } else if act as i128 >= warm_cut {
                    warm += 1;
                } else {
                    cold += 1;
                }
            }
        }
        assert(all.take(all.len() as int) =~= all);
        (hot, warm, cold)
    }

    /// The number of distinct tags of the live memories of the namespace.
    pub fn unique_tag_count(&self, ns: Option<&str>) -> (n: usize)
        ensures
            n == self@.tag_set(ns_view(ns)).len(),
    {
        let nso = own_namespace(ns);
        let ghost all = self@.memories;
        let ghost nsv = ns_view(ns);
        let mut seen: Vec<String> = Vec::new();
        for i in 0..self.memories.len()
            invariant
                all == self@.memories,
                all.len() == self.memories@.len(),
                nsv == ns_view(ns),
                opt_str_view(nso) == nsv,
                strs_view(seen@).no_duplicates(),
                forall|t: Seq<char>| #[trigger] strs_view(seen@).contains(t) <==> exists|a: int, k: int|
                    0 <= a < i && in_scope(all[a], nsv, Scope::Live) && 0 <= k < all[a].tags.len()
                        && #[trigger] all[a].tags[k] == t,
        {
            let m = &self.memories[i];
            assert(m@ == all[i as int]);
            if matches_scope(m, &nso, Scope::Live) {
                for k in 0..m.tags.len()
                    invariant
                        all == self@.memories,
                        i < all.len(),
                        m@ == all[i as int],
                        in_scope(all[i as int], nsv, Scope::Live),
                        strs_view(seen@).no_duplicates(),
                        forall|t: Seq<char>| #[trigger] strs_view(seen@).contains(t) <==> (exists|a: int, k2: int|
                            0 <= a < i && in_scope(all[a], nsv, Scope::Live) && 0 <= k2 < all[a].tags.len()
                                && #[trigger] all[a].tags[k2] == t) || (exists|k2: int| 0 <= k2 < k && #[trigger] all[i as int].tags[k2] == t),
                {
                    let ghost before = strs_view(seen@);
                    assert(m.tags@[k as int]@ == all[i as int].tags[k as int]);
                    if !contains_string(&seen, &m.tags[k]) {
                        seen.push(m.tags[k].clone());
                        assert(strs_view(seen@) =~= before.push(all[i as int].tags[k as int]));
                    }
                    assert forall|t: Seq<char>| #[trigger] strs_view(seen@).contains(t) <==> (exists|a: int, k2: int|
                            0 <= a < i && in_scope(all[a], nsv, Scope::Live) && 0 <= k2 < all[a].tags.len()
                                && #[trigger] all[a].tags[k2] == t) || (exists|k2: int| 0 <= k2 < k + 1 && #[trigger] all[i as int].tags[k2] == t) by {
                        if exists|k2: int| 0 <= k2 < k + 1 && #[trigger] all[i as int].tags[k2] == t {
                            let k2 = choose|k2: int| 0 <= k2 < k + 1 && #[trigger] all[i as int].tags[k2] == t;
                            if k2 < k {
                                assert(before.contains(t));
                            }
                        }
                        if before.contains(t) {
                            let j = choose|j: int| 0 <= j < before.len() && before[j] == t;
                            assert(strs_view(seen@)[j] == t);
                        }
                    }
                }
            }
            assert forall|t: Seq<char>| #[trigger] strs_view(seen@).contains(t) <==> exists|a: int, k: int|
                    0 <= a < i + 1 && in_scope(all[a], nsv, Scope::Live) && 0 <= k < all[a].tags.len()
                        && #[trigger] all[a].tags[k] == t by {
                if exists|a: int, k: int| 0 <= a < i + 1 && in_scope(all[a], nsv, Scope::Live) && 0 <= k < all[a].tags.len()
                        && #[trigger] all[a].tags[k] == t {
                    let (a, k) = choose|a: int, k: int| 0 <= a < i + 1 && in_scope(all[a], nsv, Scope::Live) && 0 <= k < all[a].tags.len()
                        && #[trigger] all[a].tags[k] == t;
                    if a == i {
                        assert(exists|k2: int| 0 <= k2 < all[i as int].tags.len() && #[trigger] all[i as int].tags[k2] == t);
                    }
                }
            }
        }
        let ghost sv = strs_view(seen@);
        proof {
            assert(sv.to_set() =~= self@.tag_set(nsv));
            sv.unique_seq_to_set();
        }
        seen.len()
    }

    /// Each namespace that has live memories, once, with its number of live memories.
    pub fn list_namespaces_with_counts(&self) -> (r: Vec<(String, usize)>)
        ensures
            names_of(r@).no_duplicates(),
            forall|n: Seq<char>| #[trigger] names_of(r@).contains(n) <==> has_live_namespace(self@.memories, n),
            forall|j: int| 0 <= j < r@.len() ==> (#[trigger] r@[j]).1 == self@.scoped(Some(r@[j].0@), Scope::Live).len(),
    {
        let ghost all = self@.memories;
        let mut r: Vec<(String, usize)> = Vec::new();
        for i in 0..self.memories.len()
            invariant
                all == self@.memories,
                all.len() == self.memories@.len(),
                names_of(r@).no_duplicates(),
                forall|n: Seq<char>| #[trigger] names_of(r@).contains(n) <==> exists|a: int|
                    0 <= a < i && !all[a].deprecated && #[trigger] all[a].namespace == n,
                forall|j: int| 0 <= j < r@.len() ==> (#[trigger] r@[j]).1 == live_count_in(all.take(i as int), r@[j].0@),
                forall|j: int| 0 <= j < r@.len() ==> (#[trigger] r@[j]).1 <= i,
        {
            let ghost names = names_of(r@);
            let ghost old_r = r@;
            let ghost mut hit: int = -1;
            assert(all.take(i + 1) =~= all.take(i as int).push(all[i as int]));
            let m = &self.memories[i];
            assert(m@ == all[i as int]);
            if !m.deprecated {
                let mut j: usize = 0;
                while j < r.len() && r[j].0 != m.namespace
                    invariant
                        j <= r@.len(),
                        forall|a: int| 0 <= a < j ==> (#[trigger] r@[a]).0@ != m.namespace@,
                    decreases r@.len() - j,
                {
                    j += 1;
                }
                if j < r.len() {
                    let c = r[j].1;
                    let name = r[j].0.clone();
                    r.set(j, (name, c + 1));
                    proof {
                        hit = j as int;
                        assert(names_of(r@) =~= names);
                        assert(names[hit] == all[i as int].namespace);
                    }
                } else {
                    r.push((m.namespace.clone(), 1));
                    proof {
                        hit = old_r.len() as int;
                        assert(names_of(r@) =~= names.push(all[i as int].namespace));
                        assert forall|a: int| 0 <= a < names.len() implies names[a] != all[i as int].namespace by {
                            assert(names[a] == old_r[a].0@);
                        }
                        assert(!names.contains(all[i as int].namespace));
                    }
                }
            }
            let ghost names2 = names_of(r@);
            proof {
                assert forall|j: int| 0 <= j < r@.len() implies (#[trigger] r@[j]).1 == live_count_in(all.take(i + 1), r@[j].0@) by {
                    all.take(i as int).lemma_filter_push(all[i as int], scope_pred(Some(r@[j].0@), Scope::Live));
                    if j < old_r.len() {
                        assert(names[j] == old_r[j].0@);
                        assert(names2[j] == r@[j].0@);
                        assert(old_r[j].1 == live_count_in(all.take(i as int), old_r[j].0@));
                        if j == hit {
                            assert(r@[j].1 == old_r[j].1 + 1);
                        } else {
                            assert(r@[j] == old_r[j]);
                            if !all[i as int].deprecated {
                                assert(names[j] != all[i as int].namespace);
                            }
                        }
                    } else {
                        assert(j == hit);
                        let n = all[i as int].namespace;
                        assert(!names.contains(n));
                        assert forall|a: int| 0 <= a < all.take(i as int).len() implies
                            !(!(#[trigger] all.take(i as int)[a]).deprecated && all.take(i as int)[a].namespace == n) by {
                            assert(all.take(i as int)[a] == all[a]);
                        }
                        lemma_live_count_zero(all.take(i as int), n);
                    }
                }
                assert forall|n: Seq<char>| #[trigger] names2.contains(n) <==> exists|a: int|
                        0 <= a < i + 1 && !all[a].deprecated && #[trigger] all[a].namespace == n by {
                    if names.contains(n) {
                        let j = choose|j: int| 0 <= j < names.len() && names[j] == n;
                        assert(names2[j] == n);
                    }
                    if names2.contains(n) && !names.contains(n) {
                        assert(all[i as int].namespace == n);
                    }
                    if !all[i as int].deprecated {
                        assert(names2[hit] == all[i as int].namespace);
                    }
                }
            }
        }
        assert(all.take(all.len() as int) =~= all);
        r
    }

    /// The id and embedding of every stored document chunk, in store order.
    pub fn load_all_chunk_embeddings(&self) -> (r: Vec<(String, Vec<u32>)>)
        ensures
            crate::index::entries_view(r@) == chunk_pairs(self@.chunks),
    {
        let mut r: Vec<(String, Vec<u32>)> = Vec::new();
        for i in 0..self.chunks.len()
            invariant
                r@.len() == i,
                forall|k: int|
                    0 <= k < i ==> (#[trigger] r@[k]).0@ == self@.chunks[k].id && r@[k].1@
                        == self@.chunks[k].embedding,
        {
            let id = self.chunks[i].id.clone();
            let emb = crate::types::clone_words(&self.chunks[i].embedding);
            r.push((id, emb));
        }
        assert(crate::index::entries_view(r@) =~= chunk_pairs(self@.chunks));
        r
    }
}

} // verus!
