//! Sequences of positions sorted by a strict order, and why such a sequence is unique.

use vstd::prelude::*;

verus! {

/// `lt` is irreflexive and transitive, and orders any two distinct positions.
pub open spec fn strict_total(lt: spec_fn(int, int) -> bool) -> bool {
    &&& forall|a: int| !#[trigger] lt(a, a)
    &&& forall|a: int, b: int, c: int| #[trigger] lt(a, b) && #[trigger] lt(b, c) ==> lt(a, c)
    &&& forall|a: int, b: int| a != b ==> #[trigger] lt(a, b) || #[trigger] lt(b, a)
}

/// Every earlier element of `ps` is below every later one.
pub open spec fn sorted_by(ps: Seq<int>, lt: spec_fn(int, int) -> bool) -> bool {
    forall|i: int, j: int| 0 <= i < j < ps.len() ==> #[trigger] lt(ps[i], ps[j])
}

/// Two sequences sorted by the same strict total order that hold the same elements
/// are equal.
pub proof fn lemma_sorted_unique(ps: Seq<int>, qs: Seq<int>, lt: spec_fn(int, int) -> bool)
    requires
        strict_total(lt),
        sorted_by(ps, lt),
        sorted_by(qs, lt),
        forall|x: int| ps.contains(x) <==> qs.contains(x),
    ensures
        ps == qs,
    decreases ps.len(),
{
    if ps.len() == 0 {
        if qs.len() > 0 {
            assert(qs.contains(qs[0]));
        }
        assert(ps =~= qs);
    } else {
        assert(ps.contains(ps[0]));
        assert(qs.len() > 0);
        let x = ps[0];
        let y = qs[0];
        if x != y {
            assert(qs.contains(x));
            let j = choose|j: int| 0 <= j < qs.len() && qs[j] == x;
            assert(j > 0);
            assert(lt(y, x));
            assert(qs.contains(y));
            assert(ps.contains(y));
            let k = choose|k: int| 0 <= k < ps.len() && ps[k] == y;
            assert(k > 0);
            assert(lt(x, y));
            assert(lt(x, x));
        }
        let ps2 = ps.drop_first();
        let qs2 = qs.drop_first();
        assert(sorted_by(ps2, lt)) by {
            assert forall|i: int, j: int| 0 <= i < j < ps2.len() implies #[trigger] lt(ps2[i], ps2[j]) by {
                assert(ps2[i] == ps[i + 1] && ps2[j] == ps[j + 1]);
            }
        }
        assert(sorted_by(qs2, lt)) by {
            assert forall|i: int, j: int| 0 <= i < j < qs2.len() implies #[trigger] lt(qs2[i], qs2[j]) by {
                assert(qs2[i] == qs[i + 1] && qs2[j] == qs[j + 1]);
            }
        }
        assert forall|z: int| ps2.contains(z) implies qs2.contains(z) by {
            let i = choose|i: int| 0 <= i < ps2.len() && ps2[i] == z;
            assert(ps[i + 1] == z);
            assert(lt(x, z));
            assert(z != x);
            assert(qs.contains(z));
            let j = choose|j: int| 0 <= j < qs.len() && qs[j] == z;
            assert(j != 0);
            assert(qs2[j - 1] == z);
        }
        assert forall|z: int| qs2.contains(z) implies ps2.contains(z) by {
            let i = choose|i: int| 0 <= i < qs2.len() && qs2[i] == z;
            assert(qs[i + 1] == z);
            assert(lt(y, z));
            assert(z != y);
            assert(ps.contains(z));
            let j = choose|j: int| 0 <= j < ps.len() && ps[j] == z;
            assert(j != 0);
            assert(ps2[j - 1] == z);
        }
        lemma_sorted_unique(ps2, qs2, lt);
        assert(ps =~= seq![x] + ps2);
        assert(qs =~= seq![y] + qs2);
    }
}

/// Inserting `x` at `j` keeps a sorted sequence sorted when `x` is above everything
/// before `j` and below everything from `j` on.
pub proof fn lemma_insert_sorted(ps: Seq<int>, j: int, x: int, lt: spec_fn(int, int) -> bool)
    requires
        0 <= j <= ps.len(),
        sorted_by(ps, lt),
        forall|k: int| 0 <= k < j ==> #[trigger] lt(ps[k], x),
        forall|k: int| j <= k < ps.len() ==> #[trigger] lt(x, ps[k]),
    ensures
        sorted_by(ps.insert(j, x), lt),
{
    let qs = ps.insert(j, x);
    assert forall|a: int, b: int| 0 <= a < b < qs.len() implies #[trigger] lt(qs[a], qs[b]) by {
        if b < j {
            assert(lt(ps[a], ps[b]));
        } else if b == j {
            assert(lt(ps[a], x));
        } else if a < j {
            assert(lt(ps[a], ps[b - 1]));
        } else if a == j {
            assert(lt(x, ps[b - 1]));
        } else {
            assert(lt(ps[a - 1], ps[b - 1]));
        }
    }
}

} // verus!
