//! Offsets in ascending order.

use crate::config::Offset;
use vstd::prelude::*;

verus! {

/// Whether each offset of `s` is below the next.
pub open spec fn is_ascending(s: Seq<Offset>) -> bool {
    forall|i: int, j: int| 0 <= i < j < s.len() ==> s[i] < s[j]
}

/// Whether `s` lists exactly the offsets of `set`, in ascending order.
pub open spec fn lists(s: Seq<Offset>, set: Set<Offset>) -> bool {
    is_ascending(s) && s.to_set() == set
}

/// The offsets of `set` in ascending order.
pub open spec fn ascending(set: Set<Offset>) -> Seq<Offset> {
    choose|s: Seq<Offset>| lists(s, set)
}

/// A set of offsets is listed in ascending order in one way only.
pub proof fn lemma_ascending_unique(a: Seq<Offset>, b: Seq<Offset>)
    requires
        is_ascending(a),
        is_ascending(b),
        a.to_set() == b.to_set(),
    ensures
        a == b,
    decreases a.len(),
{
    if a.len() == 0 {
        if b.len() > 0 {
            assert(b.contains(b[0]));
            assert(b.to_set().contains(b[0]));
            assert(a.contains(b[0]));
        }
        assert(a =~= b);
    } else {
        assert(a.contains(a.last()));
        assert(b.to_set().contains(a.last()));
        assert(b.contains(a.last()));
        assert(b.contains(b.last()));
        assert(a.to_set().contains(b.last()));
        assert(a.contains(b.last()));
        assert(a.last() == b.last());
        let x = a.drop_last();
        let y = b.drop_last();
        assert forall|v: Offset| x.to_set().contains(v) <==> y.to_set().contains(v) by {
            if x.contains(v) {
                let i = choose|i: int| 0 <= i < x.len() && x[i] == v;
                assert(a[i] == v);
                assert(a.contains(v));
                assert(b.to_set().contains(v));
                let j = choose|j: int| 0 <= j < b.len() && b[j] == v;
                assert(j < b.len() - 1);
                assert(y[j] == v);
            }
            if y.contains(v) {
                let j = choose|j: int| 0 <= j < y.len() && y[j] == v;
                assert(b[j] == v);
                assert(b.contains(v));
                assert(a.to_set().contains(v));
                let i = choose|i: int| 0 <= i < a.len() && a[i] == v;
                assert(i < a.len() - 1);
                assert(x[i] == v);
            }
        }
        assert(x.to_set() =~= y.to_set());
        lemma_ascending_unique(x, y);
        assert(a =~= x.push(a.last()));
        assert(b =~= y.push(b.last()));
    }
}

/// A sequence that lists a set in ascending order is the ascending order of
/// that set.
pub proof fn lemma_ascending_is(s: Seq<Offset>, set: Set<Offset>)
    requires
        lists(s, set),
    ensures
        ascending(set) == s,
{
    lemma_ascending_unique(ascending(set), s);
}

/// A finite set of offsets can be listed in ascending order.
pub proof fn lemma_ascending_exists(set: Set<Offset>)
    requires
        set.finite(),
    ensures
        lists(ascending(set), set),
    decreases set.len(),
{
    if set.len() == 0 {
        let s = Seq::<Offset>::empty();
        assert(s.to_set() =~= set);
        assert(lists(s, set));
    } else {
        let top = greatest(set);
        lemma_greatest(set);
        let rest = set.remove(top);
        lemma_ascending_exists(rest);
        let s = ascending(rest).push(top);
        assert forall|i: int, j: int| 0 <= i < j < s.len() implies s[i] < s[j] by {
            if j == s.len() - 1 {
                assert(ascending(rest).contains(s[i]));
                assert(rest.contains(s[i]));
            }
        }
        assert forall|v: Offset| s.to_set().contains(v) <==> set.contains(v) by {
            if s.contains(v) {
                let i = choose|i: int| 0 <= i < s.len() && s[i] == v;
                if i < s.len() - 1 {
                    assert(ascending(rest).contains(v));
                    assert(rest.contains(v));
                }
            }
            if set.contains(v) {
                if v == top {
                    assert(s[s.len() - 1] == v);
                } else {
                    assert(rest.contains(v));
                    assert(ascending(rest).to_set().contains(v));
                    let below = ascending(rest);
                    let i = choose|i: int| 0 <= i < below.len() && below[i] == v;
                    assert(s[i] == v);
                }
            }
        }
        assert(s.to_set() =~= set);
        assert(lists(s, set));
    }
}

/// An offset of `set` that none of its offsets exceeds.
pub open spec fn greatest(set: Set<Offset>) -> Offset {
    choose|top: Offset| set.contains(top) && forall|v: Offset| set.contains(v) ==> v <= top
}

/// A finite set of offsets that is not empty has a greatest offset.
pub proof fn lemma_greatest(set: Set<Offset>)
    requires
        set.finite(),
        set.len() > 0,
    ensures
        set.contains(greatest(set)),
        forall|v: Offset| set.contains(v) ==> v <= greatest(set),
    decreases set.len(),
{
    let some = set.choose();
    let rest = set.remove(some);
    if rest.len() == 0 {
        assert forall|v: Offset| set.contains(v) implies v <= some by {
            if v != some {
                assert(rest.contains(v));
            }
        }
    } else {
        lemma_greatest(rest);
        let top = if greatest(rest) < some {
            some
        } else {
            greatest(rest)
        };
        assert forall|v: Offset| set.contains(v) implies v <= top by {
            if v != some {
                assert(rest.contains(v));
            }
        }
        assert(set.contains(top));
    }
}

} // verus!
