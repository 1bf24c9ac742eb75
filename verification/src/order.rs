//! The offsets of a map, in the order in which the map is walked.

use crate::ascending::{ascending, is_ascending, lemma_ascending_is, lists};
use crate::config::{Offset, OffsetMap};
use vstd::prelude::*;
use vstd::std_specs::btree::increasing_seq;
use vstd::std_specs::cmp::OrdSpec;
use vstd::std_specs::iter::IteratorSpec;

verus! {

/// Keys that a map hands out in increasing order are ascending offsets.
proof fn lemma_increasing_is_ascending(keys: Seq<&Offset>)
    requires
        increasing_seq(keys),
    ensures
        is_ascending(keys.unref()),
{
    let offsets = keys.unref();
    assert forall|i: int, j: int| 0 <= i < j < offsets.len() implies offsets[i] < offsets[j] by {
        let a: &Offset = keys[i];
        let b: &Offset = keys[j];
        assert((&a).cmp_spec(&b) is Less);
    }
}

/// The offsets for which `map` holds a value, in ascending order.
pub fn offsets<T>(map: &OffsetMap<T>) -> (out: Vec<Offset>)
    ensures
        out@ == ascending(map@.dom()),
        lists(out@, map@.dom()),
{
    let mut out: Vec<Offset> = Vec::new();
    let keys = map.keys();
    let ghost walk = keys.remaining();
    let ghost all = walk.unref();
    for offset in it: keys
        invariant
            it.seq().unref() == all,
            out@ == all.take(it.index()),
    {
        assert(all.take(it.index() + 1) =~= all.take(it.index()).push(all[it.index()]));
        out.push(*offset);
    }
    proof {
        assert(out@ =~= all);
        lemma_increasing_is_ascending(walk);
        lemma_ascending_is(all, map@.dom());
    }
    out
}

} // verus!
