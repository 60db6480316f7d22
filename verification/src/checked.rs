//! The set of checked options.

use vstd::prelude::*;
use std::collections::BTreeSet;
use vstd::std_specs::cmp::OrdSpec;
use vstd::std_specs::iter::IteratorSpec;

verus! {

/// Whether each entry of `indices` is smaller than the entries after it.
pub open spec fn ascending(indices: Seq<usize>) -> bool {
    forall|a: int, b: int| 0 <= a < b < indices.len() ==> indices[a] < indices[b]
}

/// The members of `set`, smallest first.
pub fn ascending_list(set: &BTreeSet<usize>) -> (indices: Vec<usize>)
    ensures
        indices@.to_set() == set@,
        ascending(indices@),
{
    broadcast use vstd::laws_cmp::group_laws_cmp;
    broadcast use vstd::std_specs::btree::group_btree_axioms;

    let mut indices: Vec<usize> = Vec::new();
    let ghost members = set.iter().remaining();
    for index in walk: set.iter()
        invariant
            indices.len() == walk.index(),
            walk.seq() == members,
            forall|k: int| 0 <= k < indices.len() ==> indices[k] == *walk.seq()[k],
    {
        indices.push(*index);
    }
    proof {
        assert(indices@ =~= members.unref());
        assert(vstd::laws_cmp::obeys_cmp::<usize>());
        assert(vstd::laws_cmp::obeys_cmp::<&usize>());
        vstd::std_specs::btree::axiom_increasing_seq_meaning::<&usize>(members);
        assert forall|a: int, b: int| 0 <= a < b < indices.len() implies indices[a]
            < indices[b] by {
            let x: &usize = members[a];
            let y: &usize = members[b];
            assert((&x).cmp_spec(&y) is Less);
        }
    }
    indices
}

} // verus!
