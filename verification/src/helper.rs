//! Small routing helpers on source-routing headers.

use vstd::prelude::*;

use crate::model::current_hop;
use crate::model::last_occurrence;
use crate::model::lemma_last_occurrence;
use crate::model::next_hop;
use crate::model::simplified;
use crate::packet::NodeId;
use crate::packet::SourceRoutingHeader;

verus! {

/// The id of the node the header's cursor currently names, if any.
pub fn get_hop(header: &SourceRoutingHeader) -> (r: Option<NodeId>)
    ensures
        r == current_hop(header@),
{
    if header.hop_index < header.hops.len() {
        Some(header.hops[header.hop_index])
    } else {
        None
    }
}

/// The id of the node after the cursor, if there is one.
pub fn get_next_hop(header: &SourceRoutingHeader) -> (r: Option<NodeId>)
    ensures
        r == next_hop(header@),
{
    if header.hops.len() > 0 && header.hop_index < header.hops.len() - 1 {
        Some(header.hops[header.hop_index + 1])
    } else {
        None
    }
}

/// The position of the last occurrence of `x` in `hops`, for a list known
/// to start with `x`.
fn rposition_of(hops: &Vec<NodeId>, x: NodeId) -> (j: usize)
    requires
        hops@.len() > 0,
        hops@[0] == x,
    ensures
        j == last_occurrence(hops@, x),
        j < hops@.len(),
        hops@[j as int] == x,
{
    let mut j: usize = 0;
    let mut i: usize = 1;
    while i < hops.len()
        invariant
            0 < i <= hops@.len(),
            j < i,
            hops@[j as int] == x,
            forall|m: int| j < m < i ==> hops@[m] != x,
        decreases hops@.len() - i,
    {
        if hops[i] == x {
            j = i;
        }
        i += 1;
    }
    proof {
        lemma_last_occurrence(hops@, x, j as int);
    }
    j
}

/// Path simplification for a flood-response route: drop everything before
/// the last occurrence of the first entry, so the route begins at the
/// furthest point the responding drone appears and proceeds outward.
pub fn simplify_hops(hops: &mut Vec<NodeId>)
    requires
        old(hops)@.len() > 0,
    ensures
        final(hops)@ == simplified(old(hops)@),
{
    let src = hops[0];
    let j = rposition_of(hops, src);
    let mut out: Vec<NodeId> = Vec::new();
    let mut i: usize = j;
    while i < hops.len()
        invariant
            j <= i <= hops@.len(),
            out@.len() == i - j,
            forall|m: int| 0 <= m < out@.len() ==> out@[m] == hops@[j + m],
            hops@ == old(hops)@,
            j == last_occurrence(hops@, hops@[0]),
        decreases hops@.len() - i,
    {
        out.push(hops[i]);
        i += 1;
    }
    proof {
        assert(out@ =~= simplified(old(hops)@));
    }
    *hops = out;
}

} // verus!
