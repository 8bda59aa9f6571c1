//! The drone's state machine, stated mathematically.
//!
//! [`DroneView`] abstracts a drone's state; [`step_state`] and
//! [`step_actions`] give, for one inbound packet, the next state and the
//! outbound actions; [`command_state`] does the same for a controller
//! command. The executable drone is verified to follow these functions
//! exactly, so every property proved of them holds of the running code.

use vstd::prelude::*;

use crate::control::ActionView;
use crate::control::DroneCommand;
use crate::control::DroneState;
use crate::control::EventView;
use crate::control::PDR_UNIT;
use crate::packet::FloodRequestView;
use crate::packet::FloodResponseView;
use crate::packet::HeaderView;
use crate::packet::NackType;
use crate::packet::Nack;
use crate::packet::NodeId;
use crate::packet::NodeType;
use crate::packet::PacketTypeView;
use crate::packet::PacketView;

verus! {

/// Mathematical view of a drone's state.
///
/// `neighbors` keeps the ids of the nodes the drone holds an egress for,
/// in registration order; `flood_cache` is the set of `(initiator, flood)`
/// pairs already seen; `pdr` is the drop rate as a numerator over
/// `PDR_UNIT`.
#[verifier::ext_equal]
pub struct DroneView {
    pub id: NodeId,
    pub pdr: u32,
    pub neighbors: Seq<NodeId>,
    pub flood_cache: Set<(NodeId, u64)>,
    pub state: DroneState,
}

/// A drone's state is well formed: the drop rate is in range and no
/// neighbor is registered twice.
pub open spec fn wf(v: DroneView) -> bool {
    &&& v.pdr <= PDR_UNIT
    &&& forall|i: int, j: int|
        0 <= i < j < v.neighbors.len() ==> v.neighbors[i] != v.neighbors[j]
}

/// The given ids with duplicates dropped: the first occurrence of each id
/// is kept, in order.
pub open spec fn dedup_ids(s: Seq<NodeId>) -> Seq<NodeId>
    decreases s.len(),
{
    if s.len() == 0 {
        Seq::<NodeId>::empty()
    } else {
        let rest = dedup_ids(s.drop_last());
        if rest.contains(s.last()) {
            rest
        } else {
            rest.push(s.last())
        }
    }
}

/// Dropping duplicates keeps exactly the ids that were there, each once.
pub proof fn lemma_dedup_ids(s: Seq<NodeId>)
    ensures
        forall|n: NodeId| #[trigger] dedup_ids(s).contains(n) <==> s.contains(n),
        forall|a: int, b: int|
            0 <= a < b < dedup_ids(s).len() ==> dedup_ids(s)[a] != dedup_ids(s)[b],
    decreases s.len(),
{
    broadcast use vstd::seq_lib::lemma_seq_contains_after_push;

    if s.len() > 0 {
        lemma_dedup_ids(s.drop_last());
        let rest = dedup_ids(s.drop_last());
        let x = s.last();
        assert forall|n: NodeId| #[trigger] dedup_ids(s).contains(n) implies s.contains(n) by {
            if n == x {
                assert(s[s.len() - 1] == n);
            } else {
                assert(rest.contains(n));
                assert(s.drop_last().contains(n));
                let w = choose|w: int|
                    0 <= w < s.drop_last().len() && #[trigger] s.drop_last()[w] == n;
                assert(s[w] == n);
            }
        }
        assert forall|n: NodeId| s.contains(n) implies #[trigger] dedup_ids(s).contains(n) by {
            let w = choose|w: int| 0 <= w < s.len() && #[trigger] s[w] == n;
            if w < s.len() - 1 {
                assert(s.drop_last()[w] == n);
                assert(s.drop_last().contains(n));
            } else {
                if rest.contains(x) {
                } else {
                    assert(dedup_ids(s)[rest.len() as int] == x);
                }
            }
        }
    }
}

/// The node named by the header's cursor, if the cursor is in range.
pub open spec fn current_hop(h: HeaderView) -> Option<NodeId> {
    if h.hop_index < h.hops.len() {
        Some(h.hops[h.hop_index as int])
    } else {
        None
    }
}

/// The node after the cursor, if there is one.
pub open spec fn next_hop(h: HeaderView) -> Option<NodeId> {
    if h.hop_index + 1 < h.hops.len() {
        Some(h.hops[h.hop_index as int + 1])
    } else {
        None
    }
}

/// The routing check: the cursor must name this drone, a next hop must
/// exist, and the next hop must be a registered neighbor.
pub open spec fn route_check(
    id: NodeId,
    neighbors: Seq<NodeId>,
    h: HeaderView,
) -> Result<NodeId, NackType> {
    if current_hop(h) != Some(id) {
        Err(NackType::UnexpectedRecipient(id))
    } else {
        match next_hop(h) {
            Some(next) => if neighbors.contains(next) {
                Ok(next)
            } else {
                Err(NackType::ErrorInRouting(next))
            },
            None => Err(NackType::DestinationIsDrone),
        }
    }
}

/// The packet as it goes onto the wire: the hop cursor advanced by one.
pub open spec fn advance(p: PacketView) -> PacketView {
    PacketView {
        routing_header: HeaderView {
            hop_index: p.routing_header.hop_index + 1,
            hops: p.routing_header.hops,
        },
        ..p
    }
}

/// The packet as it was before going onto the wire: the hop cursor moved
/// back by one.
pub open spec fn recede(p: PacketView) -> PacketView
    recommends
        p.routing_header.hop_index >= 1,
{
    PacketView {
        routing_header: HeaderView {
            hop_index: (p.routing_header.hop_index - 1) as nat,
            hops: p.routing_header.hops,
        },
        ..p
    }
}

/// How much of the original route a reverse path covers: the hops up to
/// and including the cursor, capped at the route's length.
pub open spec fn nack_prefix_len(h: HeaderView) -> nat {
    if h.hop_index + 1 <= h.hops.len() {
        h.hop_index + 1
    } else {
        h.hops.len()
    }
}

/// The reverse path of a negative acknowledgment: the covered prefix of
/// the route, reversed, with its first entry overwritten by this drone's
/// id (which repairs the path when the packet reached the wrong node).
pub open spec fn nack_path(id: NodeId, h: HeaderView) -> Seq<NodeId>
    recommends
        nack_prefix_len(h) >= 1,
{
    h.hops.take(nack_prefix_len(h) as int).reverse().update(0, id)
}

/// The negative acknowledgment built for a failed fragment: reverse path,
/// cursor at the start, session tag copied from the original.
pub open spec fn nack_packet(
    id: NodeId,
    p: PacketView,
    fragment_index: u64,
    cause: NackType,
) -> PacketView {
    PacketView {
        routing_header: HeaderView { hop_index: 0, hops: nack_path(id, p.routing_header) },
        session_id: p.session_id,
        pack_type: PacketTypeView::Nack(Nack { fragment_index, nack_type: cause }),
    }
}

/// What a drone does with a packet it cannot deliver, given the cause.
///
/// A fragment is answered with a negative acknowledgment along the reverse
/// path — preceded by a `PacketDropped` report when the cause is the drop
/// lottery — unless the reverse path is too short to name a first hop, in
/// which case the fragment is discarded silently. When the reverse path's
/// first hop is not a neighbor, the packet was malformed with respect to
/// the current topology and the acknowledgment goes to the controller as
/// a shortcut instead. Every other packet type is handed to the
/// controller as a shortcut.
pub open spec fn drop_actions(v: DroneView, p: PacketView, cause: NackType) -> Seq<ActionView> {
    match p.pack_type {
        PacketTypeView::MsgFragment(frag) => {
            if nack_prefix_len(p.routing_header) < 2 {
                Seq::<ActionView>::empty()
            } else {
                let path = nack_path(v.id, p.routing_header);
                let next = path[1];
                let nack = nack_packet(v.id, p, frag.fragment_index, cause);
                let dropped: Seq<ActionView> = if cause is Dropped {
                    seq![ActionView::Event(EventView::PacketDropped(p))]
                } else {
                    Seq::<ActionView>::empty()
                };
                if v.neighbors.contains(next) {
                    dropped.push(ActionView::Forward(next, advance(nack)))
                } else {
                    dropped.push(ActionView::Event(EventView::ControllerShortcut(nack)))
                }
            }
        },
        _ => seq![ActionView::Event(EventView::ControllerShortcut(p))],
    }
}

/// What a running drone does with a fragment: forward it when the route
/// checks out and the drop lottery (`draw < pdr`) spares it, otherwise
/// answer with a negative acknowledgment.
pub open spec fn fragment_actions(v: DroneView, p: PacketView, draw: u32) -> Seq<ActionView> {
    match route_check(v.id, v.neighbors, p.routing_header) {
        Ok(next) => if draw < v.pdr {
            drop_actions(v, p, NackType::Dropped)
        } else {
            seq![ActionView::Forward(next, advance(p))]
        },
        Err(cause) => drop_actions(v, p, cause),
    }
}

/// What a running drone does with a non-droppable, source-routed packet:
/// forward it when the route checks out, otherwise ask the controller to
/// splice it through.
pub open spec fn other_actions(v: DroneView, p: PacketView) -> Seq<ActionView> {
    match route_check(v.id, v.neighbors, p.routing_header) {
        Ok(next) => seq![ActionView::Forward(next, advance(p))],
        Err(_) => seq![ActionView::Event(EventView::ControllerShortcut(p))],
    }
}

/// What a crashed drone does with a packet: a fragment is answered with a
/// negative acknowledgment (the drone can no longer forward), anything
/// else goes to the controller as a shortcut.
pub open spec fn crashed_actions(v: DroneView, p: PacketView) -> Seq<ActionView> {
    match p.pack_type {
        PacketTypeView::MsgFragment(_) => {
            let cause = if current_hop(p.routing_header) == Some(v.id) {
                NackType::ErrorInRouting(v.id)
            } else {
                NackType::UnexpectedRecipient(v.id)
            };
            drop_actions(v, p, cause)
        },
        _ => seq![ActionView::Event(EventView::ControllerShortcut(p))],
    }
}

/// The node a flood request arrived from: the last path-trace entry, or
/// the initiator when the trace is still empty.
pub open spec fn flood_sender(req: FloodRequestView) -> NodeId {
    if req.path_trace.len() == 0 {
        req.initiator_id
    } else {
        req.path_trace.last().0
    }
}

/// The request's path trace with this drone's entry appended.
pub open spec fn extended_trace(id: NodeId, req: FloodRequestView) -> Seq<(NodeId, NodeType)> {
    req.path_trace.push((id, NodeType::Drone))
}

/// The position of the last occurrence of `x` in `s`, or `-1` when `x`
/// does not occur.
pub open spec fn last_occurrence(s: Seq<NodeId>, x: NodeId) -> int
    decreases s.len(),
{
    if s.len() == 0 {
        -1
    } else if s.last() == x {
        s.len() - 1
    } else {
        last_occurrence(s.drop_last(), x)
    }
}

/// `last_occurrence` returns exactly the position after which `x` no
/// longer occurs.
pub proof fn lemma_last_occurrence(s: Seq<NodeId>, x: NodeId, j: int)
    requires
        0 <= j < s.len(),
        s[j] == x,
        forall|m: int| j < m < s.len() ==> s[m] != x,
    ensures
        last_occurrence(s, x) == j,
    decreases s.len(),
{
    if j < s.len() - 1 {
        assert(s.last() != x);
        assert(s.drop_last()[j] == x);
        assert(forall|m: int| j < m < s.drop_last().len() ==> s.drop_last()[m] != x);
        lemma_last_occurrence(s.drop_last(), x, j);
    }
}

/// Path simplification: keep the suffix that starts at the last occurrence
/// of the first entry, collapsing the loop left when a flood entered and
/// returned through the same drone.
pub open spec fn simplified(s: Seq<NodeId>) -> Seq<NodeId>
    recommends
        s.len() > 0,
{
    s.skip(last_occurrence(s, s[0]))
}

/// The node ids of a path trace, in order.
pub open spec fn trace_ids(tr: Seq<(NodeId, NodeType)>) -> Seq<NodeId> {
    tr.map_values(|pr: (NodeId, NodeType)| pr.0)
}

/// A trace's id list is as long as the trace.
pub broadcast proof fn trace_ids_len(tr: Seq<(NodeId, NodeType)>)
    ensures
        #[trigger] trace_ids(tr).len() == tr.len(),
{
}

/// A trace's id list, taken one entry at a time.
pub broadcast proof fn trace_ids_index(tr: Seq<(NodeId, NodeType)>, i: int)
    requires
        0 <= i < tr.len(),
    ensures
        #[trigger] trace_ids(tr)[i] == tr[i].0,
{
}

/// The route of a flood response: the extended trace's ids reversed, the
/// initiator appended when the trace does not already end there, then
/// simplified.
pub open spec fn response_hops(id: NodeId, req: FloodRequestView) -> Seq<NodeId> {
    let ids = trace_ids(extended_trace(id, req)).reverse();
    let full = if ids.last() == req.initiator_id {
        ids
    } else {
        ids.push(req.initiator_id)
    };
    simplified(full)
}

/// The flood response a drone synthesizes: the extended trace, routed back
/// toward the initiator with the cursor at the start.
pub open spec fn response_packet(id: NodeId, req: FloodRequestView, session_id: u64) -> PacketView {
    PacketView {
        routing_header: HeaderView { hop_index: 0, hops: response_hops(id, req) },
        session_id,
        pack_type: PacketTypeView::FloodResponse(
            FloodResponseView { flood_id: req.flood_id, path_trace: extended_trace(id, req) },
        ),
    }
}

/// The flood request a drone re-broadcasts: the extended trace under an
/// empty route (floods are not source-routed).
pub open spec fn request_packet(id: NodeId, req: FloodRequestView, session_id: u64) -> PacketView {
    PacketView {
        routing_header: HeaderView { hop_index: 0, hops: Seq::<NodeId>::empty() },
        session_id,
        pack_type: PacketTypeView::FloodRequest(
            FloodRequestView {
                flood_id: req.flood_id,
                initiator_id: req.initiator_id,
                path_trace: extended_trace(id, req),
            },
        ),
    }
}

/// One broadcast send per neighbor, in registration order, skipping the
/// neighbor the request arrived from.
pub open spec fn broadcast_actions(
    neighbors: Seq<NodeId>,
    sender: NodeId,
    p: PacketView,
) -> Seq<ActionView>
    decreases neighbors.len(),
{
    if neighbors.len() == 0 {
        Seq::<ActionView>::empty()
    } else {
        let rest = broadcast_actions(neighbors.drop_last(), sender, p);
        if neighbors.last() == sender {
            rest
        } else {
            rest.push(ActionView::Flood(neighbors.last(), p))
        }
    }
}

/// Whether a flood request is answered rather than re-broadcast: it was
/// seen before, or the drone's only neighbor is the one it came from.
pub open spec fn flood_responds(v: DroneView, req: FloodRequestView) -> bool {
    ||| v.flood_cache.contains((req.initiator_id, req.flood_id))
    ||| (v.neighbors.len() == 1 && v.neighbors[0] == flood_sender(req))
}

/// What a running drone does with a flood request: answer a duplicate or
/// terminal-branch request with a flood response along the simplified
/// reverse route (to the controller as a shortcut when that route's first
/// hop is missing or not a neighbor), and re-broadcast a novel one to
/// every neighbor but the sender.
pub open spec fn flood_actions(
    v: DroneView,
    req: FloodRequestView,
    session_id: u64,
) -> Seq<ActionView> {
    let sender = flood_sender(req);
    if flood_responds(v, req) {
        let resp = response_packet(v.id, req, session_id);
        let hops = resp.routing_header.hops;
        if hops.len() >= 2 && v.neighbors.contains(hops[1]) {
            seq![ActionView::Forward(hops[1], advance(resp))]
        } else {
            seq![ActionView::Event(EventView::ControllerShortcut(resp))]
        }
    } else {
        broadcast_actions(v.neighbors, sender, request_packet(v.id, req, session_id))
    }
}

/// The state after a flood request: its `(initiator, flood)` pair is
/// remembered.
pub open spec fn flood_state(v: DroneView, req: FloodRequestView) -> DroneView {
    DroneView { flood_cache: v.flood_cache.insert((req.initiator_id, req.flood_id)), ..v }
}

/// The state after one inbound packet: only a flood request handled while
/// not crashed changes anything, and it only grows the flood cache.
pub open spec fn step_state(v: DroneView, p: PacketView) -> DroneView {
    match p.pack_type {
        PacketTypeView::FloodRequest(req) => if v.state !is Crashed {
            flood_state(v, req)
        } else {
            v
        },
        _ => v,
    }
}

/// The actions emitted for one inbound packet, given the drop-lottery
/// draw used if the packet is a valid-routed fragment.
pub open spec fn step_actions(v: DroneView, p: PacketView, draw: u32) -> Seq<ActionView> {
    if v.state is Crashed {
        crashed_actions(v, p)
    } else {
        match p.pack_type {
            PacketTypeView::MsgFragment(_) => fragment_actions(v, p, draw),
            PacketTypeView::FloodRequest(req) => flood_actions(v, req, p.session_id),
            _ => other_actions(v, p),
        }
    }
}

/// The actions emitted when a `Forward` send failed because the egress
/// had closed: the packet's cursor is moved back to its pre-send value
/// and the packet is treated as dropped with the unreachable hop as the
/// cause.
pub open spec fn send_failure_actions(
    v: DroneView,
    p: PacketView,
    dest: NodeId,
) -> Seq<ActionView>
    recommends
        p.routing_header.hop_index >= 1,
{
    drop_actions(v, recede(p), NackType::ErrorInRouting(dest))
}

/// The state after one controller command.
pub open spec fn command_state(v: DroneView, c: DroneCommand) -> DroneView {
    match c {
        DroneCommand::AddSender(n) => if v.neighbors.contains(n) {
            v
        } else {
            DroneView { neighbors: v.neighbors.push(n), ..v }
        },
        DroneCommand::RemoveSender(n) => DroneView {
            neighbors: v.neighbors.remove_value(n),
            ..v
        },
        DroneCommand::SetPacketDropRate(p) => DroneView {
            pdr: if p <= PDR_UNIT {
                p
            } else {
                PDR_UNIT
            },
            ..v
        },
        DroneCommand::Crash => DroneView { state: DroneState::Crashed, ..v },
    }
}

} // verus!
