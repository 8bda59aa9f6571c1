//! Laws of the drone's state machine, proved once for all states, packets
//! and draws. Because every handler of [`crate::LockheedRustin`] is
//! verified to follow the transition functions of [`crate::model`], each
//! law here holds of the running drone.

use vstd::prelude::*;

use crate::control::ActionView;
use crate::control::DroneCommand;
use crate::control::EventView;
use crate::control::PDR_UNIT;
use crate::model::DroneView;
use crate::model::advance;
use crate::model::broadcast_actions;
use crate::model::command_state;
use crate::model::crashed_actions;
use crate::model::drop_actions;
use crate::model::flood_actions;
use crate::model::flood_responds;
use crate::model::flood_sender;
use crate::model::flood_state;
use crate::model::nack_path;
use crate::model::nack_prefix_len;
use crate::model::route_check;
use crate::model::step_actions;
use crate::model::step_state;
use crate::model::wf;
use crate::packet::FloodRequestView;
use crate::packet::NackType;
use crate::packet::NodeId;
use crate::packet::PacketTypeView;
use crate::packet::PacketView;

verus! {

/// The drop rate stays in `[0, PDR_UNIT]` and the neighbor list stays
/// duplicate-free under every controller command.
pub proof fn lemma_command_preserves_wf(v: DroneView, c: DroneCommand)
    requires
        wf(v),
    ensures
        wf(command_state(v, c)),
        command_state(v, c).pdr <= PDR_UNIT,
{
    match c {
        DroneCommand::AddSender(n) => {
            if !v.neighbors.contains(n) {
                let s = v.neighbors.push(n);
                assert forall|i: int, j: int| 0 <= i < j < s.len() implies s[i] != s[j] by {
                    if j == s.len() - 1 {
                        if s[i] == n {
                            assert(v.neighbors[i] == n);
                            assert(v.neighbors.contains(n));
                        }
                    }
                }
            }
        },
        DroneCommand::RemoveSender(n) => {
            v.neighbors.index_of_first_ensures(n);
            match v.neighbors.index_of_first(n) {
                Some(idx) => {
                    v.neighbors.remove_ensures(idx);
                    let s = v.neighbors.remove(idx);
                    assert forall|i: int, j: int| 0 <= i < j < s.len() implies s[i] != s[j] by {
                        if j < idx {
                            assert(s[i] == v.neighbors[i]);
                            assert(s[j] == v.neighbors[j]);
                        } else if i < idx {
                            assert(s[i] == v.neighbors[i]);
                            assert(s[j] == v.neighbors[j + 1]);
                        } else {
                            assert(s[i] == v.neighbors[i + 1]);
                            assert(s[j] == v.neighbors[j + 1]);
                        }
                    }
                },
                None => {},
            }
        },
        _ => {},
    }
}

/// The state after a sequence of controller commands, applied in order.
pub open spec fn commands_state(v: DroneView, cs: Seq<DroneCommand>) -> DroneView
    decreases cs.len(),
{
    if cs.len() == 0 {
        v
    } else {
        command_state(commands_state(v, cs.drop_last()), cs.last())
    }
}

/// After any sequence of controller commands the drop rate still lies in
/// `[0, PDR_UNIT]`, and the state stays well formed.
pub proof fn lemma_commands_preserve_wf(v: DroneView, cs: Seq<DroneCommand>)
    requires
        wf(v),
    ensures
        wf(commands_state(v, cs)),
        commands_state(v, cs).pdr <= PDR_UNIT,
    decreases cs.len(),
{
    if cs.len() > 0 {
        lemma_commands_preserve_wf(v, cs.drop_last());
        lemma_command_preserves_wf(commands_state(v, cs.drop_last()), cs.last());
    }
}

/// Handling a packet never touches the drop rate or the neighbor list:
/// well-formedness survives every step.
pub proof fn lemma_step_preserves_wf(v: DroneView, p: PacketView)
    requires
        wf(v),
    ensures
        wf(step_state(v, p)),
{
}

/// The reverse path of a negative acknowledgment retraces exactly the
/// covered prefix of the original route: entry `i` of the path is entry
/// `k - 1 - i` of the route (for `k` covered hops), and entry `0` is the
/// answering drone itself.
pub proof fn lemma_nack_path_shape(id: NodeId, h: crate::packet::HeaderView)
    requires
        nack_prefix_len(h) >= 1,
    ensures
        nack_path(id, h).len() == nack_prefix_len(h),
        nack_path(id, h)[0] == id,
        forall|i: int|
            1 <= i < nack_prefix_len(h) ==> nack_path(id, h)[i] == h.hops[nack_prefix_len(h) - 1
                - i],
{
}

/// Reverse-path construction composed with the forward path is the
/// identity on the covered prefix, up to the overwrite at entry `0`:
/// reversing the acknowledgment's path gives back the covered prefix of
/// the route with only its last entry replaced by the answering drone.
pub proof fn lemma_reverse_round_trip(id: NodeId, h: crate::packet::HeaderView)
    requires
        nack_prefix_len(h) >= 1,
    ensures
        nack_path(id, h).reverse() =~= h.hops.take(nack_prefix_len(h) as int).update(
            nack_prefix_len(h) - 1,
            id,
        ),
{
    lemma_nack_path_shape(id, h);
}

/// The acknowledgment answering a fragment starts at the answering drone
/// and retraces in reverse exactly the route prefix the fragment had
/// covered, up to the overwrite at entry `0`. It is built with its cursor
/// at the start; when its first hop is a neighbor it leaves through the
/// forwarder (cursor advanced to one), otherwise it goes to the
/// controller as a shortcut, its cause unchanged.
pub proof fn lemma_nack_shape(v: DroneView, p: PacketView, cause: NackType)
    requires
        p.pack_type is MsgFragment,
        nack_prefix_len(p.routing_header) >= 2,
    ensures
        ({
            let k = nack_prefix_len(p.routing_header);
            let path = nack_path(v.id, p.routing_header);
            let acts = drop_actions(v, p, cause);
            &&& acts.len() >= 1
            &&& path.len() == k
            &&& path[0] == v.id
            &&& forall|i: int| 1 <= i < k ==> path[i] == p.routing_header.hops[k - 1 - i]
            &&& match acts[acts.len() - 1] {
                ActionView::Forward(dest, q) => {
                    &&& v.neighbors.contains(path[1])
                    &&& dest == path[1]
                    &&& q.routing_header.hops == path
                    &&& q.routing_header.hop_index == 1
                    &&& q.session_id == p.session_id
                    &&& q.pack_type matches PacketTypeView::Nack(nk) && nk.nack_type == cause
                },
                ActionView::Event(e) => e matches EventView::ControllerShortcut(q) && {
                    &&& !v.neighbors.contains(path[1])
                    &&& q.routing_header.hops == path
                    &&& q.routing_header.hop_index == 0
                    &&& q.session_id == p.session_id
                    &&& q.pack_type matches PacketTypeView::Nack(nk) && nk.nack_type == cause
                },
                _ => false,
            }
        }),
{
    lemma_nack_path_shape(v.id, p.routing_header);
}

/// Every element of a broadcast is a `Flood` of the given packet, to a
/// registered neighbor other than the sender.
pub proof fn lemma_broadcast_members(
    neighbors: Seq<NodeId>,
    sender: NodeId,
    p: PacketView,
    i: int,
)
    requires
        0 <= i < broadcast_actions(neighbors, sender, p).len(),
    ensures
        broadcast_actions(neighbors, sender, p)[i] matches ActionView::Flood(dest, q) && dest
            != sender && neighbors.contains(dest) && q == p,
    decreases neighbors.len(),
{
    let acts = broadcast_actions(neighbors, sender, p);
    let rest = broadcast_actions(neighbors.drop_last(), sender, p);
    if i < rest.len() {
        lemma_broadcast_members(neighbors.drop_last(), sender, p, i);
        let dest = match rest[i] {
            ActionView::Flood(dest, _) => dest,
            _ => sender,
        };
        let w = choose|w: int|
            0 <= w < neighbors.drop_last().len() && #[trigger] neighbors.drop_last()[w] == dest;
        assert(neighbors[w] == dest);
    } else {
        assert(neighbors.last() != sender);
        assert(acts[i] == ActionView::Flood(neighbors.last(), p));
        assert(neighbors[neighbors.len() - 1] == neighbors.last());
    }
}

/// A flood request is never sent back to the neighbor it came from, and
/// only ever to registered neighbors.
pub proof fn lemma_flood_skips_sender(
    v: DroneView,
    req: FloodRequestView,
    session_id: u64,
    i: int,
)
    requires
        0 <= i < flood_actions(v, req, session_id).len(),
        flood_actions(v, req, session_id)[i] is Flood,
    ensures
        flood_actions(v, req, session_id)[i] matches ActionView::Flood(dest, _) && dest
            != flood_sender(req) && v.neighbors.contains(dest),
{
    if !flood_responds(v, req) {
        lemma_broadcast_members(v.neighbors, flood_sender(req), crate::model::request_packet(
            v.id,
            req,
            session_id,
        ), i);
    }
}

/// Handling a flood request always leaves its `(initiator, flood)` pair in
/// the cache, and a pair already in the cache is never broadcast again:
/// the drone re-broadcasts each flood at most once, answering every later
/// appearance with a flood response.
pub proof fn lemma_flood_at_most_once(v: DroneView, req: FloodRequestView, session_id: u64)
    ensures
        flood_state(v, req).flood_cache.contains((req.initiator_id, req.flood_id)),
        v.flood_cache.contains((req.initiator_id, req.flood_id)) ==> {
            let acts = flood_actions(v, req, session_id);
            &&& forall|i: int| 0 <= i < acts.len() ==> !(#[trigger] acts[i] is Flood)
            &&& acts.len() == 1
            &&& match acts[0] {
                ActionView::Forward(_, q) => q.pack_type is FloodResponse,
                ActionView::Event(e) => e matches EventView::ControllerShortcut(q)
                    && q.pack_type is FloodResponse,
                _ => false,
            }
        },
{
}

/// A crashed drone never sends a message fragment: every send it still
/// emits is a negative acknowledgment, and it never broadcasts. With the
/// caller reporting `PacketSent` only for performed sends, a crashed
/// drone therefore produces no `PacketSent` for any fragment.
pub proof fn lemma_crashed_sends_no_fragment(v: DroneView, p: PacketView, draw: u32, i: int)
    requires
        v.state is Crashed,
        0 <= i < step_actions(v, p, draw).len(),
    ensures
        !(step_actions(v, p, draw)[i] is Flood),
        step_actions(v, p, draw)[i] matches ActionView::Forward(_, q) ==> q.pack_type is Nack,
        step_actions(v, p, draw)[i] matches ActionView::Event(e) ==> !(e is PacketSent),
{
    assert(step_actions(v, p, draw) == crashed_actions(v, p));
}

/// Every `Forward` the drone ever emits carries a packet whose cursor
/// was just advanced onto its destination — the cursor is at least one,
/// it names the destination, and the destination is a registered
/// neighbor.
pub proof fn lemma_forward_targets(v: DroneView, p: PacketView, draw: u32, i: int)
    requires
        0 <= i < step_actions(v, p, draw).len(),
        step_actions(v, p, draw)[i] is Forward,
    ensures
        step_actions(v, p, draw)[i] matches ActionView::Forward(dest, q) && {
            let h = q.routing_header;
            &&& h.hop_index >= 1
            &&& h.hop_index < h.hops.len()
            &&& h.hops[h.hop_index as int] == dest
            &&& v.neighbors.contains(dest)
        },
{
    if v.state is Crashed {
        if p.pack_type is MsgFragment {
            let cause = if crate::model::current_hop(p.routing_header) == Some(v.id) {
                NackType::ErrorInRouting(v.id)
            } else {
                NackType::UnexpectedRecipient(v.id)
            };
            assert(step_actions(v, p, draw) == drop_actions(v, p, cause));
            lemma_drop_forward_targets(v, p, cause, i);
        }
    } else {
        match p.pack_type {
            PacketTypeView::MsgFragment(_) => {
                match route_check(v.id, v.neighbors, p.routing_header) {
                    Ok(next) => {
                        if draw < v.pdr {
                            lemma_drop_forward_targets(v, p, NackType::Dropped, i);
                        }
                    },
                    Err(cause) => {
                        lemma_drop_forward_targets(v, p, cause, i);
                    },
                }
            },
            PacketTypeView::FloodRequest(req) => {
                if !flood_responds(v, req) {
                    lemma_broadcast_members(v.neighbors, flood_sender(req),
                        crate::model::request_packet(v.id, req, p.session_id), i);
                }
            },
            _ => {},
        }
    }
}

/// In the drop path, a `Forward` (if any) carries the acknowledgment,
/// cursor advanced onto the reverse path's first hop, which is a
/// neighbor.
proof fn lemma_drop_forward_targets(v: DroneView, p: PacketView, cause: NackType, i: int)
    requires
        0 <= i < drop_actions(v, p, cause).len(),
        drop_actions(v, p, cause)[i] is Forward,
    ensures
        drop_actions(v, p, cause)[i] matches ActionView::Forward(dest, q) && {
            let h = q.routing_header;
            &&& h.hop_index >= 1
            &&& h.hop_index < h.hops.len()
            &&& h.hops[h.hop_index as int] == dest
            &&& v.neighbors.contains(dest)
        },
{
    if p.pack_type is MsgFragment && nack_prefix_len(p.routing_header) >= 2 {
        lemma_nack_path_shape(v.id, p.routing_header);
    }
}

/// Under a valid route and a sparing draw, a packet is forwarded exactly
/// once, to the route's next hop, with its route unchanged and its cursor
/// advanced by one.
pub proof fn lemma_forward_advances(v: DroneView, p: PacketView, draw: u32, next: NodeId)
    requires
        v.state !is Crashed,
        !(p.pack_type is FloodRequest),
        route_check(v.id, v.neighbors, p.routing_header) == Ok::<NodeId, NackType>(next),
        p.pack_type is MsgFragment ==> draw >= v.pdr,
    ensures
        step_actions(v, p, draw) =~= seq![ActionView::Forward(next, advance(p))],
        advance(p).routing_header.hops == p.routing_header.hops,
        advance(p).routing_header.hop_index == p.routing_header.hop_index + 1,
        advance(p).routing_header.hops[p.routing_header.hop_index as int + 1] == next,
        step_state(v, p) == v,
{
}

/// The flood cache only ever grows: nothing a packet does can make the
/// drone forget a `(initiator, flood)` pair it has seen.
pub proof fn lemma_cache_monotone(v: DroneView, p: PacketView)
    ensures
        v.flood_cache.subset_of(step_state(v, p).flood_cache),
{
}

/// Duplicate delivery is idempotent: handling the same packet a second
/// time leaves the state exactly where the first handling put it.
pub proof fn lemma_step_idempotent(v: DroneView, p: PacketView)
    ensures
        step_state(step_state(v, p), p) == step_state(v, p),
{
    assert(step_state(step_state(v, p), p) =~~= step_state(v, p));
}

/// The state after handling the same packet `n` times.
pub open spec fn steps_state(v: DroneView, p: PacketView, n: nat) -> DroneView
    decreases n,
{
    if n == 0 {
        v
    } else {
        step_state(steps_state(v, p, (n - 1) as nat), p)
    }
}

/// The state after `n >= 1` deliveries of the same packet equals the
/// state after one: in particular, `n` duplicates of a flood request
/// leave the flood cache as one delivery left it.
pub proof fn lemma_steps_collapse(v: DroneView, p: PacketView, n: nat)
    requires
        n >= 1,
    ensures
        steps_state(v, p, n) == step_state(v, p),
    decreases n,
{
    if n == 1 {
    } else {
        lemma_steps_collapse(v, p, (n - 1) as nat);
        lemma_step_idempotent(v, p);
    }
}

} // verus!
