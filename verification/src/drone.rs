//! The executable drone and its verified packet-handling state machine.

use vstd::prelude::*;

use crate::control::Action;
use crate::control::ActionView;
use crate::control::DroneCommand;
use crate::control::DroneEvent;
use crate::control::DroneState;
use crate::control::EventView;
use crate::control::PDR_UNIT;
use crate::control::acts_view;
use crate::control::acts_view_index;
use crate::control::acts_view_len;
use crate::helper::get_hop;
use crate::helper::get_next_hop;
use crate::helper::simplify_hops;
use crate::model::DroneView;
use crate::model::advance;
use crate::model::broadcast_actions;
use crate::model::command_state;
use crate::model::drop_actions;
use crate::model::extended_trace;
use crate::model::flood_actions;
use crate::model::flood_sender;
use crate::model::flood_state;
use crate::model::nack_packet;
use crate::model::nack_path;
use crate::model::nack_prefix_len;
use crate::model::next_hop;
use crate::model::recede;
use crate::model::request_packet;
use crate::model::response_packet;
use crate::model::route_check;
use crate::model::send_failure_actions;
use crate::model::step_actions;
use crate::model::step_state;
use crate::model::trace_ids;
use crate::model::wf;
use crate::packet::FloodRequest;
use crate::packet::FloodResponse;
use crate::packet::Nack;
use crate::packet::NackType;
use crate::packet::NodeId;
use crate::packet::NodeType;
use crate::packet::Packet;
use crate::packet::PacketType;
use crate::packet::PacketTypeView;
use crate::packet::SourceRoutingHeader;

verus! {

broadcast use acts_view_len, acts_view_index;

/// A drone node: a forwarding actor of the overlay.
///
/// The drone holds no channels itself; its caller owns the egress handles
/// and performs the [`Action`]s each handler returns, as described on
/// [`Action`].
pub struct LockheedRustin {
    id: NodeId,
    pdr: u32,
    neighbors: Vec<NodeId>,
    flood_cache: Vec<(NodeId, u64)>,
    state: DroneState,
}

impl View for LockheedRustin {
    type V = DroneView;

    closed spec fn view(&self) -> DroneView {
        DroneView {
            id: self.id,
            pdr: self.pdr,
            neighbors: self.neighbors@,
            flood_cache: self.flood_cache@.to_set(),
            state: self.state,
        }
    }
}

/// Relies on `rand::Rng::gen_range` (on the generator of
/// `rand::thread_rng`): a sample, uniform over the half-open range
/// `0..PDR_UNIT`, which is never empty; nothing is assumed beyond the
/// sample lying in the range.
#[verifier::external_body]
fn sample_drop_draw() -> (r: u32)
    ensures
        r < PDR_UNIT,
{
    rand::Rng::gen_range(&mut rand::thread_rng(), 0..PDR_UNIT)
}

impl LockheedRustin {
    /// Construct a drone in the `Created` state with the given drop rate
    /// (clamped into range) and neighbor ids (first registration wins).
    pub fn new(id: NodeId, pdr: u32, neighbors: Vec<NodeId>) -> (drone: Self)
        ensures
            drone@.id == id,
            drone@.pdr == if pdr <= PDR_UNIT { pdr as int } else { PDR_UNIT as int },
            drone@.state is Created,
            drone@.flood_cache =~= Set::<(NodeId, u64)>::empty(),
            drone@.neighbors == crate::model::dedup_ids(neighbors@),
            forall|n: NodeId| drone@.neighbors.contains(n) <==> neighbors@.contains(n),
            wf(drone@),
    {
        let clamped = if pdr <= PDR_UNIT {
            pdr
        } else {
            PDR_UNIT
        };
        let mut uniq: Vec<NodeId> = Vec::new();
        let mut i: usize = 0;
        while i < neighbors.len()
            invariant
                i <= neighbors@.len(),
                uniq@ == crate::model::dedup_ids(neighbors@.take(i as int)),
            decreases neighbors@.len() - i,
        {
            let n = neighbors[i];
            if !contains_id(&uniq, n) {
                uniq.push(n);
            }
            proof {
                assert(neighbors@.take(i + 1).drop_last() =~= neighbors@.take(i as int));
                assert(neighbors@.take(i + 1).last() == n);
            }
            i += 1;
        }
        proof {
            assert(neighbors@.take(neighbors@.len() as int) =~= neighbors@);
            crate::model::lemma_dedup_ids(neighbors@);
        }
        LockheedRustin {
            id,
            pdr: clamped,
            neighbors: uniq,
            flood_cache: Vec::new(),
            state: DroneState::Created,
        }
    }

    /// Enter the event loop: the drone is now `Running`.
    pub fn start(&mut self)
        ensures
            final(self)@ == (DroneView { state: DroneState::Running, ..old(self)@ }),
    {
        self.state = DroneState::Running;
    }

    /// Apply one controller command: register or unregister a neighbor,
    /// update the drop rate (clamped into `[0, PDR_UNIT]`), or start the
    /// crash wind-down. A command never touches the flood cache.
    pub fn handle_command(&mut self, command: DroneCommand)
        ensures
            final(self)@ == command_state(old(self)@, command),
            wf(old(self)@) ==> wf(final(self)@),
    {
        match command {
            DroneCommand::AddSender(n) => {
                if !contains_id(&self.neighbors, n) {
                    self.neighbors.push(n);
                    proof {
                        assert forall|a: int, b: int|
                            0 <= a < b < self.neighbors@.len() && wf(old(self)@) implies
                            self.neighbors@[a] != self.neighbors@[b] by {
                            if b == self.neighbors@.len() - 1 {
                                assert(self.neighbors@[a] == old(self).neighbors@[a]);
                            }
                        }
                    }
                }
                proof {
                    assert(self@ =~= command_state(old(self)@, command));
                }
            },
            DroneCommand::RemoveSender(n) => {
                let len = self.neighbors.len();
                let mut i: usize = 0;
                while i < len
                    invariant
                        i <= len,
                        command == DroneCommand::RemoveSender(n),
                        self@ == old(self)@,
                        len == self.neighbors@.len(),
                        forall|m: int| 0 <= m < i ==> self.neighbors@[m] != n,
                    decreases len - i,
                {
                    if self.neighbors[i] == n {
                        self.neighbors.remove(i);
                        proof {
                            old(self).neighbors@.index_of_first_ensures(n);
                            assert(old(self).neighbors@[i as int] == n);
                            assert(old(self).neighbors@.index_of_first(n) == Some(i as int));
                            if wf(old(self)@) {
                                old(self).neighbors@.remove_ensures(i as int);
                                assert forall|a: int, b: int|
                                    0 <= a < b < self.neighbors@.len() implies
                                    self.neighbors@[a] != self.neighbors@[b] by {
                                    let s = old(self).neighbors@;
                                    if b < i {
                                        assert(s.remove(i as int)[a] == s[a]);
                                        assert(s.remove(i as int)[b] == s[b]);
                                    } else if a < i {
                                        assert(s.remove(i as int)[a] == s[a]);
                                        assert(s.remove(i as int)[b] == s[b + 1]);
                                    } else {
                                        assert(s.remove(i as int)[a] == s[a + 1]);
                                        assert(s.remove(i as int)[b] == s[b + 1]);
                                    }
                                }
                            }
                            assert(self@ =~= command_state(old(self)@, command));
                        }
                        return;
                    }
                    i += 1;
                }
                proof {
                    old(self).neighbors@.index_of_first_ensures(n);
                    if old(self).neighbors@.contains(n) {
                        let w = choose|w: int|
                            0 <= w < old(self).neighbors@.len()
                                && #[trigger] old(self).neighbors@[w] == n;
                        assert(false);
                    }
                    assert(self@ =~= command_state(old(self)@, command));
                }
            },
            DroneCommand::SetPacketDropRate(p) => {
                self.pdr = if p <= PDR_UNIT {
                    p
                } else {
                    PDR_UNIT
                };
                proof {
                    assert(self@ =~= command_state(old(self)@, command));
                }
            },
            DroneCommand::Crash => {
                self.state = DroneState::Crashed;
                proof {
                    assert(self@ =~= command_state(old(self)@, command));
                }
            },
        }
    }

    /// Validate a header: the cursor must name this drone, a next hop
    /// must exist, and the next hop must be a registered neighbor.
    pub fn check_routing(&self, header: &SourceRoutingHeader) -> (r: Result<NodeId, NackType>)
        ensures
            r == route_check(self@.id, self@.neighbors, header@),
    {
        match get_hop(header) {
            Some(hop) => if hop == self.id {
                match get_next_hop(header) {
                    Some(next) => if self.has_neighbor(next) {
                        Ok(next)
                    } else {
                        Err(NackType::ErrorInRouting(next))
                    },
                    None => Err(NackType::DestinationIsDrone),
                }
            } else {
                Err(NackType::UnexpectedRecipient(self.id))
            },
            None => Err(NackType::UnexpectedRecipient(self.id)),
        }
    }

    /// Advance the cursor and hand the packet to `next`'s egress.
    fn forward(&self, next: NodeId, packet: Packet) -> (actions: Vec<Action>)
        requires
            next_hop(packet@.routing_header) == Some(next),
        ensures
            acts_view(actions@) == seq![ActionView::Forward(next, advance(packet@))],
    {
        let ghost p0 = packet@;
        let mut packet = packet;
        let route_len = packet.routing_header.hops.len();
        proof {
            assert(packet.routing_header.hop_index + 1 < route_len);
        }
        packet.routing_header.hop_index = packet.routing_header.hop_index + 1;
        let mut actions: Vec<Action> = Vec::new();
        actions.push(Action::Forward(next, packet));
        proof {
            assert(actions@[0]@ =~~= ActionView::Forward(next, advance(p0)));
            assert(acts_view(actions@) =~= seq![ActionView::Forward(next, advance(p0))]);
        }
        actions
    }

    /// Answer a packet that could not be delivered: a fragment with a
    /// negative acknowledgment along the reverse path (or a silent discard
    /// when no reverse path exists), anything else with a controller
    /// shortcut.
    fn handle_drop(&self, packet: Packet, cause: NackType) -> (actions: Vec<Action>)
        ensures
            acts_view(actions@) == drop_actions(self@, packet@, cause),
    {
        let ghost p0 = packet@;
        match &packet.pack_type {
            PacketType::MsgFragment(f) => {
                let ghost f0 = f@;
                let fragment_index = f.fragment_index;
                let session_id = packet.session_id;
                let h_len = packet.routing_header.hops.len();
                let k = if packet.routing_header.hop_index < h_len {
                    packet.routing_header.hop_index + 1
                } else {
                    h_len
                };
                if k < 2 {
                    let actions: Vec<Action> = Vec::new();
                    proof {
                        assert(acts_view(actions@) =~= drop_actions(self@, p0, cause));
                    }
                    return actions;
                }
                let mut path: Vec<NodeId> = Vec::new();
                path.push(self.id);
                let mut j: usize = 1;
                while j < k
                    invariant
                        1 <= j <= k,
                        k == nack_prefix_len(p0.routing_header),
                        2 <= k <= p0.routing_header.hops.len(),
                        packet@ == p0,
                        self@.id == path@[0],
                        path@.len() == j,
                        forall|m: int|
                            1 <= m < j ==> path@[m] == p0.routing_header.hops[k - 1 - m],
                    decreases k - j,
                {
                    path.push(packet.routing_header.hops[k - 1 - j]);
                    j += 1;
                }
                proof {
                    assert(path@ =~= nack_path(self@.id, p0.routing_header));
                }
                let next = path[1];
                let neighbor_ok = self.has_neighbor(next);
                let mut actions: Vec<Action> = Vec::new();
                if matches!(cause, NackType::Dropped) {
                    actions.push(Action::Event(DroneEvent::PacketDropped(packet)));
                }
                let nack = Packet {
                    routing_header: SourceRoutingHeader { hop_index: 0, hops: path },
                    session_id,
                    pack_type: PacketType::Nack(Nack { fragment_index, nack_type: cause }),
                };
                let ghost nackv = nack@;
                proof {
                    assert(nackv =~~= nack_packet(self@.id, p0, fragment_index, cause));
                }
                let ghost pre = actions@;
                let ghost spec_acts = drop_actions(self@, p0, cause);
                proof {
                    assert(p0.pack_type == PacketTypeView::MsgFragment(f0));
                    if cause is Dropped {
                        assert(pre[0]@ == ActionView::Event(EventView::PacketDropped(p0)));
                    }
                }
                if neighbor_ok {
                    let mut fw = self.forward(next, nack);
                    let ghost fwv = fw@;
                    actions.append(&mut fw);
                    proof {
                        let fwd_act = ActionView::Forward(next, advance(nackv));
                        assert(acts_view(fwv).len() == 1);
                        assert(fwv.len() == 1);
                        assert(acts_view(fwv)[0] == fwd_act);
                        assert(fwv[0]@ == fwd_act);
                        assert(spec_acts.len() == pre.len() + 1);
                        assert forall|i: int| 0 <= i < actions@.len() implies acts_view(
                            actions@,
                        )[i] == spec_acts[i] by {
                            assert(acts_view(actions@)[i] == actions@[i]@);
                            if i < pre.len() {
                                assert(actions@[i] == pre[i]);
                            } else {
                                assert(actions@[i] == fwv[0]);
                            }
                        }
                        assert(acts_view(actions@) =~= spec_acts);
                    }
                } else {
                    actions.push(Action::Event(DroneEvent::ControllerShortcut(nack)));
                    proof {
                        let sc_act = ActionView::Event(EventView::ControllerShortcut(nackv));
                        assert(spec_acts.len() == pre.len() + 1);
                        assert forall|i: int| 0 <= i < actions@.len() implies acts_view(
                            actions@,
                        )[i] == spec_acts[i] by {
                            assert(acts_view(actions@)[i] == actions@[i]@);
                            if i < pre.len() {
                                assert(actions@[i] == pre[i]);
                            } else {
                                assert(actions@[i]@ == sc_act);
                            }
                        }
                        assert(acts_view(actions@) =~= spec_acts);
                    }
                }
                actions
            },
            _ => {
                let mut actions: Vec<Action> = Vec::new();
                actions.push(Action::Event(DroneEvent::ControllerShortcut(packet)));
                proof {
                    assert(acts_view(actions@) =~= drop_actions(self@, p0, cause));
                }
                actions
            },
        }
    }

    /// Handle a flood request: remember its `(initiator, flood)` pair,
    /// extend the path trace with this drone's entry, and either answer a
    /// duplicate or terminal-branch request with a flood response or
    /// re-broadcast a novel one to every neighbor but the sender.
    fn handle_flood_request(&mut self, request: FloodRequest, session_id: u64) -> (actions: Vec<
        Action,
    >)
        ensures
            final(self)@ == flood_state(old(self)@, request@),
            acts_view(actions@) == flood_actions(old(self)@, request@, session_id),
    {
        broadcast use crate::model::trace_ids_len, crate::model::trace_ids_index;

        let ghost req0 = request@;
        let ghost v0 = self@;
        let mut request = request;
        let sender = if request.path_trace.len() == 0 {
            request.initiator_id
        } else {
            request.path_trace[request.path_trace.len() - 1].0
        };
        request.path_trace.push((self.id, NodeType::Drone));
        let initiator_id = request.initiator_id;
        let flood_id = request.flood_id;
        proof {
            assert(sender == flood_sender(req0));
            assert(request@.path_trace == extended_trace(v0.id, req0));
        }
        let seen = self.flood_seen(initiator_id, flood_id);
        if !seen {
            self.flood_cache.push((initiator_id, flood_id));
        }
        proof {
            broadcast use vstd::seq_lib::lemma_seq_contains_after_push;

            assert(self@.flood_cache =~= v0.flood_cache.insert((initiator_id, flood_id)));
            assert(self@ =~= flood_state(v0, req0));
        }
        let terminal = self.neighbors.len() == 1 && self.neighbors[0] == sender;
        proof {
            assert((seen || terminal) == crate::model::flood_responds(v0, req0));
        }
        if seen || terminal {
            let trace_len = request.path_trace.len();
            let mut hops: Vec<NodeId> = Vec::new();
            let mut i: usize = 0;
            while i < trace_len
                invariant
                    i <= trace_len,
                    trace_len == request@.path_trace.len(),
                    hops@.len() == i,
                    forall|m: int|
                        0 <= m < i ==> hops@[m] == request@.path_trace[trace_len - 1 - m].0,
                decreases trace_len - i,
            {
                hops.push(request.path_trace[trace_len - 1 - i].0);
                i += 1;
            }
            let ghost ids = trace_ids(extended_trace(v0.id, req0)).reverse();
            proof {
                assert(hops@ =~= ids);
            }
            if hops[hops.len() - 1] != request.initiator_id {
                hops.push(request.initiator_id);
            }
            let ghost full = if ids.last() == req0.initiator_id {
                ids
            } else {
                ids.push(req0.initiator_id)
            };
            proof {
                assert(hops@ =~= full);
            }
            simplify_hops(&mut hops);
            proof {
                assert(hops@ == crate::model::response_hops(v0.id, req0));
            }
            let resp = Packet {
                routing_header: SourceRoutingHeader { hop_index: 0, hops },
                session_id,
                pack_type: PacketType::FloodResponse(
                    FloodResponse { flood_id, path_trace: request.path_trace },
                ),
            };
            let ghost respv = resp@;
            proof {
                assert(respv =~~= response_packet(v0.id, req0, session_id));
            }
            let route_ok = if resp.routing_header.hops.len() >= 2 {
                self.has_neighbor(resp.routing_header.hops[1])
            } else {
                false
            };
            if route_ok {
                let nx = resp.routing_header.hops[1];
                let actions = self.forward(nx, resp);
                proof {
                    assert(acts_view(actions@) =~= flood_actions(v0, req0, session_id));
                }
                actions
            } else {
                let mut actions: Vec<Action> = Vec::new();
                actions.push(Action::Event(DroneEvent::ControllerShortcut(resp)));
                proof {
                    assert(acts_view(actions@) =~= flood_actions(v0, req0, session_id));
                }
                actions
            }
        } else {
            let bpkt = Packet {
                routing_header: SourceRoutingHeader { hop_index: 0, hops: Vec::new() },
                session_id,
                pack_type: PacketType::FloodRequest(request),
            };
            let ghost bv = bpkt@;
            proof {
                assert(bv =~~= request_packet(v0.id, req0, session_id));
            }
            let mut actions: Vec<Action> = Vec::new();
            let n_count = self.neighbors.len();
            let mut i: usize = 0;
            while i < n_count
                invariant
                    i <= n_count,
                    n_count == self@.neighbors.len(),
                    self@.neighbors == v0.neighbors,
                    bpkt@ == bv,
                    bv == request_packet(v0.id, req0, session_id),
                    sender == flood_sender(req0),
                    acts_view(actions@) == broadcast_actions(
                        v0.neighbors.take(i as int),
                        sender,
                        bv,
                    ),
                decreases n_count - i,
            {
                let n = self.neighbors[i];
                let ghost pre = actions@;
                if n != sender {
                    actions.push(Action::Flood(n, bpkt.duplicate()));
                }
                proof {
                    assert(v0.neighbors.take(i + 1).drop_last() =~= v0.neighbors.take(i as int));
                    assert(v0.neighbors.take(i + 1).last() == v0.neighbors[i as int]);
                    if n != sender {
                        assert(acts_view(actions@) =~= acts_view(pre).push(
                            ActionView::Flood(n, bv),
                        ));
                    }
                }
                i += 1;
            }
            proof {
                assert(v0.neighbors.take(n_count as int) =~= v0.neighbors);
                assert(acts_view(actions@) == flood_actions(v0, req0, session_id));
            }
            actions
        }
    }

    /// Take back a packet whose `Forward` send failed because the egress
    /// had closed: the cursor is moved back to its pre-send value and the
    /// packet is treated as undeliverable with the vanished neighbor as
    /// the cause.
    pub fn handle_send_failure(&self, packet: Packet, dest: NodeId) -> (actions: Vec<Action>)
        requires
            packet@.routing_header.hop_index >= 1,
        ensures
            acts_view(actions@) == send_failure_actions(self@, packet@, dest),
    {
        let ghost p0 = packet@;
        let mut packet = packet;
        packet.routing_header.hop_index = packet.routing_header.hop_index - 1;
        proof {
            assert(packet@ =~~= recede(p0));
        }
        self.handle_drop(packet, NackType::ErrorInRouting(dest))
    }

    /// Handle one inbound packet, with the drop-lottery draw given
    /// explicitly: the drone changes state and emits actions exactly as
    /// the model's transition function prescribes.
    pub fn handle_packet_with_draw(&mut self, packet: Packet, draw: u32) -> (actions: Vec<Action>)
        ensures
            final(self)@ == step_state(old(self)@, packet@),
            acts_view(actions@) == step_actions(old(self)@, packet@, draw),
    {
        let ghost p0 = packet@;
        let ghost v0 = self@;
        if !self.is_crashed() {
            if matches!(&packet.pack_type, PacketType::MsgFragment(_)) {
                match self.check_routing(&packet.routing_header) {
                    Ok(next) => if draw < self.pdr {
                        self.handle_drop(packet, NackType::Dropped)
                    } else {
                        self.forward(next, packet)
                    },
                    Err(cause) => self.handle_drop(packet, cause),
                }
            } else if matches!(&packet.pack_type, PacketType::FloodRequest(_)) {
                let session_id = packet.session_id;
                match packet.pack_type {
                    PacketType::FloodRequest(req) => self.handle_flood_request(req, session_id),
                    _ => vstd::pervasive::unreached(),
                }
            } else {
                match self.check_routing(&packet.routing_header) {
                    Ok(next) => self.forward(next, packet),
                    Err(_) => {
                        let mut actions: Vec<Action> = Vec::new();
                        actions.push(Action::Event(DroneEvent::ControllerShortcut(packet)));
                        proof {
                            assert(acts_view(actions@) =~= step_actions(v0, p0, draw));
                        }
                        actions
                    },
                }
            }
        } else {
            if matches!(&packet.pack_type, PacketType::MsgFragment(_)) {
                let cause = match get_hop(&packet.routing_header) {
                    Some(hop) => if hop == self.id {
                        NackType::ErrorInRouting(self.id)
                    } else {
                        NackType::UnexpectedRecipient(self.id)
                    },
                    None => NackType::UnexpectedRecipient(self.id),
                };
                self.handle_drop(packet, cause)
            } else {
                let mut actions: Vec<Action> = Vec::new();
                actions.push(Action::Event(DroneEvent::ControllerShortcut(packet)));
                proof {
                    assert(acts_view(actions@) =~= step_actions(v0, p0, draw));
                }
                actions
            }
        }
    }

    /// Handle one inbound packet: draw the drop lottery and proceed as
    /// `handle_packet_with_draw` does. Which way the lottery went is not
    /// promised — only that the drone followed the model under some
    /// in-range draw; with `pdr == 0` no valid-routed fragment is ever
    /// dropped, and with `pdr == PDR_UNIT` every one is.
    pub fn handle_packet(&mut self, packet: Packet) -> (actions: Vec<Action>)
        ensures
            final(self)@ == step_state(old(self)@, packet@),
            exists|draw: u32|
                draw < PDR_UNIT && acts_view(actions@) == #[trigger] step_actions(
                    old(self)@,
                    packet@,
                    draw,
                ),
    {
        let ghost p0 = packet@;
        let ghost v0 = self@;
        let draw = sample_drop_draw();
        let actions = self.handle_packet_with_draw(packet, draw);
        proof {
            assert(draw < PDR_UNIT && acts_view(actions@) == step_actions(v0, p0, draw));
        }
        actions
    }

    /// This drone's id.
    pub fn id(&self) -> (r: NodeId)
        ensures
            r == self@.id,
    {
        self.id
    }

    /// The current drop rate, as a numerator over `PDR_UNIT`.
    pub fn pdr(&self) -> (r: u32)
        ensures
            r == self@.pdr,
    {
        self.pdr
    }

    /// Whether the drone has received `Crash`.
    pub fn is_crashed(&self) -> (r: bool)
        ensures
            r == (self@.state is Crashed),
    {
        matches!(self.state, DroneState::Crashed)
    }

    /// Whether `n` is a registered neighbor.
    pub fn has_neighbor(&self, n: NodeId) -> (r: bool)
        ensures
            r == self@.neighbors.contains(n),
    {
        contains_id(&self.neighbors, n)
    }

    /// Whether a flood identified by `(initiator_id, flood_id)` has been
    /// seen before.
    pub fn flood_seen(&self, initiator_id: NodeId, flood_id: u64) -> (r: bool)
        ensures
            r == self@.flood_cache.contains((initiator_id, flood_id)),
    {
        let mut i: usize = 0;
        while i < self.flood_cache.len()
            invariant
                i <= self.flood_cache@.len(),
                forall|m: int|
                    0 <= m < i ==> self.flood_cache@[m] != (initiator_id, flood_id),
            decreases self.flood_cache@.len() - i,
        {
            let entry = self.flood_cache[i];
            if entry.0 == initiator_id && entry.1 == flood_id {
                return true;
            }
            i += 1;
        }
        false
    }
}

/// Whether `x` occurs in `v`.
fn contains_id(v: &Vec<NodeId>, x: NodeId) -> (r: bool)
    ensures
        r == v@.contains(x),
{
    let mut i: usize = 0;
    while i < v.len()
        invariant
            i <= v@.len(),
            forall|m: int| 0 <= m < i ==> v@[m] != x,
        decreases v@.len() - i,
    {
        if v[i] == x {
            return true;
        }
        i += 1;
    }
    false
}

} // verus!
