//! Commands from the simulation controller, events reported back to it,
//! and the outbound actions a drone asks its caller to perform.

use vstd::prelude::*;

use crate::packet::NodeId;
use crate::packet::Packet;
use crate::packet::PacketView;

verus! {

/// Granularity of the packet-drop rate: a rate is a numerator over this
/// denominator, so `0` never drops and `PDR_UNIT` always drops.
pub const PDR_UNIT: u32 = 1_000_000;

/// An out-of-band instruction from the simulation controller.
///
/// `AddSender(n)` registers `n` as a neighbor (the caller keeps the egress
/// handle itself); `RemoveSender(n)` unregisters it; `SetPacketDropRate(p)`
/// sets the drop rate to `p` clamped into `[0, PDR_UNIT]`; `Crash` starts
/// the shutdown wind-down.
#[derive(Clone, Copy, PartialEq, Eq, Debug, Structural)]
pub enum DroneCommand {
    AddSender(NodeId),
    RemoveSender(NodeId),
    SetPacketDropRate(u32),
    Crash,
}

/// Where a drone is in its lifecycle.
#[derive(Clone, Copy, PartialEq, Eq, Debug, Structural)]
pub enum DroneState {
    Created,
    Running,
    Crashed,
}

/// A report to the simulation controller.
#[derive(Clone, PartialEq, Eq, Debug)]
pub enum DroneEvent {
    PacketSent(Packet),
    PacketDropped(Packet),
    ControllerShortcut(Packet),
}

/// Mathematical view of a `DroneEvent`.
#[verifier::ext_equal]
pub enum EventView {
    PacketSent(PacketView),
    PacketDropped(PacketView),
    ControllerShortcut(PacketView),
}

impl View for DroneEvent {
    type V = EventView;

    open spec fn view(&self) -> EventView {
        match self {
            DroneEvent::PacketSent(p) => EventView::PacketSent(p@),
            DroneEvent::PacketDropped(p) => EventView::PacketDropped(p@),
            DroneEvent::ControllerShortcut(p) => EventView::ControllerShortcut(p@),
        }
    }
}

/// An outbound effect the caller performs on the drone's behalf.
///
/// `Forward(dest, p)` sends `p` (its hop cursor already advanced) on the
/// egress of neighbor `dest`; on success the caller reports
/// `DroneEvent::PacketSent(p)` to the controller, and on failure it hands
/// `p` back through `LockheedRustin::handle_send_failure`. `Flood(dest, p)`
/// is a broadcast send: the same on success, but a failure is skipped
/// silently. `Event(e)` is a best-effort report to the controller; its
/// failure is ignored.
#[derive(Clone, PartialEq, Eq, Debug)]
pub enum Action {
    Forward(NodeId, Packet),
    Flood(NodeId, Packet),
    Event(DroneEvent),
}

/// Mathematical view of an `Action`.
#[verifier::ext_equal]
pub enum ActionView {
    Forward(NodeId, PacketView),
    Flood(NodeId, PacketView),
    Event(EventView),
}

impl View for Action {
    type V = ActionView;

    open spec fn view(&self) -> ActionView {
        match self {
            Action::Forward(dest, p) => ActionView::Forward(*dest, p@),
            Action::Flood(dest, p) => ActionView::Flood(*dest, p@),
            Action::Event(e) => ActionView::Event(e@),
        }
    }
}

/// The views of a list of actions, in order.
pub open spec fn acts_view(s: Seq<Action>) -> Seq<ActionView> {
    s.map_values(|a: Action| a@)
}

/// A list's views are as long as the list.
pub broadcast proof fn acts_view_len(s: Seq<Action>)
    ensures
        #[trigger] acts_view(s).len() == s.len(),
{
}

/// The views of a list of actions, taken one at a time.
pub broadcast proof fn acts_view_index(s: Seq<Action>, i: int)
    requires
        0 <= i < s.len(),
    ensures
        #[trigger] acts_view(s)[i] == s[i]@,
{
}

} // verus!
