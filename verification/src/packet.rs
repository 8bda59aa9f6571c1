//! The data carried through the overlay: source-routed packets and their
//! mathematical views.
//!
//! Every packet type is a plain value; the views replace each `Vec` by a
//! `Seq` so that contracts can speak of the contents mathematically.

use vstd::prelude::*;

verus! {

/// Identifier of a node in the overlay fabric.
pub type NodeId = u8;

/// What kind of node a path-trace entry names.
#[derive(Clone, Copy, PartialEq, Eq, Debug, Structural)]
pub enum NodeType {
    Client,
    Drone,
    Server,
}

/// Why a packet could not be delivered along its source route.
#[derive(Clone, Copy, PartialEq, Eq, Debug, Structural)]
pub enum NackType {
    ErrorInRouting(NodeId),
    DestinationIsDrone,
    Dropped,
    UnexpectedRecipient(NodeId),
}

/// A source route: the ordered list of node ids a packet traverses, plus a
/// cursor naming the position of the node currently holding the packet.
#[derive(Clone, PartialEq, Eq, Debug)]
pub struct SourceRoutingHeader {
    pub hop_index: usize,
    pub hops: Vec<NodeId>,
}

/// Mathematical view of a `SourceRoutingHeader`.
#[verifier::ext_equal]
pub struct HeaderView {
    pub hop_index: nat,
    pub hops: Seq<NodeId>,
}

impl View for SourceRoutingHeader {
    type V = HeaderView;

    open spec fn view(&self) -> HeaderView {
        HeaderView { hop_index: self.hop_index as nat, hops: self.hops@ }
    }
}

/// A droppable slice of application payload.
#[derive(Clone, PartialEq, Eq, Debug)]
pub struct Fragment {
    pub fragment_index: u64,
    pub total_n_fragments: u64,
    pub length: u8,
    pub data: Vec<u8>,
}

/// Mathematical view of a `Fragment`.
#[verifier::ext_equal]
pub struct FragmentView {
    pub fragment_index: u64,
    pub total_n_fragments: u64,
    pub length: u8,
    pub data: Seq<u8>,
}

impl View for Fragment {
    type V = FragmentView;

    open spec fn view(&self) -> FragmentView {
        FragmentView {
            fragment_index: self.fragment_index,
            total_n_fragments: self.total_n_fragments,
            length: self.length,
            data: self.data@,
        }
    }
}

/// Positive acknowledgment of one fragment.
#[derive(Clone, Copy, PartialEq, Eq, Debug, Structural)]
pub struct Ack {
    pub fragment_index: u64,
}

/// Negative acknowledgment of one fragment, with its cause.
#[derive(Clone, Copy, PartialEq, Eq, Debug, Structural)]
pub struct Nack {
    pub fragment_index: u64,
    pub nack_type: NackType,
}

/// A network-discovery probe, flooded through the fabric.
#[derive(Clone, PartialEq, Eq, Debug)]
pub struct FloodRequest {
    pub flood_id: u64,
    pub initiator_id: NodeId,
    pub path_trace: Vec<(NodeId, NodeType)>,
}

/// Mathematical view of a `FloodRequest`.
#[verifier::ext_equal]
pub struct FloodRequestView {
    pub flood_id: u64,
    pub initiator_id: NodeId,
    pub path_trace: Seq<(NodeId, NodeType)>,
}

impl View for FloodRequest {
    type V = FloodRequestView;

    open spec fn view(&self) -> FloodRequestView {
        FloodRequestView {
            flood_id: self.flood_id,
            initiator_id: self.initiator_id,
            path_trace: self.path_trace@,
        }
    }
}

/// The answer to a flood probe, returned toward the initiator.
#[derive(Clone, PartialEq, Eq, Debug)]
pub struct FloodResponse {
    pub flood_id: u64,
    pub path_trace: Vec<(NodeId, NodeType)>,
}

/// Mathematical view of a `FloodResponse`.
#[verifier::ext_equal]
pub struct FloodResponseView {
    pub flood_id: u64,
    pub path_trace: Seq<(NodeId, NodeType)>,
}

impl View for FloodResponse {
    type V = FloodResponseView;

    open spec fn view(&self) -> FloodResponseView {
        FloodResponseView { flood_id: self.flood_id, path_trace: self.path_trace@ }
    }
}

/// The tagged payload of a packet.
#[derive(Clone, PartialEq, Eq, Debug)]
pub enum PacketType {
    MsgFragment(Fragment),
    Ack(Ack),
    Nack(Nack),
    FloodRequest(FloodRequest),
    FloodResponse(FloodResponse),
}

/// Mathematical view of a `PacketType`.
#[verifier::ext_equal]
pub enum PacketTypeView {
    MsgFragment(FragmentView),
    Ack(Ack),
    Nack(Nack),
    FloodRequest(FloodRequestView),
    FloodResponse(FloodResponseView),
}

impl View for PacketType {
    type V = PacketTypeView;

    open spec fn view(&self) -> PacketTypeView {
        match self {
            PacketType::MsgFragment(f) => PacketTypeView::MsgFragment(f@),
            PacketType::Ack(a) => PacketTypeView::Ack(*a),
            PacketType::Nack(n) => PacketTypeView::Nack(*n),
            PacketType::FloodRequest(r) => PacketTypeView::FloodRequest(r@),
            PacketType::FloodResponse(r) => PacketTypeView::FloodResponse(r@),
        }
    }
}

/// One unit of traffic: a source route, a session tag, and a payload.
#[derive(Clone, PartialEq, Eq, Debug)]
pub struct Packet {
    pub routing_header: SourceRoutingHeader,
    pub session_id: u64,
    pub pack_type: PacketType,
}

/// Mathematical view of a `Packet`.
#[verifier::ext_equal]
pub struct PacketView {
    pub routing_header: HeaderView,
    pub session_id: u64,
    pub pack_type: PacketTypeView,
}

impl View for Packet {
    type V = PacketView;

    open spec fn view(&self) -> PacketView {
        PacketView {
            routing_header: self.routing_header@,
            session_id: self.session_id,
            pack_type: self.pack_type@,
        }
    }
}

/// Copy a vector of plain values element by element.
fn copy_vec<T: Copy>(v: &Vec<T>) -> (r: Vec<T>)
    ensures
        r@ == v@,
{
    let mut r: Vec<T> = Vec::new();
    let mut i: usize = 0;
    while i < v.len()
        invariant
            i <= v@.len(),
            r@.len() == i,
            forall|m: int| 0 <= m < i ==> r@[m] == v@[m],
        decreases v@.len() - i,
    {
        r.push(v[i]);
        i += 1;
    }
    proof {
        assert(r@ =~= v@);
    }
    r
}

impl SourceRoutingHeader {
    /// A fresh header with the same cursor and route.
    pub fn duplicate(&self) -> (r: Self)
        ensures
            r@ == self@,
    {
        SourceRoutingHeader { hop_index: self.hop_index, hops: copy_vec(&self.hops) }
    }
}

impl Packet {
    /// A fresh packet equal to this one, for sending the same packet to
    /// several neighbors.
    pub fn duplicate(&self) -> (r: Self)
        ensures
            r@ == self@,
    {
        let pack_type = match &self.pack_type {
            PacketType::MsgFragment(f) => PacketType::MsgFragment(
                Fragment {
                    fragment_index: f.fragment_index,
                    total_n_fragments: f.total_n_fragments,
                    length: f.length,
                    data: copy_vec(&f.data),
                },
            ),
            PacketType::Ack(a) => PacketType::Ack(*a),
            PacketType::Nack(n) => PacketType::Nack(*n),
            PacketType::FloodRequest(r) => PacketType::FloodRequest(
                FloodRequest {
                    flood_id: r.flood_id,
                    initiator_id: r.initiator_id,
                    path_trace: copy_vec(&r.path_trace),
                },
            ),
            PacketType::FloodResponse(r) => PacketType::FloodResponse(
                FloodResponse { flood_id: r.flood_id, path_trace: copy_vec(&r.path_trace) },
            ),
        };
        let r = Packet {
            routing_header: self.routing_header.duplicate(),
            session_id: self.session_id,
            pack_type,
        };
        proof {
            assert(r@ =~~= self@);
        }
        r
    }
}

} // verus!
