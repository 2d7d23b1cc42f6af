//! The packets that travel through the network, and their mathematical models.

use vstd::prelude::*;

verus! {

/// The number of a node of the network.
pub type NodeId = u8;

/// What a node of the network is.
#[derive(Clone, Copy, Debug, PartialEq, Eq, Structural)]
pub enum NodeType {
    Client,
    Drone,
    Server,
}

/// The route of a packet: its hops, and which of them it is at.
#[derive(Debug, PartialEq, Eq)]
pub struct SourceRoutingHeader {
    pub hop_index: usize,
    pub hops: Vec<NodeId>,
}

/// The model of a [`SourceRoutingHeader`].
#[verifier::ext_equal]
pub struct HeaderView {
    pub hop_index: usize,
    pub hops: Seq<NodeId>,
}

impl View for SourceRoutingHeader {
    type V = HeaderView;

    open spec fn view(&self) -> HeaderView {
        HeaderView { hop_index: self.hop_index, hops: self.hops@ }
    }
}

impl HeaderView {
    /// The node that sent the packet: the first hop.
    pub open spec fn source(self) -> Option<NodeId> {
        if self.hops.len() == 0 {
            None
        } else {
            Some(self.hops[0])
        }
    }
}

impl SourceRoutingHeader {
    /// The node that sent the packet: the first hop.
    pub fn source(&self) -> (res: Option<NodeId>)
        ensures
            res == self@.source(),
    {
        if self.hops.len() == 0 {
            None
        } else {
            Some(self.hops[0])
        }
    }
}

impl Clone for SourceRoutingHeader {
    fn clone(&self) -> (res: Self)
        ensures
            res@ == self@,
    {
        SourceRoutingHeader { hop_index: self.hop_index, hops: copy_nodes(&self.hops) }
    }
}

/// One part of a message that was cut into pieces.
#[derive(Clone, Copy, Debug, PartialEq, Eq)]
pub struct Fragment {
    /// The position of this part among the parts of the message.
    pub fragment_index: u64,
    /// How many parts the message has.
    pub total_n_fragments: u64,
    /// How many bytes of `data` are in use.
    pub length: u8,
    pub data: [u8; 128],
}

/// Confirms that a fragment has arrived.
#[derive(Clone, Copy, Debug, PartialEq, Eq, Structural)]
pub struct Ack {
    pub fragment_index: u64,
}

/// Why a fragment has not arrived.
#[derive(Clone, Copy, Debug, PartialEq, Eq, Structural)]
pub enum NackType {
    ErrorInRouting(NodeId),
    DestinationIsDrone,
    Dropped,
    UnexpectedRecipient(NodeId),
}

/// Reports that a fragment has not arrived.
#[derive(Clone, Copy, Debug, PartialEq, Eq, Structural)]
pub struct Nack {
    pub fragment_index: u64,
    pub nack_type: NackType,
}

/// Asks every node that it reaches to report the path that led there.
#[derive(Debug, PartialEq, Eq)]
pub struct FloodRequest {
    pub flood_id: u64,
    pub initiator_id: NodeId,
    pub path_trace: Vec<(NodeId, NodeType)>,
}

/// The model of a [`FloodRequest`].
#[verifier::ext_equal]
pub struct FloodRequestView {
    pub flood_id: u64,
    pub initiator_id: NodeId,
    pub path_trace: Seq<(NodeId, NodeType)>,
}

impl View for FloodRequest {
    type V = FloodRequestView;

    open spec fn view(&self) -> FloodRequestView {
        FloodRequestView {
            flood_id: self.flood_id,
            initiator_id: self.initiator_id,
            path_trace: self.path_trace@,
        }
    }
}

impl Clone for FloodRequest {
    fn clone(&self) -> (res: Self)
        ensures
            res@ == self@,
    {
        FloodRequest {
            flood_id: self.flood_id,
            initiator_id: self.initiator_id,
            path_trace: copy_trace(&self.path_trace),
        }
    }
}

/// Answers a [`FloodRequest`] with the path that it took.
#[derive(Debug, PartialEq, Eq)]
pub struct FloodResponse {
    pub flood_id: u64,
    pub path_trace: Vec<(NodeId, NodeType)>,
}

/// The model of a [`FloodResponse`].
#[verifier::ext_equal]
pub struct FloodResponseView {
    pub flood_id: u64,
    pub path_trace: Seq<(NodeId, NodeType)>,
}

impl View for FloodResponse {
    type V = FloodResponseView;

    open spec fn view(&self) -> FloodResponseView {
        FloodResponseView { flood_id: self.flood_id, path_trace: self.path_trace@ }
    }
}

impl Clone for FloodResponse {
    fn clone(&self) -> (res: Self)
        ensures
            res@ == self@,
    {
        FloodResponse { flood_id: self.flood_id, path_trace: copy_trace(&self.path_trace) }
    }
}

/// What a packet carries.
#[derive(Debug, PartialEq, Eq)]
pub enum PacketType {
    MsgFragment(Fragment),
    Ack(Ack),
    Nack(Nack),
    FloodRequest(FloodRequest),
    FloodResponse(FloodResponse),
}

/// The model of a [`PacketType`].
#[verifier::ext_equal]
pub enum PacketTypeView {
    MsgFragment(Fragment),
    Ack(Ack),
    Nack(Nack),
    FloodRequest(FloodRequestView),
    FloodResponse(FloodResponseView),
}

impl View for PacketType {
    type V = PacketTypeView;

    open spec fn view(&self) -> PacketTypeView {
        match *self {
            PacketType::MsgFragment(fragment) => PacketTypeView::MsgFragment(fragment),
            PacketType::Ack(ack) => PacketTypeView::Ack(ack),
            PacketType::Nack(nack) => PacketTypeView::Nack(nack),
            PacketType::FloodRequest(request) => PacketTypeView::FloodRequest(request@),
            PacketType::FloodResponse(response) => PacketTypeView::FloodResponse(response@),
        }
    }
}

impl Clone for PacketType {
    fn clone(&self) -> (res: Self)
        ensures
            res@ == self@,
    {
        match self {
            PacketType::MsgFragment(fragment) => PacketType::MsgFragment(*fragment),
            PacketType::Ack(ack) => PacketType::Ack(*ack),
            PacketType::Nack(nack) => PacketType::Nack(*nack),
            PacketType::FloodRequest(request) => PacketType::FloodRequest(request.clone()),
            PacketType::FloodResponse(response) => PacketType::FloodResponse(response.clone()),
        }
    }
}

/// A packet of the network.
#[derive(Debug, PartialEq, Eq)]
pub struct Packet {
    pub pack_type: PacketType,
    pub routing_header: SourceRoutingHeader,
    pub session_id: u64,
}

/// The model of a [`Packet`].
#[verifier::ext_equal]
pub struct PacketView {
    pub pack_type: PacketTypeView,
    pub routing_header: HeaderView,
    pub session_id: u64,
}

impl View for Packet {
    type V = PacketView;

    open spec fn view(&self) -> PacketView {
        PacketView {
            pack_type: self.pack_type@,
            routing_header: self.routing_header@,
            session_id: self.session_id,
        }
    }
}

impl PacketView {
    /// The same packet, sent along another route from its start.
    pub open spec fn rerouted(self, hops: Seq<NodeId>) -> PacketView {
        PacketView { routing_header: HeaderView { hop_index: 1, hops }, ..self }
    }

    /// The same packet, at the first hop after its sender.
    pub open spec fn departed(self) -> PacketView {
        PacketView {
            routing_header: HeaderView { hop_index: 1, ..self.routing_header },
            ..self
        }
    }
}

impl Packet {
    /// A packet that confirms a fragment.
    pub fn new_ack(
        routing_header: SourceRoutingHeader,
        session_id: u64,
        fragment_index: u64,
    ) -> (res: Packet)
        ensures
            res@ == (PacketView {
                pack_type: PacketTypeView::Ack(Ack { fragment_index }),
                routing_header: routing_header@,
                session_id,
            }),
    {
        Packet { pack_type: PacketType::Ack(Ack { fragment_index }), routing_header, session_id }
    }
}

impl Clone for Packet {
    fn clone(&self) -> (res: Self)
        ensures
            res@ == self@,
    {
        Packet {
            pack_type: self.pack_type.clone(),
            routing_header: self.routing_header.clone(),
            session_id: self.session_id,
        }
    }
}

/// The models of some packets.
pub open spec fn packet_views(packets: Seq<Packet>) -> Seq<PacketView> {
    packets.map_values(|packet: Packet| packet@)
}

/// Copies a list of nodes.
pub fn copy_nodes(nodes: &Vec<NodeId>) -> (res: Vec<NodeId>)
    ensures
        res@ == nodes@,
{
    let res = nodes.clone();
    assert(res@ =~= nodes@);
    res
}

/// Copies a path trace.
pub fn copy_trace(trace: &Vec<(NodeId, NodeType)>) -> (res: Vec<(NodeId, NodeType)>)
    ensures
        res@ == trace@,
{
    let mut res: Vec<(NodeId, NodeType)> = Vec::new();
    let mut i: usize = 0;
    while i < trace.len()
        invariant
            i <= trace@.len(),
            res@ == trace@.take(i as int),
        decreases trace.len() - i,
    {
        res.push(trace[i]);
        assert(trace@.take(i + 1) =~= trace@.take(i as int).push(trace@[i as int]));
        i = i + 1;
    }
    assert(trace@.take(trace@.len() as int) =~= trace@);
    res
}

/// The nodes of a list, last first.
pub fn reversed(nodes: &Vec<NodeId>) -> (res: Vec<NodeId>)
    ensures
        res@ == nodes@.reverse(),
{
    let mut res: Vec<NodeId> = Vec::new();
    let mut i: usize = nodes.len();
    while i > 0
        invariant
            i <= nodes@.len(),
            res@.len() == nodes@.len() - i,
            forall|j: int| 0 <= j < res@.len() ==> res@[j] == nodes@[nodes@.len() - 1 - j],
        decreases i,
    {
        i = i - 1;
        res.push(nodes[i]);
    }
    assert(res@ =~= nodes@.reverse());
    res
}

} // verus!
