//! Wire-level packet model: routing headers and the five packet kinds.

use vstd::prelude::*;

verus! {

/// Identifier of a node of the overlay.
pub type NodeId = u8;

/// Identifier of an outbound message and of all its fragments.
pub type Session = u64;

/// Zero-based position of a fragment inside its session.
pub type FragmentIdx = u64;

/// Largest number of payload bytes one fragment carries.
pub const FRAGMENT_DSIZE: usize = 128;

/// Role of a node, as recorded in flood traces.
#[derive(Clone, Copy, Debug, PartialEq, Eq, Structural)]
pub enum NodeType {
    Client,
    Drone,
    Server,
}

/// Source route: the hop list and the position of the node that currently
/// holds the packet.
#[derive(Debug, PartialEq, Eq)]
pub struct Routing {
    pub hop_index: usize,
    pub hops: Vec<NodeId>,
}

/// Mathematical value of a [`Routing`].
pub struct RoutingView {
    pub hop_index: int,
    pub hops: Seq<NodeId>,
}

impl View for Routing {
    type V = RoutingView;

    open spec fn view(&self) -> RoutingView {
        RoutingView { hop_index: self.hop_index as int, hops: self.hops@ }
    }
}

impl RoutingView {
    /// The node the hop index points at, if it points inside the hop list.
    pub open spec fn current_hop(self) -> Option<NodeId> {
        if 0 <= self.hop_index < self.hops.len() {
            Some(self.hops[self.hop_index])
        } else {
            None
        }
    }

    /// The node after the current one, if there is one.
    pub open spec fn next_hop(self) -> Option<NodeId> {
        if 0 <= self.hop_index + 1 < self.hops.len() {
            Some(self.hops[self.hop_index + 1])
        } else {
            None
        }
    }

    /// The hop list back to front, with the hop index still pointing at the
    /// same node; an index outside the list becomes 0.
    pub open spec fn reversed(self) -> RoutingView {
        RoutingView {
            hop_index: if 0 <= self.hop_index < self.hops.len() {
                self.hops.len() - 1 - self.hop_index
            } else {
                0
            },
            hops: self.hops.reverse(),
        }
    }

    /// The hop index moved one step on, unless it is already the largest
    /// index a header can hold.
    pub open spec fn advanced(self) -> RoutingView {
        RoutingView {
            hop_index: if self.hop_index < usize::MAX {
                self.hop_index + 1
            } else {
                self.hop_index
            },
            hops: self.hops,
        }
    }
}

/// Copies a list of node ids.
pub fn clone_hops(hops: &Vec<NodeId>) -> (res: Vec<NodeId>)
    ensures
        res@ == hops@,
{
    let mut out: Vec<NodeId> = Vec::new();
    let mut i: usize = 0;
    while i < hops.len()
        invariant
            i <= hops.len(),
            out@ == hops@.subrange(0, i as int),
        decreases hops.len() - i,
    {
        out.push(hops[i]);
        assert(out@ == hops@.subrange(0, i + 1));
        i += 1;
    }
    assert(hops@.subrange(0, hops.len() as int) == hops@);
    out
}

impl Clone for Routing {
    fn clone(&self) -> (res: Self)
        ensures
            res@ == self@,
    {
        Routing { hop_index: self.hop_index, hops: clone_hops(&self.hops) }
    }
}

impl Routing {
    /// A header with the given hops and hop index.
    pub fn new(hops: Vec<NodeId>, hop_index: usize) -> (res: Self)
        ensures
            res@ == (RoutingView { hop_index: hop_index as int, hops: hops@ }),
    {
        Routing { hop_index, hops }
    }

    /// A header over `hops` whose hop index points at the first hop after the
    /// sender.
    pub fn with_first_hop(hops: Vec<NodeId>) -> (res: Self)
        ensures
            res@ == (RoutingView { hop_index: 1, hops: hops@ }),
    {
        Routing { hop_index: 1, hops }
    }

    /// The header of a packet that has no route: no hops, hop index 0.
    pub fn empty_route() -> (res: Self)
        ensures
            res@ == (RoutingView { hop_index: 0, hops: Seq::empty() }),
    {
        Routing { hop_index: 0, hops: Vec::new() }
    }

    /// Whether the header carries no hops.
    pub fn is_empty(&self) -> (res: bool)
        ensures
            res == (self@.hops.len() == 0),
    {
        self.hops.len() == 0
    }

    /// The node the hop index points at.
    pub fn current_hop(&self) -> (res: Option<NodeId>)
        ensures
            res == self@.current_hop(),
    {
        if self.hop_index < self.hops.len() {
            Some(self.hops[self.hop_index])
        } else {
            None
        }
    }

    /// The node after the current one.
    pub fn next_hop(&self) -> (res: Option<NodeId>)
        ensures
            res == self@.next_hop(),
    {
        if self.hop_index < self.hops.len() && self.hop_index + 1 < self.hops.len() {
            Some(self.hops[self.hop_index + 1])
        } else {
            None
        }
    }

    /// Moves the hop index one step on.
    pub fn increase_hop_index(&mut self)
        ensures
            final(self)@ == old(self)@.advanced(),
    {
        if self.hop_index < usize::MAX {
            self.hop_index = self.hop_index + 1;
        }
    }

    /// Turns the route round: the hops back to front, the hop index on the
    /// node it pointed at before.
    pub fn reverse(&mut self)
        ensures
            final(self)@ == old(self)@.reversed(),
    {
        let n = self.hops.len();
        let mut out: Vec<NodeId> = Vec::new();
        let mut i: usize = 0;
        while i < n
            invariant
                n == self.hops.len(),
                i <= n,
                out.len() == i,
                forall|j: int| 0 <= j < i ==> out@[j] == self.hops@[n - 1 - j],
            decreases n - i,
        {
            out.push(self.hops[n - 1 - i]);
            i += 1;
        }
        assert(out@ == self.hops@.reverse());
        let idx: usize = if self.hop_index < n {
            n - 1 - self.hop_index
        } else {
            0
        };
        self.hop_index = idx;
        self.hops = out;
    }
}

/// One slice of a message payload.
#[derive(Debug, PartialEq, Eq)]
pub struct Fragment {
    pub fragment_index: FragmentIdx,
    pub total_n_fragments: u64,
    pub data: Vec<u8>,
}

/// Mathematical value of a [`Fragment`].
pub struct FragmentView {
    pub fragment_index: FragmentIdx,
    pub total_n_fragments: u64,
    pub data: Seq<u8>,
}

impl View for Fragment {
    type V = FragmentView;

    open spec fn view(&self) -> FragmentView {
        FragmentView {
            fragment_index: self.fragment_index,
            total_n_fragments: self.total_n_fragments,
            data: self.data@,
        }
    }
}

/// Copies a byte string.
pub fn clone_bytes(bytes: &Vec<u8>) -> (res: Vec<u8>)
    ensures
        res@ == bytes@,
{
    let mut out: Vec<u8> = Vec::new();
    let mut i: usize = 0;
    while i < bytes.len()
        invariant
            i <= bytes.len(),
            out@ == bytes@.subrange(0, i as int),
        decreases bytes.len() - i,
    {
        out.push(bytes[i]);
        assert(out@ == bytes@.subrange(0, i + 1));
        i += 1;
    }
    assert(bytes@.subrange(0, bytes.len() as int) == bytes@);
    out
}

impl Clone for Fragment {
    fn clone(&self) -> (res: Self)
        ensures
            res@ == self@,
    {
        Fragment {
            fragment_index: self.fragment_index,
            total_n_fragments: self.total_n_fragments,
            data: clone_bytes(&self.data),
        }
    }
}

/// Acknowledgement of one fragment.
#[derive(Clone, Copy, Debug, PartialEq, Eq, Structural)]
pub struct Ack {
    pub fragment_index: FragmentIdx,
}

/// Why a fragment was refused.
#[derive(Clone, Copy, Debug, PartialEq, Eq, Structural)]
pub enum NackType {
    ErrorInRouting(NodeId),
    DestinationIsDrone,
    Dropped,
    UnexpectedRecipient(NodeId),
}

/// Negative acknowledgement of one fragment.
#[derive(Clone, Copy, Debug, PartialEq, Eq, Structural)]
pub struct Nack {
    pub fragment_index: FragmentIdx,
    pub nack_type: NackType,
}

/// Topology probe on its way out; every node it passes adds itself to the
/// trace.
#[derive(Debug, PartialEq, Eq)]
pub struct FloodRequest {
    pub flood_id: u64,
    pub initiator_id: NodeId,
    pub path_trace: Vec<(NodeId, NodeType)>,
}

/// Mathematical value of a [`FloodRequest`].
pub struct FloodRequestView {
    pub flood_id: u64,
    pub initiator_id: NodeId,
    pub path_trace: Seq<(NodeId, NodeType)>,
}

impl View for FloodRequest {
    type V = FloodRequestView;

    open spec fn view(&self) -> FloodRequestView {
        FloodRequestView {
            flood_id: self.flood_id,
            initiator_id: self.initiator_id,
            path_trace: self.path_trace@,
        }
    }
}

/// Answer to a topology probe, carrying the trace the probe collected.
#[derive(Debug, PartialEq, Eq)]
pub struct FloodResponse {
    pub flood_id: u64,
    pub path_trace: Vec<(NodeId, NodeType)>,
}

/// Mathematical value of a [`FloodResponse`].
pub struct FloodResponseView {
    pub flood_id: u64,
    pub path_trace: Seq<(NodeId, NodeType)>,
}

impl View for FloodResponse {
    type V = FloodResponseView;

    open spec fn view(&self) -> FloodResponseView {
        FloodResponseView { flood_id: self.flood_id, path_trace: self.path_trace@ }
    }
}

/// Copies a flood trace.
pub fn clone_trace(trace: &Vec<(NodeId, NodeType)>) -> (res: Vec<(NodeId, NodeType)>)
    ensures
        res@ == trace@,
{
    let mut out: Vec<(NodeId, NodeType)> = Vec::new();
    let mut i: usize = 0;
    while i < trace.len()
        invariant
            i <= trace.len(),
            out@ == trace@.subrange(0, i as int),
        decreases trace.len() - i,
    {
        let entry = trace[i];
        out.push(entry);
        assert(out@ == trace@.subrange(0, i + 1));
        i += 1;
    }
    assert(trace@.subrange(0, trace.len() as int) == trace@);
    out
}

/// The node ids of a flood trace, in order.
pub open spec fn trace_ids(trace: Seq<(NodeId, NodeType)>) -> Seq<NodeId> {
    Seq::new(trace.len(), |i: int| trace[i].0)
}

impl FloodRequest {
    /// A probe that has only seen its initiator.
    pub fn initialize(flood_id: u64, initiator_id: NodeId, node_type: NodeType) -> (res: Self)
        ensures
            res@ == (FloodRequestView {
                flood_id,
                initiator_id,
                path_trace: seq![(initiator_id, node_type)],
            }),
    {
        let mut path_trace: Vec<(NodeId, NodeType)> = Vec::new();
        path_trace.push((initiator_id, node_type));
        assert(path_trace@ == seq![(initiator_id, node_type)]);
        FloodRequest { flood_id, initiator_id, path_trace }
    }
}

impl Clone for FloodRequest {
    fn clone(&self) -> (res: Self)
        ensures
            res@ == self@,
    {
        FloodRequest {
            flood_id: self.flood_id,
            initiator_id: self.initiator_id,
            path_trace: clone_trace(&self.path_trace),
        }
    }
}

impl Clone for FloodResponse {
    fn clone(&self) -> (res: Self)
        ensures
            res@ == self@,
    {
        FloodResponse { flood_id: self.flood_id, path_trace: clone_trace(&self.path_trace) }
    }
}

/// What a packet carries.
#[derive(Debug, PartialEq, Eq)]
pub enum PacketType {
    MsgFragment(Fragment),
    Ack(Ack),
    Nack(Nack),
    FloodRequest(FloodRequest),
    FloodResponse(FloodResponse),
}

/// Mathematical value of a [`PacketType`].
pub enum PacketTypeView {
    MsgFragment(FragmentView),
    Ack(Ack),
    Nack(Nack),
    FloodRequest(FloodRequestView),
    FloodResponse(FloodResponseView),
}

impl View for PacketType {
    type V = PacketTypeView;

    open spec fn view(&self) -> PacketTypeView {
        match self {
            PacketType::MsgFragment(f) => PacketTypeView::MsgFragment(f@),
            PacketType::Ack(a) => PacketTypeView::Ack(*a),
            PacketType::Nack(n) => PacketTypeView::Nack(*n),
            PacketType::FloodRequest(r) => PacketTypeView::FloodRequest(r@),
            PacketType::FloodResponse(r) => PacketTypeView::FloodResponse(r@),
        }
    }
}

impl Clone for PacketType {
    fn clone(&self) -> (res: Self)
        ensures
            res@ == self@,
    {
        match self {
            PacketType::MsgFragment(f) => PacketType::MsgFragment(f.clone()),
            PacketType::Ack(a) => PacketType::Ack(*a),
            PacketType::Nack(n) => PacketType::Nack(*n),
            PacketType::FloodRequest(r) => PacketType::FloodRequest(r.clone()),
            PacketType::FloodResponse(r) => PacketType::FloodResponse(r.clone()),
        }
    }
}

/// A routed packet.
#[derive(Debug, PartialEq, Eq)]
pub struct Packet {
    pub routing_header: Routing,
    pub session_id: Session,
    pub pack_type: PacketType,
}

/// Mathematical value of a [`Packet`].
pub struct PacketView {
    pub routing_header: RoutingView,
    pub session_id: Session,
    pub pack_type: PacketTypeView,
}

impl View for Packet {
    type V = PacketView;

    open spec fn view(&self) -> PacketView {
        PacketView {
            routing_header: self.routing_header@,
            session_id: self.session_id,
            pack_type: self.pack_type@,
        }
    }
}

impl PacketView {
    /// Whether the packet carries a message fragment.
    pub open spec fn is_fragment(self) -> bool {
        self.pack_type is MsgFragment
    }

    /// The index of the fragment the packet carries; meaningful for fragment
    /// packets only.
    pub open spec fn fragment_index(self) -> FragmentIdx {
        self.pack_type->MsgFragment_0.fragment_index
    }

    /// The same packet under another routing header.
    pub open spec fn with_routing(self, routing: RoutingView) -> PacketView {
        PacketView { routing_header: routing, ..self }
    }
}

/// The values of a list of packets.
pub open spec fn packet_views(packets: Seq<Packet>) -> Seq<PacketView> {
    Seq::new(packets.len(), |i: int| packets[i]@)
}

impl Clone for Packet {
    fn clone(&self) -> (res: Self)
        ensures
            res@ == self@,
    {
        Packet {
            routing_header: self.routing_header.clone(),
            session_id: self.session_id,
            pack_type: self.pack_type.clone(),
        }
    }
}

impl Packet {
    /// A packet that carries `fragment`.
    pub fn new_fragment(routing_header: Routing, session_id: Session, fragment: Fragment) -> (res:
        Self)
        ensures
            res@ == (PacketView {
                routing_header: routing_header@,
                session_id,
                pack_type: PacketTypeView::MsgFragment(fragment@),
            }),
    {
        Packet { routing_header, session_id, pack_type: PacketType::MsgFragment(fragment) }
    }

    /// A packet that acknowledges fragment `fragment_index` of `session_id`.
    pub fn new_ack(routing_header: Routing, session_id: Session, fragment_index: FragmentIdx) -> (res:
        Self)
        ensures
            res@ == (PacketView {
                routing_header: routing_header@,
                session_id,
                pack_type: PacketTypeView::Ack(Ack { fragment_index }),
            }),
    {
        Packet { routing_header, session_id, pack_type: PacketType::Ack(Ack { fragment_index }) }
    }

    /// A packet that carries `nack`.
    pub fn new_nack(routing_header: Routing, session_id: Session, nack: Nack) -> (res: Self)
        ensures
            res@ == (PacketView {
                routing_header: routing_header@,
                session_id,
                pack_type: PacketTypeView::Nack(nack),
            }),
    {
        Packet { routing_header, session_id, pack_type: PacketType::Nack(nack) }
    }

    /// A packet that carries the probe `flood_request`.
    pub fn new_flood_request(
        routing_header: Routing,
        session_id: Session,
        flood_request: FloodRequest,
    ) -> (res: Self)
        ensures
            res@ == (PacketView {
                routing_header: routing_header@,
                session_id,
                pack_type: PacketTypeView::FloodRequest(flood_request@),
            }),
    {
        Packet { routing_header, session_id, pack_type: PacketType::FloodRequest(flood_request) }
    }

    /// A packet that carries the probe answer `flood_response`.
    pub fn new_flood_response(
        routing_header: Routing,
        session_id: Session,
        flood_response: FloodResponse,
    ) -> (res: Self)
        ensures
            res@ == (PacketView {
                routing_header: routing_header@,
                session_id,
                pack_type: PacketTypeView::FloodResponse(flood_response@),
            }),
    {
        Packet { routing_header, session_id, pack_type: PacketType::FloodResponse(flood_response) }
    }

    /// Whether the packet carries a message fragment.
    pub fn is_fragment(&self) -> (res: bool)
        ensures
            res == self@.is_fragment(),
    {
        match &self.pack_type {
            PacketType::MsgFragment(_) => true,
            _ => false,
        }
    }
}

} // verus!
