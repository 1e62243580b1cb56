//! Replies to inbound packets and commands of the simulation controller: the
//! routing check, acknowledgements and refusals, flood answers.

use crate::channel::LeafCommand;
use crate::frontend::TUICommand;
use crate::network::{dispatch_event, Handed, Network, NetworkView};
use crate::packet::{
    trace_ids, FloodRequest, FloodRequestView, FloodResponse, FloodResponseView,
    FragmentIdx, Nack, NackType, NodeId, NodeType, Packet, PacketType, PacketTypeView, PacketView,
    Routing, RoutingView, Session,
};
use crate::topology::{reachable_steps, unreachable_steps, NODE_IDS};
use vstd::prelude::*;

verus! {

broadcast use vstd::std_specs::hash::group_hash_axioms;

/// What is wrong with the route of `packet` when it arrives at the node
/// `id`. A flood request has no route to check. Any other packet must name
/// `id` as its current hop, or it has come to the wrong node; and it must
/// end there, since this node forwards nothing.
pub open spec fn routing_error(id: NodeId, packet: PacketView) -> Option<NackType> {
    if packet.pack_type is FloodRequest {
        None
    } else if packet.routing_header.current_hop() != Some(id) {
        Some(NackType::UnexpectedRecipient(id))
    } else {
        match packet.routing_header.next_hop() {
            Some(next) => Some(NackType::ErrorInRouting(next)),
            None => None,
        }
    }
}

/// Checks the route of `packet` on its arrival at the node `id`.
pub fn find_routing_error(id: NodeId, packet: &Packet) -> (res: Option<NackType>)
    ensures
        res == routing_error(id, packet@),
{
    match &packet.pack_type {
        PacketType::FloodRequest(_) => {
            return None;
        },
        _ => {},
    }
    let routing = &packet.routing_header;
    match routing.current_hop() {
        Some(hop) => {
            if hop != id {
                return Some(NackType::UnexpectedRecipient(id));
            }
        },
        None => {
            return Some(NackType::UnexpectedRecipient(id));
        },
    }
    match routing.next_hop() {
        Some(next) => Some(NackType::ErrorInRouting(next)),
        None => None,
    }
}

/// The packet that acknowledges fragment `fragment_id` of `session`, which
/// came along `routing`: it goes back the same way, one hop on from this
/// node.
pub open spec fn ack_packet(routing: RoutingView, session: Session, fragment_id: FragmentIdx) -> PacketView {
    PacketView {
        routing_header: routing.reversed().advanced(),
        session_id: session,
        pack_type: PacketTypeView::Ack(crate::packet::Ack { fragment_index: fragment_id }),
    }
}

/// Builds the acknowledgement of fragment `fragment_id` of `session`, which
/// came along `routing`.
pub fn new_ack(routing: Routing, session: Session, fragment_id: FragmentIdx) -> (res: Packet)
    ensures
        res@ == ack_packet(routing@, session, fragment_id),
{
    let mut routing = routing;
    routing.reverse();
    routing.increase_hop_index();
    Packet::new_ack(routing, session, fragment_id)
}

/// The part of the route that a packet has covered when it is refused: the
/// hops before its hop index.
pub open spec fn covered(routing: RoutingView) -> Seq<NodeId> {
    if routing.hop_index <= routing.hops.len() {
        routing.hops.subrange(0, routing.hop_index)
    } else {
        routing.hops
    }
}

/// The route of a refusal that the node `self_id` sends for a packet that
/// came along `routing`: from `self_id` back over the hops the packet has
/// covered, the hop index on the first of them.
pub open spec fn nack_route(self_id: NodeId, routing: RoutingView) -> RoutingView {
    RoutingView { hop_index: 1, hops: covered(routing).push(self_id).reverse() }
}

/// The packet with which the node `self_id` refuses fragment `fragment_id`
/// of `session`, which came along `routing`.
pub open spec fn nack_packet(
    self_id: NodeId,
    routing: RoutingView,
    session: Session,
    fragment_id: FragmentIdx,
    nack_type: NackType,
) -> PacketView {
    PacketView {
        routing_header: nack_route(self_id, routing),
        session_id: session,
        pack_type: PacketTypeView::Nack(Nack { fragment_index: fragment_id, nack_type }),
    }
}

/// Builds the refusal of fragment `fragment_id` of `session`.
pub fn new_nack(
    self_id: NodeId,
    routing: Routing,
    session: Session,
    fragment_id: FragmentIdx,
    nack_type: NackType,
) -> (res: Packet)
    ensures
        res@ == nack_packet(self_id, routing@, session, fragment_id, nack_type),
{
    let taken: usize = if routing.hop_index <= routing.hops.len() {
        routing.hop_index
    } else {
        routing.hops.len()
    };
    let ghost forward = covered(routing@).push(self_id);
    let mut hops: Vec<NodeId> = Vec::new();
    hops.push(self_id);
    let mut i: usize = 0;
    while i < taken
        invariant
            i <= taken <= routing.hops.len(),
            forward == covered(routing@).push(self_id),
            forward.len() == taken + 1,
            hops.len() == i + 1,
            forall|j: int| 0 <= j <= i ==> hops@[j] == forward[taken - j],
        decreases taken - i,
    {
        hops.push(routing.hops[taken - 1 - i]);
        i += 1;
    }
    assert(hops@ =~= forward.reverse());
    let nack = Nack { fragment_index: fragment_id, nack_type };
    Packet::new_nack(Routing::new(hops, 1), session, nack)
}

/// The answer of the node `self_id`, of kind `self_type`, to the flood
/// request `flood`: the trace with this node added, sent back along the
/// trace, the hop index on the node the request came from.
pub open spec fn flood_answer(
    self_id: NodeId,
    self_type: NodeType,
    session: Session,
    flood: FloodRequestView,
) -> PacketView {
    let trace = flood.path_trace.push((self_id, self_type));
    PacketView {
        routing_header: RoutingView { hop_index: 1, hops: trace_ids(trace).reverse() },
        session_id: session,
        pack_type: PacketTypeView::FloodResponse(
            FloodResponseView { flood_id: flood.flood_id, path_trace: trace },
        ),
    }
}

/// Builds the answer to the flood request `flood`.
pub fn new_flood_resp(self_id: NodeId, self_type: NodeType, session: Session, flood: FloodRequest) -> (res:
    Packet)
    ensures
        res@ == flood_answer(self_id, self_type, session, flood@),
{
    let flood_id = flood.flood_id;
    let mut path_trace = flood.path_trace;
    path_trace.push((self_id, self_type));
    let n = path_trace.len();
    let mut hops: Vec<NodeId> = Vec::new();
    let mut i: usize = 0;
    while i < n
        invariant
            n == path_trace.len(),
            i <= n,
            hops.len() == i,
            forall|j: int| 0 <= j < i ==> hops@[j] == path_trace@[n - 1 - j].0,
        decreases n - i,
    {
        let entry = path_trace[n - 1 - i];
        hops.push(entry.0);
        i += 1;
    }
    assert(hops@ =~= trace_ids(path_trace@).reverse());
    Packet::new_flood_response(
        Routing::with_first_hop(hops),
        session,
        FloodResponse { flood_id, path_trace },
    )
}

/// What is done about a packet that failed the routing check.
#[derive(Debug, PartialEq, Eq)]
pub enum ErrorReply {
    /// The packet is handed to the controller for delivery.
    Shortcut(Packet),
    /// The packet is refused with this nack.
    Refuse(Packet),
}

/// Mathematical value of an [`ErrorReply`].
pub enum ErrorReplyView {
    Shortcut(PacketView),
    Refuse(PacketView),
}

impl View for ErrorReply {
    type V = ErrorReplyView;

    open spec fn view(&self) -> ErrorReplyView {
        match self {
            ErrorReply::Shortcut(p) => ErrorReplyView::Shortcut(p@),
            ErrorReply::Refuse(p) => ErrorReplyView::Refuse(p@),
        }
    }
}

/// The reply of the node `id` to `packet`, which failed the routing check
/// with `nack_type`: a fragment is refused towards where it came from; any
/// other packet goes to the controller as it is.
pub open spec fn error_reply(id: NodeId, packet: PacketView, nack_type: NackType) -> ErrorReplyView {
    if packet.is_fragment() {
        ErrorReplyView::Refuse(
            nack_packet(
                id,
                packet.routing_header,
                packet.session_id,
                packet.fragment_index(),
                nack_type,
            ),
        )
    } else {
        ErrorReplyView::Shortcut(packet)
    }
}

/// Decides the reply to a packet that failed the routing check.
pub fn routing_error_reply(id: NodeId, packet: Packet, nack_type: NackType) -> (res: ErrorReply)
    ensures
        res@ == error_reply(id, packet@, nack_type),
{
    let index = match &packet.pack_type {
        PacketType::MsgFragment(fragment) => Some(fragment.fragment_index),
        _ => None,
    };
    match index {
        Some(index) => ErrorReply::Refuse(
            new_nack(id, packet.routing_header, packet.session_id, index, nack_type),
        ),
        None => ErrorReply::Shortcut(packet),
    }
}

/// The neighbour a routed reply leaves through: the second hop of its
/// route.
pub open spec fn reply_hop(routing: RoutingView) -> Option<NodeId> {
    if routing.hops.len() >= 2 {
        Some(routing.hops[1])
    } else {
        None
    }
}

/// The second hop of a route.
pub fn first_hop(routing: &Routing) -> (res: Option<NodeId>)
    ensures
        res == reply_hop(routing@),
{
    if routing.hops.len() >= 2 {
        Some(routing.hops[1])
    } else {
        None
    }
}

/// `res` says whom a client in the state `v` hands its reply to `packet`
/// to, which failed the routing check with `nack_type` (see
/// [`error_reply`]). A stopped client hands nothing to anybody. A packet
/// that is no fragment goes to the controller as it is. The refusal of a
/// fragment is offered to the neighbour it leaves through, the hop the
/// fragment came over last; where it has covered no hop, or that hop is no
/// neighbour, the refusal is handed to nobody.
pub open spec fn error_handed(
    v: NetworkView,
    packet: PacketView,
    nack_type: NackType,
    res: Handed,
) -> bool {
    if !v.running {
        res == Handed::Nobody
    } else {
        match error_reply(v.id, packet, nack_type) {
            ErrorReplyView::Shortcut(_) => res is Controller,
            ErrorReplyView::Refuse(nack) => match reply_hop(nack.routing_header) {
                Some(hop) => if v.neighbours.contains(hop) {
                    res is Neighbour && res->Neighbour_0 == hop
                } else {
                    res == Handed::Nobody
                },
                None => res == Handed::Nobody,
            },
        }
    }
}

/// `res` says whom a client in the state `v` hands the reply `pack` to. A
/// stopped client hands nothing to anybody. A reply is offered to the
/// neighbour it leaves through, the second hop of its route. Where it has no
/// such hop, or that hop is no neighbour, it counts as not taken: the
/// controller is asked to deliver it, unless it is a packet that the
/// controller is not asked about (see [`dispatch_event`]).
pub open spec fn reply_handed(v: NetworkView, pack: PacketView, res: Handed) -> bool {
    if !v.running {
        res == Handed::Nobody
    } else if reply_hop(pack.routing_header) is Some && v.neighbours.contains(
        reply_hop(pack.routing_header)->Some_0,
    ) {
        res is Neighbour && res->Neighbour_0 == reply_hop(pack.routing_header)->Some_0
    } else if dispatch_event(pack, false) is Some {
        res is Controller
    } else {
        res == Handed::Nobody
    }
}

/// Replies to `packet`, which failed the routing check with `nack_type`
/// (see [`error_reply`]), and returns whom the reply was handed to (see
/// [`error_handed`]) and whether the channel there took it. The state of the
/// client stays as it is.
pub fn handle_routing_error(net: &mut Network, packet: Packet, nack_type: NackType) -> (res: Handed)
    ensures
        final(net)@ == old(net)@,
        error_handed(old(net)@, packet@, nack_type, res),
{
    if !net.running {
        return Handed::Nobody;
    }
    match routing_error_reply(net.id, packet, nack_type) {
        ErrorReply::Shortcut(packet) => Handed::Controller(net.controller_shortcut(packet)),
        ErrorReply::Refuse(nack) => {
            match first_hop(&nack.routing_header) {
                Some(hop) => match net.offer(hop, nack, None) {
                    Some(sent) => Handed::Neighbour(hop, sent),
                    None => Handed::Nobody,
                },
                None => Handed::Nobody,
            }
        },
    }
}

/// `after` is what a command of the controller can make of `before`. A
/// stopped client takes no command. `Kill` stops the client. A new link is
/// taken note of (see [`NetworkView::with_link`]) and the unreachable sweep
/// runs; a lost link is struck off (see [`NetworkView::without_link`]) and
/// the reachable sweep runs.
pub open spec fn command_effect(before: NetworkView, c: LeafCommand, after: NetworkView) -> bool {
    if !before.running {
        after == before
    } else {
        match c {
            LeafCommand::Kill => after == (NetworkView { running: false, ..before }),
            LeafCommand::AddSender(n, _) => unreachable_steps(
                before.with_link(n),
                NODE_IDS as int,
                after,
            ),
            LeafCommand::RemoveSender(n) => reachable_steps(
                before.without_link(n),
                NODE_IDS as int,
                after,
            ),
        }
    }
}

/// Carries out the command `c` of the controller (see [`command_effect`]).
/// Returns whether the client is stopped afterwards, and what the front-end
/// is to be told: `Kill` when the command stops the client, else nothing.
pub fn handle_command(net: &mut Network, c: LeafCommand) -> (res: (bool, Option<TUICommand>))
    ensures
        command_effect(old(net)@, c, final(net)@),
        res.0 == !final(net)@.running,
        res.1 == (if old(net)@.running && c is Kill {
            Some(TUICommand::Kill)
        } else {
            None::<TUICommand>
        }),
        old(net)@.inv() ==> final(net)@.inv(),
{
    if !net.running {
        return (true, None);
    }
    match c {
        LeafCommand::RemoveSender(conn_id) => {
            net.remove_sender(&conn_id);
            (false, None)
        },
        LeafCommand::AddSender(conn_id, sender) => {
            net.add_sender(conn_id, sender);
            (false, None)
        },
        LeafCommand::Kill => {
            net.running = false;
            (true, Some(TUICommand::Kill))
        },
    }
}

} // verus!
