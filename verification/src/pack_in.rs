//! Inbound side of the router core: what each kind of packet does to the
//! client once it has passed the routing check.

use crate::frontend::{forward_peer_command, shown_to_frontend, MessageStatus, TUICommand};
use crate::graph::edges_without_node;
use crate::message::{Message, MessageView, ServerType};
use crate::net::{
    ack_packet, find_routing_error, first_hop, flood_answer, handle_routing_error, new_ack,
    new_flood_resp, reply_handed, routing_error,
};
use crate::network::{Handed, Network, NetworkView};
use crate::pack_out::send_effect;
use crate::packet::{
    trace_ids, Ack, FloodRequest, FloodResponse, FloodResponseView, Fragment, FragmentIdx, Nack,
    NackType, NodeId, NodeType, Packet, PacketType, PacketTypeView, PacketView, Routing, Session,
};
use crate::paths::has_route;
use crate::pending::{ack_completes, flying, in_flight, pending_indices};
use crate::queue::{waiting_for, QueueView};
use crate::reassembly::{after_store, completed_by};
use crate::topology::{
    path_edges, path_nodes, reachable_steps, reachable_sweep, starts_at, unreachable_steps,
    unreachable_sweep, NODE_IDS,
};
use crate::utils::{drain_of, same_but_traffic};
use vstd::prelude::*;

verus! {

broadcast use vstd::std_specs::hash::group_hash_axioms;

/// What the arrival of a fragment leaves for the caller to do.
#[derive(Debug, PartialEq, Eq)]
pub struct FragmentReceipt {
    /// The leaf the fragment came from: the first hop of its route.
    pub server: Option<NodeId>,
    /// The encoded message that the fragment completed, if it completed one.
    /// The caller decodes it and hands the message to
    /// [`Network::deliver_message`].
    pub payload: Option<Vec<u8>>,
    /// The acknowledgement of the fragment. The caller hands it to
    /// [`Network::send_reply`] once the message, if any, is delivered.
    pub ack: Packet,
}

/// What the arrival of a packet leaves for the caller to do.
#[derive(Debug, PartialEq, Eq)]
pub enum Inbound {
    /// The packet is dealt with; the front-end is to be told `updates`.
    Done(Vec<TUICommand>),
    /// A fragment was taken in.
    Fragment(FragmentReceipt),
}

/// `res` says that the packet is dealt with and that the front-end is to be
/// told `updates`.
pub open spec fn done_with(res: Inbound, updates: Seq<TUICommand>) -> bool {
    match res {
        Inbound::Done(told) => told@ == updates,
        Inbound::Fragment(_) => false,
    }
}

/// `res` hands back a fragment receipt that names `server`, holds `payload`
/// and owes the acknowledgement `ack`.
pub open spec fn receipt_with(
    res: Inbound,
    server: Option<NodeId>,
    payload: Option<Seq<u8>>,
    ack: PacketView,
) -> bool {
    match res {
        Inbound::Done(_) => false,
        Inbound::Fragment(receipt) => receipt.server == server && payload_view(receipt.payload)
            == payload && receipt.ack@ == ack,
    }
}

/// The value of a payload that may be absent.
pub open spec fn payload_view(payload: Option<Vec<u8>>) -> Option<Seq<u8>> {
    match payload {
        Some(bytes) => Some(bytes@),
        None => None,
    }
}

/// The first hop of a route, if it has one.
pub open spec fn origin(hops: Seq<NodeId>) -> Option<NodeId> {
    if hops.len() > 0 {
        Some(hops[0])
    } else {
        None
    }
}

/// What the front-end is told when fragment `index` of `session` is
/// acknowledged. Nothing, unless that ends the session. Then, where the
/// message was relayed to a chat peer, that the server has it; and, where
/// the message asked for registration, that this client is registered.
pub open spec fn ack_updates(v: NetworkView, session: Session, index: FragmentIdx) -> Seq<TUICommand> {
    if ack_completes(v.pending, session, index) {
        let entry = v.pending[session];
        let received = match entry.recipient {
            Some(peer) => seq![
                TUICommand::UpdateMessageStatus(
                    entry.server,
                    peer,
                    session,
                    MessageStatus::ReceivedByServer,
                ),
            ],
            None => Seq::<TUICommand>::empty(),
        };
        let registered = if v.messages.contains_key(session)
            && v.messages[session] is ReqChatRegistration {
            seq![TUICommand::UpdateChatRoom(entry.server, Some(true), Some(true))]
        } else {
            Seq::<TUICommand>::empty()
        };
        received + registered
    } else {
        Seq::empty()
    }
}

/// What the delivery of `message` from `server` tells the front-end: one
/// peer per entry of a client list; the command a chat peer sent, where the
/// front-end is shown that kind of command; nothing otherwise. `chat` is the
/// command that the chat payload of the message decodes to, if it holds one
/// and it decodes.
pub open spec fn delivery_updates(
    server: NodeId,
    message: MessageView,
    chat: Option<TUICommand>,
) -> Seq<TUICommand> {
    match message {
        MessageView::RespClientList(peers) => Seq::new(
            peers.len(),
            |i: int| TUICommand::UpdatePeerName(server, peers[i], None),
        ),
        MessageView::RespChatFrom { .. } => match chat {
            Some(command) => if shown_to_frontend(command) {
                seq![command]
            } else {
                Seq::empty()
            },
            None => Seq::empty(),
        },
        _ => Seq::empty(),
    }
}

impl NetworkView {
    /// The state after fragment `index` of `session` was acknowledged: the
    /// packets that carry it are no longer in flight, and where that ends
    /// the session, its message is off the record.
    pub open spec fn after_ack(self, session: Session, index: FragmentIdx) -> NetworkView {
        NetworkView {
            pending: crate::pending::after_ack(self.pending, session, index),
            messages: if ack_completes(self.pending, session, index) {
                self.messages.remove(session)
            } else {
                self.messages
            },
            ..self
        }
    }

    /// The state after the reply `pack` was handed to `res`: a reply that a
    /// neighbour was offered is booked by what its channel did, any other
    /// reply of a running client as not taken.
    pub open spec fn after_reply(self, pack: PacketView, res: Handed) -> NetworkView {
        match res {
            Handed::Neighbour(_, sent) => self.after_dispatch(pack, sent, None),
            _ => if self.running {
                self.after_dispatch(pack, false, None)
            } else {
                self
            },
        }
    }

    /// The topology without the node `n`; this node itself stays a node,
    /// though it loses its edges, where `n` names it.
    pub open spec fn without_node(self, n: NodeId) -> NetworkView {
        NetworkView {
            nodes: self.nodes.remove(n).insert(self.id),
            edges: edges_without_node(self.edges, n),
            ..self
        }
    }

    /// The state after the packet in flight that carries fragment `index` of
    /// `session` was queued again for its server.
    pub open spec fn requeued(self, session: Session, index: FragmentIdx) -> NetworkView {
        let entry = self.pending[session];
        NetworkView {
            queued: self.queued.insert(
                entry.server,
                QueueView {
                    recipient: entry.recipient,
                    packets: waiting_for(self.queued, entry.server).push(
                        flying(self.pending, session, index),
                    ),
                },
            ),
            ..self
        }
    }
}

/// `after` is what taking the node `n` off the topology can make of
/// `before`: the node and its edges are gone (see
/// [`NetworkView::without_node`]) and the reachable sweep has run over what
/// is left.
pub open spec fn blacklist_of(before: NetworkView, n: NodeId, after: NetworkView) -> bool {
    reachable_steps(before.without_node(n), NODE_IDS as int, after)
}

/// `after` is what the retry of fragment `index` of `session` can make of
/// `before`. Where no packet in flight carries that fragment, nothing
/// changes. Otherwise a copy of the packet joins the send queue of its
/// server, that queue is drained, and a flood is started.
pub open spec fn retry_of(
    before: NetworkView,
    session: Session,
    index: FragmentIdx,
    after: NetworkView,
) -> bool {
    if !in_flight(before.pending, session, index) {
        after == before
    } else {
        exists|mid: NetworkView| #[trigger]
            drain_of(
                before.requeued(session, index),
                before.pending[session].server,
                mid,
            ) && after == mid.after_flood()
    }
}

/// `after` is what the nack `nack` for `session` can make of `before`: a
/// routing error takes the node it names off the topology first; then the
/// fragment is retried.
pub open spec fn nack_effect(
    before: NetworkView,
    session: Session,
    nack: Nack,
    after: NetworkView,
) -> bool {
    match nack.nack_type {
        NackType::ErrorInRouting(n) => exists|mid: NetworkView| #[trigger]
            blacklist_of(before, n, mid) && retry_of(mid, session, nack.fragment_index, after),
        _ => retry_of(before, session, nack.fragment_index, after),
    }
}

impl Network {
    /// Takes the node `n` off the topology, with its edges, and runs the
    /// reachable sweep: see [`blacklist_of`].
    pub fn blacklist(&mut self, n: NodeId)
        ensures
            blacklist_of(old(self)@, n, final(self)@),
            final(self)@ == (NetworkView {
                routes: final(self)@.routes,
                session: final(self)@.session,
                flood_epoch: final(self)@.flood_epoch,
                ..old(self)@.without_node(n)
            }),
            reachable_sweep(
                old(self)@.routes,
                final(self)@.routes,
                old(self)@.without_node(n).edges,
                old(self)@.id,
            ),
            n != old(self)@.id ==> !final(self)@.nodes.contains(n),
            old(self)@.stores_wf() ==> final(self)@.inv(),
    {
        let ghost before = self@;
        self.topology.remove_node(n);
        self.topology.add_node(self.id);
        assert(self@ == before.without_node(n));
        self.update_reachable_paths();
    }

    /// Retries fragment `index` of `session`: see [`retry_of`].
    pub fn retry(&mut self, session: Session, index: FragmentIdx)
        ensures
            retry_of(old(self)@, session, index, final(self)@),
            same_but_traffic(
                NetworkView {
                    session: final(self)@.session,
                    flood_epoch: final(self)@.flood_epoch,
                    ..old(self)@
                },
                final(self)@,
            ),
            old(self)@.stores_wf() ==> final(self)@.stores_wf(),
            old(self)@.inv() ==> final(self)@.inv(),
    {
        let ghost before = self@;
        match self.packs_waiting_for_ack.find(session, index) {
            None => {},
            Some(found) => {
                let (pack, server, recipient) = found;
                proof {
                    crate::pending::lemma_find_naming(before.pending[session].packets, index);
                }
                self.queued_packs.push(server, recipient, pack);
                let ghost requeued = self@;
                assert(requeued == before.requeued(session, index));
                proof {
                    if before.stores_wf() {
                        let q = requeued.queued;
                        let q0 = before.queued;
                        assert forall|l: NodeId, i: int|
                            q.contains_key(l) && 0 <= i < q[l].packets.len() implies (
                        #[trigger] q[l].packets[i]).is_fragment() by {
                            if l == server {
                                if i < waiting_for(q0, server).len() {
                                    assert(q0[l].packets[i].is_fragment());
                                }
                            } else {
                                assert(q0[l].packets[i].is_fragment());
                            }
                        }
                    }
                }
                self.check_queued(server);
                let ghost mid = self@;
                self.initiate_flood();
                assert(drain_of(before.requeued(session, index), before.pending[session].server, mid)
                    && self@ == mid.after_flood());
            },
        }
    }

    /// Takes in the acknowledgement of fragment `ack.fragment_index` of
    /// `session` (see [`NetworkView::after_ack`]) and says what the
    /// front-end is to be told (see [`ack_updates`]).
    pub fn handle_ack_receive(&mut self, session: Session, ack: Ack) -> (res: Vec<TUICommand>)
        ensures
            final(self)@ == old(self)@.after_ack(session, ack.fragment_index),
            res@ == ack_updates(old(self)@, session, ack.fragment_index),
            pending_indices(final(self)@.pending, session) == pending_indices(
                old(self)@.pending,
                session,
            ).remove(ack.fragment_index),
            forall|s: Session|
                s != session ==> pending_indices(final(self)@.pending, s) == pending_indices(
                    old(self)@.pending,
                    s,
                ),
            old(self)@.inv() ==> final(self)@.inv(),
    {
        let ghost before = self@;
        let mut updates: Vec<TUICommand> = Vec::new();
        let done = self.packs_waiting_for_ack.acknowledge(session, ack.fragment_index);
        match done {
            None => {
                assert(updates@ =~= ack_updates(before, session, ack.fragment_index));
            },
            Some(entry) => {
                let (server, recipient) = entry;
                let message = self.messages_waiting_for_ack.remove(&session);
                assert(self@.messages =~= before.messages.remove(session));
                match recipient {
                    Some(peer) => {
                        updates.push(
                            TUICommand::UpdateMessageStatus(
                                server,
                                peer,
                                session,
                                MessageStatus::ReceivedByServer,
                            ),
                        );
                    },
                    None => {},
                }
                let registration = match &message {
                    Some(m) => m.is_chat_registration(),
                    None => false,
                };
                if registration {
                    updates.push(TUICommand::UpdateChatRoom(server, Some(true), Some(true)));
                }
                assert(updates@ =~= ack_updates(before, session, ack.fragment_index));
            },
        }
        proof {
            if before.inv() {
                let p = self@.pending;
                assert forall|s: Session| #[trigger] p.contains_key(s) implies p[s].packets.len()
                    > 0 by {
                    if s != session {
                        assert(before.pending.contains_key(s));
                    }
                }
            }
        }
        updates
    }

    /// Takes in the nack `nack` for `session`: see [`nack_effect`]. A node
    /// that a routing error names is not a node of the topology afterwards,
    /// unless it is this node.
    pub fn handle_nack_receive(&mut self, session: Session, nack: Nack)
        ensures
            nack_effect(old(self)@, session, nack, final(self)@),
            match nack.nack_type {
                NackType::ErrorInRouting(n) => n != old(self)@.id ==> !final(self)@.nodes.contains(n),
                _ => true,
            },
            old(self)@.inv() ==> final(self)@.inv(),
    {
        let ghost before = self@;
        match nack.nack_type {
            NackType::ErrorInRouting(node_id) => {
                self.blacklist(node_id);
            },
            _ => {},
        }
        let ghost mid = self@;
        self.retry(session, nack.fragment_index);
        proof {
            match nack.nack_type {
                NackType::ErrorInRouting(n) => {
                    assert(blacklist_of(before, n, mid) && retry_of(
                        mid,
                        session,
                        nack.fragment_index,
                        self@,
                    ));
                },
                _ => {},
            }
        }
    }

    /// Hands the reply `pack` on and books the outcome. The reply is offered
    /// to the neighbour it leaves through, the second hop of its route. A
    /// reply that has no such hop, or whose hop is no neighbour, is booked as
    /// not taken: an acknowledgement, a nack or a flood answer then goes to
    /// the controller for delivery. A stopped client sends nothing. Returns
    /// whom the reply was handed to (see [`reply_handed`]) and whether the
    /// channel there took it.
    pub fn send_reply(&mut self, pack: Packet) -> (res: Handed)
        ensures
            reply_handed(old(self)@, pack@, res),
            final(self)@ == old(self)@.after_reply(pack@, res),
            old(self)@.stores_wf() ==> final(self)@.stores_wf(),
            old(self)@.inv() ==> final(self)@.inv(),
    {
        if !self.running {
            return Handed::Nobody;
        }
        let copy = pack.clone();
        let offered = match first_hop(&pack.routing_header) {
            Some(hop) => match self.offer(hop, pack, None) {
                Some(sent) => Some((hop, sent)),
                None => None,
            },
            None => None,
        };
        match offered {
            Some((hop, sent)) => Handed::Neighbour(hop, sent),
            None => {
                let event = self.record_dispatch(copy, false, None);
                match event {
                    Some(e) => Handed::Controller(
                        crate::channel::try_send(&self.controller_send, e),
                    ),
                    None => Handed::Nobody,
                }
            },
        }
    }

    /// Answers the flood request `flood_request`, which came under
    /// `session`: the answer (see [`flood_answer`]) is handed on as
    /// [`Network::send_reply`] says, to the node the request came from last
    /// if that is a neighbour, to the controller if not. Returns whom the
    /// answer was handed to and whether the channel there took it. The state
    /// of the client stays as it is.
    pub fn handle_flood_request_receive(&mut self, session: Session, flood_request: FloodRequest) -> (res:
        Handed)
        ensures
            final(self)@ == old(self)@,
            reply_handed(
                old(self)@,
                flood_answer(old(self)@.id, NodeType::Client, session, flood_request@),
                res,
            ),
    {
        let flood_res = new_flood_resp(self.id, NodeType::Client, session, flood_request);
        self.send_reply(flood_res)
    }

    /// Delivers `message`, which came whole from `server`, and says what the
    /// front-end is to be told (see [`delivery_updates`]). A server's answer
    /// about its kind is put on file, and the send queue of a chat server is
    /// drained. `chat` is the command that the chat payload of the message
    /// decodes to, if it holds one. A stopped client delivers nothing.
    pub fn deliver_message(&mut self, server: NodeId, message: Message, chat: Option<TUICommand>) -> (res:
        Vec<TUICommand>)
        ensures
            !old(self)@.running ==> final(self)@ == old(self)@ && res@ == Seq::<TUICommand>::empty(),
            old(self)@.running ==> res@ == delivery_updates(server, message@, chat),
            old(self)@.running ==> match message@ {
                MessageView::RespServerType(kind) => {
                    let filed = NetworkView {
                        leaf_types: old(self)@.leaf_types.insert(server, Some(kind)),
                        ..old(self)@
                    };
                    if kind == ServerType::Chat {
                        drain_of(filed, server, final(self)@)
                    } else {
                        final(self)@ == filed
                    }
                },
                _ => final(self)@ == old(self)@,
            },
            old(self)@.inv() ==> final(self)@.inv(),
    {
        let mut updates: Vec<TUICommand> = Vec::new();
        if !self.running {
            return updates;
        }
        match message {
            Message::RespServerType(kind) => {
                self.leaf_types.insert(server, Some(kind));
                if kind == ServerType::Chat {
                    self.check_queued(server);
                }
            },
            Message::RespClientList(peers) => {
                let mut i: usize = 0;
                while i < peers.len()
                    invariant
                        i <= peers.len(),
                        updates.len() == i,
                        forall|j: int|
                            0 <= j < i ==> updates@[j] == TUICommand::UpdatePeerName(
                                server,
                                peers@[j],
                                None,
                            ),
                    decreases peers.len() - i,
                {
                    updates.push(TUICommand::UpdatePeerName(server, peers[i], None));
                    i += 1;
                }
                assert(updates@ =~= delivery_updates(server, message@, chat));
            },
            Message::RespChatFrom { .. } => {
                match chat {
                    Some(command) => {
                        match forward_peer_command(command) {
                            Some(shown) => {
                                updates.push(shown);
                            },
                            None => {},
                        }
                    },
                    None => {},
                }
                assert(updates@ =~= delivery_updates(server, message@, chat));
            },
            _ => {},
        }
        updates
    }

    /// Takes the fragment `fragment` of `session`, which came along
    /// `routing`, into the reassembly buffer, and hands back what is left to
    /// do: the message to deliver, if the fragment completed one, and the
    /// acknowledgement, which is owed in any case.
    pub fn handle_fragment_receive(&mut self, routing: Routing, session: Session, fragment: Fragment) -> (res:
        FragmentReceipt)
        ensures
            final(self)@ == (NetworkView {
                partial: after_store(old(self)@.partial, session, fragment@),
                ..old(self)@
            }),
            res.server == origin(routing@.hops),
            payload_view(res.payload) == completed_by(old(self)@.partial, session, fragment@),
            res.ack@ == ack_packet(routing@, session, fragment@.fragment_index),
            old(self)@.inv() ==> final(self)@.inv(),
    {
        let server = if routing.hops.len() > 0 {
            Some(routing.hops[0])
        } else {
            None
        };
        let index = fragment.fragment_index;
        let payload = self.partially_received.store(session, fragment);
        let ack = new_ack(routing, session, index);
        FragmentReceipt { server, payload, ack }
    }

    /// Takes in the answer `flood_response` to a flood: see
    /// [`flood_effect`]. An answer to another flood than the current one
    /// changes nothing.
    pub fn handle_flood_response_receive(&mut self, flood_response: FloodResponse) -> (res: Vec<
        TUICommand,
    >)
        ensures
            flood_response@.flood_id != old(self)@.flood_epoch ==> final(self)@ == old(self)@,
            flood_effect(old(self)@, flood_response@, final(self)@),
            res@ == flood_updates(old(self)@, flood_response@),
            old(self)@.inv() ==> final(self)@.inv(),
    {
        let mut updates: Vec<TUICommand> = Vec::new();
        let ghost before = self@;
        let ghost trace = flood_response@.path_trace;
        if !self.running || flood_response.flood_id != self.current_flood {
            return updates;
        }
        let n = flood_response.path_trace.len();
        if n == 0 {
            return updates;
        }
        let last = flood_response.path_trace[n - 1];
        let leaf = last.0;
        let mut path: Vec<NodeId> = Vec::new();
        let mut i: usize = 0;
        while i < n
            invariant
                n == flood_response.path_trace.len(),
                i <= n,
                path.len() == i,
                forall|j: int| 0 <= j < i ==> path@[j] == flood_response.path_trace@[j].0,
            decreases n - i,
        {
            let entry = flood_response.path_trace[i];
            path.push(entry.0);
            i += 1;
        }
        assert(path@ =~= trace_ids(trace));
        if path[0] != self.id {
            return updates;
        }
        match last.1 {
            NodeType::Client => {},
            NodeType::Drone => {
                let _ = self.add_path(&path, false);
                self.update_unreachable_paths();
            },
            NodeType::Server => {
                self.leaf_types.insert(leaf, None);
                self.paths_to_leafs.set(leaf, None);
                proof {
                    if before.inv() {
                        assert forall|l: NodeId| #[trigger] has_route(self@.routes, l) implies
                            crate::graph::is_route(
                            self@.edges,
                            self@.routes[l]->Some_0,
                            self@.id,
                            l,
                        ) by {
                            assert(has_route(before.routes, l));
                        }
                    }
                }
                self.update_unreachable_paths();
                let ghost swept = self@;
                let _ = self.add_path(&path, true);
                self.update_unreachable_paths();
                let ghost widened = self@;
                assert(unreachable_sweep(
                    before.routes.insert(leaf, None),
                    swept.routes,
                    before.edges,
                    before.id,
                ) && unreachable_sweep(
                    swept.routes,
                    widened.routes,
                    before.edges + path_edges(path@, true),
                    before.id,
                ));
                let query = crate::packet::clone_bytes(&self.server_type_query);
                let accepted = self.send_message(Message::ReqServerType, &query, leaf, None);
                let ghost asked = self@;
                proof {
                    if accepted {
                        let mid = widened.after_accept(
                            MessageView::ReqServerType,
                            query@,
                            leaf,
                            None,
                        );
                        if has_route(mid.routes, leaf) {
                            crate::utils::lemma_drain_same(mid, leaf, asked);
                        }
                    }
                }
                self.check_queued(leaf);
                proof {
                    assert(send_effect(
                        widened,
                        MessageView::ReqServerType,
                        before.server_type_query,
                        leaf,
                        None,
                        asked,
                    ) && drain_of(asked, leaf, self@));
                    assert(server_steps(before, leaf, path@, self@));
                }
                updates.push(TUICommand::UpdateChatRoom(leaf, None, Some(true)));
                assert(updates@ =~= flood_updates(before, flood_response@));
            },
        }
        updates
    }

    /// Deals with `packet`, which has passed the routing check, according to
    /// its kind: see [`packet_effect`]. A stopped client takes nothing in.
    pub fn handle_packet(&mut self, packet: Packet) -> (res: Inbound)
        ensures
            packet_effect(old(self)@, packet@, final(self)@, res),
            old(self)@.inv() ==> final(self)@.inv(),
    {
        if !self.running {
            return Inbound::Done(Vec::new());
        }
        let routing = packet.routing_header;
        let session = packet.session_id;
        match packet.pack_type {
            PacketType::MsgFragment(f) => Inbound::Fragment(
                self.handle_fragment_receive(routing, session, f),
            ),
            PacketType::Ack(a) => Inbound::Done(self.handle_ack_receive(session, a)),
            PacketType::Nack(n) => {
                self.handle_nack_receive(session, n);
                Inbound::Done(Vec::new())
            },
            PacketType::FloodRequest(f_req) => {
                let _ = self.handle_flood_request_receive(session, f_req);
                Inbound::Done(Vec::new())
            },
            PacketType::FloodResponse(f_res) => Inbound::Done(
                self.handle_flood_response_receive(f_res),
            ),
        }
    }

    /// Takes in `packet` as it arrives from a neighbour. A packet whose route
    /// is in error (see [`routing_error`]) is replied to as
    /// [`handle_routing_error`] says; any other is dealt with as
    /// [`Network::handle_packet`] says. A packet whose route is in error, and
    /// any packet that reaches a stopped client, leaves the state as it is.
    pub fn receive(&mut self, packet: Packet) -> (res: Inbound)
        ensures
            !old(self)@.running || routing_error(old(self)@.id, packet@) is Some ==> final(self)@
                == old(self)@ && done_with(res, Seq::empty()),
            old(self)@.running && routing_error(old(self)@.id, packet@) is None ==> packet_effect(
                old(self)@,
                packet@,
                final(self)@,
                res,
            ),
            old(self)@.inv() ==> final(self)@.inv(),
    {
        if !self.running {
            return Inbound::Done(Vec::new());
        }
        match find_routing_error(self.id, &packet) {
            Some(error) => {
                let _ = handle_routing_error(self, packet, error);
                Inbound::Done(Vec::new())
            },
            None => self.handle_packet(packet),
        }
    }
}

/// A nack for a fragment that is not in flight, and that reports no routing
/// error, changes nothing.
pub proof fn lemma_nack_without_flight(
    before: NetworkView,
    session: Session,
    nack: Nack,
    after: NetworkView,
)
    requires
        !(nack.nack_type is ErrorInRouting),
        !in_flight(before.pending, session, nack.fragment_index),
        nack_effect(before, session, nack, after),
    ensures
        after == before,
{
}

/// A nack for a fragment that was acknowledged before, and that reports no
/// routing error, changes nothing.
pub proof fn lemma_nack_after_ack(
    before: NetworkView,
    session: Session,
    index: FragmentIdx,
    nack: Nack,
    after: NetworkView,
)
    requires
        nack.fragment_index == index,
        !(nack.nack_type is ErrorInRouting),
        nack_effect(before.after_ack(session, index), session, nack, after),
    ensures
        after == before.after_ack(session, index),
{
    crate::pending::lemma_acked_not_in_flight(before.pending, session, index);
}

/// Whether the answer `answer` to a flood is taken in by a client in the
/// state `v`: the client is running, the answer belongs to the flood whose
/// answers are taken in, and its trace starts at the client.
pub open spec fn flood_accepted(v: NetworkView, answer: FloodResponseView) -> bool {
    &&& v.running
    &&& answer.flood_id == v.flood_epoch
    &&& starts_at(trace_ids(answer.path_trace), v.id)
}

/// What the front-end is told about the answer `answer` to a flood: that a
/// chat room can be reached, where the answer is taken in and its trace
/// ends at a server.
pub open spec fn flood_updates(v: NetworkView, answer: FloodResponseView) -> Seq<TUICommand> {
    if flood_accepted(v, answer) && answer.path_trace.last().1 == NodeType::Server {
        seq![TUICommand::UpdateChatRoom(answer.path_trace.last().0, None, Some(true))]
    } else {
        Seq::empty()
    }
}

/// The session counter and the flood in force after a request for the kind
/// of the server `leaf` was issued from `before`, given the routes `routes`
/// at that time: the request takes one session id, and where no route to
/// `leaf` is known, the flood that is started takes the next.
pub open spec fn query_sessions(before: NetworkView, routes: crate::paths::Routes, leaf: NodeId) -> (
    Session,
    u64,
) {
    if before.session == u64::MAX {
        (before.session, before.flood_epoch)
    } else {
        let asked = (before.session + 1) as u64;
        if has_route(routes, leaf) || asked == u64::MAX {
            (asked, before.flood_epoch)
        } else {
            ((asked + 1) as u64, asked)
        }
    }
}

/// `after` is what the discovery of the server `leaf` at the end of the
/// trace `ids` can make of `before`. The server is on file, with its kind
/// not known. The path cache has an entry for it, and the unreachable sweep
/// has run twice: over the topology as it was, and again over the topology
/// with the trace taken in, its last step leading to the server only. A
/// request for the server's kind is on record under the session id that was
/// next, unless the ids are used up. What waits in the send queue and what
/// is in flight is as the channels of the neighbours decided.
pub open spec fn server_found(
    before: NetworkView,
    leaf: NodeId,
    ids: Seq<NodeId>,
    after: NetworkView,
) -> bool {
    &&& after == (NetworkView {
        leaf_types: before.leaf_types.insert(leaf, None),
        edges: before.edges + path_edges(ids, true),
        nodes: before.nodes + path_nodes(ids),
        messages: if before.session < u64::MAX {
            before.messages.insert(before.session, MessageView::ReqServerType)
        } else {
            before.messages
        },
        routes: after.routes,
        queued: after.queued,
        pending: after.pending,
        session: after.session,
        flood_epoch: after.flood_epoch,
        ..before
    })
    &&& exists|first: crate::paths::Routes|
        unreachable_sweep(before.routes.insert(leaf, None), first, before.edges, before.id)
            && #[trigger] unreachable_sweep(
            first,
            after.routes,
            before.edges + path_edges(ids, true),
            before.id,
        )
    &&& (after.session, after.flood_epoch) == query_sessions(before, after.routes, leaf)
    &&& server_steps(before, leaf, ids, after)
}

/// The steps that lead from `before` to `after` when the server `leaf` is
/// discovered at the end of the trace `ids`: the server is put on file, the
/// unreachable sweep runs, the trace is taken into the topology, the sweep
/// runs again, the request for the server's kind is sent, and the send queue
/// of the server is drained.
pub open spec fn server_steps(
    before: NetworkView,
    leaf: NodeId,
    ids: Seq<NodeId>,
    after: NetworkView,
) -> bool {
    let filed = NetworkView {
        leaf_types: before.leaf_types.insert(leaf, None),
        routes: before.routes.insert(leaf, None),
        ..before
    };
    exists|swept: NetworkView, widened: NetworkView, asked: NetworkView|
        {
            &&& #[trigger] unreachable_steps(filed, NODE_IDS as int, swept)
            &&& unreachable_steps(
                NetworkView {
                    edges: swept.edges + path_edges(ids, true),
                    nodes: swept.nodes + path_nodes(ids),
                    ..swept
                },
                NODE_IDS as int,
                widened,
            )
            &&& #[trigger] send_effect(
                widened,
                MessageView::ReqServerType,
                before.server_type_query,
                leaf,
                None,
                asked,
            )
            &&& drain_of(asked, leaf, after)
        }
}

/// `after` is what the answer `answer` to a flood can make of `before`. An
/// answer that is not taken in (see [`flood_accepted`]) changes nothing. A
/// trace that ends at a drone is taken into the topology, every step but
/// the first in both directions, and the unreachable sweep runs over the
/// result. A trace that ends at another client is passed over. A trace that
/// ends at a server makes the server known: see [`server_found`].
pub open spec fn flood_effect(before: NetworkView, answer: FloodResponseView, after: NetworkView) -> bool {
    if !flood_accepted(before, answer) {
        after == before
    } else {
        let ids = trace_ids(answer.path_trace);
        match answer.path_trace.last().1 {
            NodeType::Client => after == before,
            NodeType::Drone => {
                &&& unreachable_steps(
                    NetworkView {
                        edges: before.edges + path_edges(ids, false),
                        nodes: before.nodes + path_nodes(ids),
                        ..before
                    },
                    NODE_IDS as int,
                    after,
                )
                &&& same_but_traffic(
                    NetworkView {
                        edges: before.edges + path_edges(ids, false),
                        nodes: before.nodes + path_nodes(ids),
                        routes: after.routes,
                        ..before
                    },
                    after,
                )
                &&& unreachable_sweep(
                    before.routes,
                    after.routes,
                    before.edges + path_edges(ids, false),
                    before.id,
                )
            },
            NodeType::Server => server_found(before, answer.path_trace.last().0, ids, after),
        }
    }
}

/// How the state `after` and the result `res` relate to the state `before`
/// in which a running client took in `packet`.
pub open spec fn packet_effect(
    before: NetworkView,
    packet: PacketView,
    after: NetworkView,
    res: Inbound,
) -> bool {
    if !before.running {
        after == before && done_with(res, Seq::empty())
    } else {
        match packet.pack_type {
            PacketTypeView::MsgFragment(f) => {
                &&& after == (NetworkView {
                    partial: after_store(before.partial, packet.session_id, f),
                    ..before
                })
                &&& receipt_with(
                    res,
                    origin(packet.routing_header.hops),
                    completed_by(before.partial, packet.session_id, f),
                    ack_packet(packet.routing_header, packet.session_id, f.fragment_index),
                )
            },
            PacketTypeView::Ack(a) => {
                &&& after == before.after_ack(packet.session_id, a.fragment_index)
                &&& done_with(res, ack_updates(before, packet.session_id, a.fragment_index))
            },
            PacketTypeView::Nack(n) => {
                &&& nack_effect(before, packet.session_id, n, after)
                &&& (match n.nack_type {
                    NackType::ErrorInRouting(node) => node != before.id ==> !after.nodes.contains(
                        node,
                    ),
                    _ => true,
                })
                &&& done_with(res, Seq::empty())
            },
            PacketTypeView::FloodRequest(_) => {
                &&& after == before
                &&& done_with(res, Seq::empty())
            },
            PacketTypeView::FloodResponse(r) => {
                &&& flood_effect(before, r, after)
                &&& done_with(res, flood_updates(before, r))
            },
        }
    }
}

} // verus!
