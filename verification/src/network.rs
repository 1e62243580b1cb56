//! Router core: the state of the client and what holds of it at all times.

use crate::channel::{try_send, LeafEvent};
use crate::graph::{is_route, Topology};
use crate::message::{Message, MessageView, ServerType};
use crate::packet::{NodeId, Packet, PacketType, PacketView, RoutingView, Session};
use crate::paths::{has_route, PathCache, Routes};
use crate::pending::{after_register, pending_indices, PendingAcks, PendingView};
use crate::queue::{only_fragments, waiting_for, QueueView, SendQueue};
use crate::reassembly::{Reassembly, Slots};
use crossbeam_channel::Sender;
use std::collections::HashMap;
use vstd::prelude::*;

verus! {

broadcast use vstd::std_specs::hash::group_hash_axioms;

/// The state of a client on the overlay.
pub struct Network {
    pub(crate) id: NodeId,
    pub(crate) packet_send: HashMap<NodeId, Sender<Packet>>,
    pub(crate) controller_send: Sender<LeafEvent>,
    pub(crate) topology: Topology,
    pub(crate) packs_waiting_for_ack: PendingAcks,
    pub(crate) messages_waiting_for_ack: HashMap<Session, Message>,
    pub(crate) queued_packs: SendQueue,
    pub(crate) paths_to_leafs: PathCache,
    pub(crate) leaf_types: HashMap<NodeId, Option<ServerType>>,
    pub(crate) partially_received: Reassembly,
    pub(crate) current_session: Session,
    pub(crate) current_flood: u64,
    pub(crate) server_type_query: Vec<u8>,
    pub(crate) running: bool,
}

/// Mathematical value of a [`Network`].
pub struct NetworkView {
    /// This node.
    pub id: NodeId,
    /// The neighbours a link exists to.
    pub neighbours: Set<NodeId>,
    /// The nodes of the topology.
    pub nodes: Set<NodeId>,
    /// The edges of the topology, each as (source, target).
    pub edges: Set<(NodeId, NodeId)>,
    /// The fragments in flight, per session.
    pub pending: Map<Session, PendingView>,
    /// The messages whose fragments are not all acknowledged, per session.
    pub messages: Map<Session, MessageView>,
    /// The fragments that wait for a route, per destination.
    pub queued: Map<NodeId, QueueView>,
    /// The route in use, per destination.
    pub routes: Routes,
    /// The kind of each server leaf, where it has answered.
    pub leaf_types: Map<NodeId, Option<ServerType>>,
    /// The partial inbound messages, per session.
    pub partial: Map<Session, Slots>,
    /// The next session id to hand out.
    pub session: Session,
    /// The id of the flood whose answers are taken in.
    pub flood_epoch: u64,
    /// The encoded request for a server's kind.
    pub server_type_query: Seq<u8>,
    /// Whether the client is running; once stopped, it stays stopped and
    /// emits nothing.
    pub running: bool,
}

/// The values of the messages in `m`.
pub open spec fn message_views(m: Map<Session, Message>) -> Map<Session, MessageView> {
    Map::new(|s: Session| m.contains_key(s), |s: Session| m[s]@)
}

/// The leaf a routed packet is for: the last hop of its route.
pub open spec fn destination(routing: RoutingView) -> Option<NodeId> {
    if routing.hops.len() > 0 {
        Some(routing.hops[routing.hops.len() - 1])
    } else {
        None
    }
}

/// No session is on record without a packet in flight.
pub open spec fn no_idle_sessions(pending: Map<Session, PendingView>) -> bool {
    forall|s: Session| #[trigger] pending.contains_key(s) ==> pending[s].packets.len() > 0
}

/// Every known route leads from `id` to its leaf along edges of `edges`.
pub open spec fn routes_valid(routes: Routes, edges: Set<(NodeId, NodeId)>, id: NodeId) -> bool {
    forall|leaf: NodeId| #[trigger]
        has_route(routes, leaf) ==> is_route(edges, routes[leaf]->Some_0, id, leaf)
}

/// Mathematical value of a [`LeafEvent`].
pub enum LeafEventView {
    PacketSend(PacketView),
    ControllerShortcut(PacketView),
}

impl View for LeafEvent {
    type V = LeafEventView;

    open spec fn view(&self) -> LeafEventView {
        match self {
            LeafEvent::PacketSend(p) => LeafEventView::PacketSend(p@),
            LeafEvent::ControllerShortcut(p) => LeafEventView::ControllerShortcut(p@),
        }
    }
}

/// The value of an event that may be absent.
pub open spec fn event_view(event: Option<LeafEvent>) -> Option<LeafEventView> {
    match event {
        Some(e) => Some(e@),
        None => None,
    }
}

impl NetworkView {
    /// What holds of the stores between any two operations, whatever the
    /// topology: only fragments wait in the send queue, and no session is on
    /// record without a packet in flight.
    pub open spec fn stores_wf(self) -> bool {
        &&& only_fragments(self.queued)
        &&& no_idle_sessions(self.pending)
    }

    /// What holds of the state between any two operations: this node is in
    /// the topology, every known route is a route of the topology from this
    /// node to its leaf, and the stores are well formed.
    pub open spec fn inv(self) -> bool {
        &&& self.nodes.contains(self.id)
        &&& routes_valid(self.routes, self.edges, self.id)
        &&& self.stores_wf()
    }

    /// The state after `pack` was offered to a neighbour, `sent` telling
    /// whether the neighbour's channel took it. A fragment that was taken is
    /// in flight to the last hop of its route; a fragment that was not taken
    /// waits for that leaf again. No other packet leaves a trace.
    pub open spec fn after_dispatch(
        self,
        pack: PacketView,
        sent: bool,
        recipient: Option<NodeId>,
    ) -> NetworkView {
        match destination(pack.routing_header) {
            Some(leaf) if pack.is_fragment() => {
                if sent {
                    NetworkView {
                        pending: after_register(self.pending, pack, leaf, recipient),
                        ..self
                    }
                } else {
                    NetworkView {
                        queued: self.queued.insert(
                            leaf,
                            QueueView {
                                recipient,
                                packets: waiting_for(self.queued, leaf).push(pack),
                            },
                        ),
                        ..self
                    }
                }
            },
            _ => self,
        }
    }
}

/// The event that the controller is sent after `pack` was offered to a
/// neighbour: one "packet sent" per packet that was taken; a shortcut
/// request for a packet that was not taken and is neither a fragment, which
/// is queued again, nor a flood request, which is dropped.
pub open spec fn dispatch_event(pack: PacketView, sent: bool) -> Option<LeafEventView> {
    if sent {
        Some(LeafEventView::PacketSend(pack))
    } else if pack.is_fragment() || pack.pack_type is FloodRequest {
        None
    } else {
        Some(LeafEventView::ControllerShortcut(pack))
    }
}

/// Whom a packet was handed to, and whether the channel there took it.
#[derive(Debug, Clone, Copy, PartialEq, Eq, Structural)]
pub enum Handed {
    /// The packet was offered to this neighbour, and the outcome is booked
    /// as [`NetworkView::after_dispatch`] says.
    Neighbour(NodeId, bool),
    /// The controller was asked to deliver the packet.
    Controller(bool),
    /// The packet was handed to nobody.
    Nobody,
}

/// In a state that meets [`NetworkView::inv`], every known route starts at
/// this node and ends at the leaf it is filed under.
pub proof fn lemma_routes_anchored(v: NetworkView)
    requires
        v.inv(),
    ensures
        crate::paths::routes_anchored(v.routes, v.id),
{
    assert forall|leaf: NodeId| #[trigger] has_route(v.routes, leaf) implies {
        let p = v.routes[leaf]->Some_0;
        p.len() >= 1 && p[0] == v.id && p[p.len() - 1] == leaf
    } by {
        assert(is_route(v.edges, v.routes[leaf]->Some_0, v.id, leaf));
    }
}

/// What a dispatch does to the fragments in flight. A fragment that a
/// neighbour took, and that has a route, joins those in flight for its
/// session; the other sessions keep theirs. A packet that was not taken, or
/// that is no routed fragment, changes none.
pub proof fn lemma_dispatch_indices(
    v: NetworkView,
    pack: PacketView,
    sent: bool,
    recipient: Option<NodeId>,
)
    ensures
        forall|s: Session|
            #![trigger pending_indices(v.after_dispatch(pack, sent, recipient).pending, s)]
            pending_indices(v.after_dispatch(pack, sent, recipient).pending, s) == if sent
                && pack.is_fragment() && destination(pack.routing_header) is Some && s
                == pack.session_id {
                pending_indices(v.pending, s).insert(pack.fragment_index())
            } else {
                pending_indices(v.pending, s)
            },
{
    let w = v.after_dispatch(pack, sent, recipient);
    if sent && pack.is_fragment() && destination(pack.routing_header) is Some {
        let prior = if v.pending.contains_key(pack.session_id) {
            v.pending[pack.session_id].packets
        } else {
            Seq::empty()
        };
        crate::pending::lemma_indices_registered(prior, pack);
        assert(crate::pending::indices(Seq::<PacketView>::empty()) =~= Set::<
            crate::packet::FragmentIdx,
        >::empty());
    }
}

impl Network {
    /// The state as a mathematical value.
    pub open(crate) spec fn view(&self) -> NetworkView {
        NetworkView {
            id: self.id,
            neighbours: self.packet_send@.dom(),
            nodes: self.topology.nodes(),
            edges: self.topology.edges(),
            pending: self.packs_waiting_for_ack@,
            messages: message_views(self.messages_waiting_for_ack@),
            queued: self.queued_packs@,
            routes: self.paths_to_leafs@,
            leaf_types: self.leaf_types@,
            partial: self.partially_received@,
            session: self.current_session,
            flood_epoch: self.current_flood,
            server_type_query: self.server_type_query@,
            running: self.running,
        }
    }

    /// A running client `id` with the given links to its neighbours and to
    /// the controller. It knows no node but itself and its session counter is
    /// at 0. `server_type_query` is the encoded request for a server's kind,
    /// which the client sends to every server it discovers.
    pub fn new(
        id: NodeId,
        packet_send: HashMap<NodeId, Sender<Packet>>,
        controller_send: Sender<LeafEvent>,
        server_type_query: Vec<u8>,
    ) -> (res: Self)
        ensures
            res@ == (NetworkView {
                id,
                neighbours: packet_send@.dom(),
                nodes: set![id],
                edges: Set::empty(),
                pending: Map::empty(),
                messages: Map::empty(),
                queued: Map::empty(),
                routes: Map::empty(),
                leaf_types: Map::empty(),
                partial: Map::empty(),
                session: 0,
                flood_epoch: 0,
                server_type_query: server_type_query@,
                running: true,
            }),
            res@.inv(),
    {
        let mut topology = Topology::new();
        topology.add_node(id);
        let res = Network {
            id,
            packet_send,
            controller_send,
            topology,
            packs_waiting_for_ack: PendingAcks::new(),
            messages_waiting_for_ack: HashMap::new(),
            queued_packs: SendQueue::new(),
            paths_to_leafs: PathCache::new(),
            leaf_types: HashMap::new(),
            partially_received: Reassembly::new(),
            current_session: 0,
            current_flood: 0,
            server_type_query,
            running: true,
        };
        assert(res@.nodes =~= set![id]);
        assert(res@.messages =~= Map::empty());
        res
    }

    /// Hands out the next session id, unless the counter has reached its
    /// last value: no id is ever handed out twice.
    pub(crate) fn next_session(&mut self) -> (res: Option<Session>)
        ensures
            match res {
                Some(s) => s == old(self)@.session && s < u64::MAX && final(self)@ == (NetworkView {
                    session: (s + 1) as u64,
                    ..old(self)@
                }),
                None => old(self)@.session == u64::MAX && final(self)@ == old(self)@,
            },
    {
        if self.current_session < u64::MAX {
            let s = self.current_session;
            self.current_session = s + 1;
            Some(s)
        } else {
            None
        }
    }

    /// Books the outcome of offering `pack` to a neighbour, and says what the
    /// controller is to be told.
    pub fn record_dispatch(&mut self, pack: Packet, sent: bool, recipient: Option<NodeId>) -> (res:
        Option<LeafEvent>)
        ensures
            final(self)@ == old(self)@.after_dispatch(pack@, sent, recipient),
            event_view(res) == dispatch_event(pack@, sent),
            old(self)@.stores_wf() ==> final(self)@.stores_wf(),
            old(self)@.inv() ==> final(self)@.inv(),
    {
        let ghost pv = pack@;
        proof {
            if old(self)@.stores_wf() {
                crate::utils::lemma_after_dispatch_wf(old(self)@, pv, sent, recipient);
            }
        }
        let is_fragment = pack.is_fragment();
        let n = pack.routing_header.hops.len();
        if sent {
            if is_fragment && n > 0 {
                let server = pack.routing_header.hops[n - 1];
                let copy = pack.clone();
                self.packs_waiting_for_ack.register(copy, server, recipient);
            }
            Some(LeafEvent::PacketSend(pack))
        } else {
            if is_fragment {
                if n > 0 {
                    let leaf = pack.routing_header.hops[n - 1];
                    self.queued_packs.push(leaf, recipient, pack);
                }
                None
            } else {
                match &pack.pack_type {
                    PacketType::FloodRequest(_) => None,
                    _ => Some(LeafEvent::ControllerShortcut(pack)),
                }
            }
        }
    }

    /// Asks the controller to deliver `packet` out of band, and returns
    /// whether the controller's channel took the request. A stopped client
    /// asks nothing. The state of the client stays as it is.
    pub fn controller_shortcut(&mut self, packet: Packet) -> (sent: bool)
        ensures
            final(self)@ == old(self)@,
            !old(self)@.running ==> !sent,
    {
        if self.running {
            try_send(&self.controller_send, LeafEvent::ControllerShortcut(packet))
        } else {
            false
        }
    }

    /// Offers `pack` to the neighbour behind `sender`, books the outcome (see
    /// [`NetworkView::after_dispatch`]) and tells the controller (see
    /// [`dispatch_event`]). Returns whether the channel took the packet. A
    /// stopped client offers nothing.
    pub fn send_packet(&mut self, pack: Packet, sender: &Sender<Packet>, recipient: Option<NodeId>) -> (sent:
        bool)
        ensures
            old(self)@.running ==> final(self)@ == old(self)@.after_dispatch(
                pack@,
                sent,
                recipient,
            ),
            !old(self)@.running ==> !sent && final(self)@ == old(self)@,
            old(self)@.stores_wf() ==> final(self)@.stores_wf(),
            old(self)@.inv() ==> final(self)@.inv(),
    {
        if !self.running {
            return false;
        }
        let copy = pack.clone();
        let sent = try_send(sender, copy);
        let event = self.record_dispatch(pack, sent, recipient);
        match event {
            Some(e) => {
                let _ = try_send(&self.controller_send, e);
            },
            None => {},
        }
        sent
    }

    /// Whether the client is running.
    pub fn is_running(&self) -> (res: bool)
        ensures
            res == self@.running,
    {
        self.running
    }

    /// The next session id to hand out.
    pub fn current_session(&self) -> (res: Session)
        ensures
            res == self@.session,
    {
        self.current_session
    }

    /// The id of the flood whose answers are taken in.
    pub fn current_flood_epoch(&self) -> (res: u64)
        ensures
            res == self@.flood_epoch,
    {
        self.current_flood
    }

    /// Whether a link to the neighbour `n` exists.
    pub fn has_neighbour(&self, n: NodeId) -> (res: bool)
        ensures
            res == self@.neighbours.contains(n),
    {
        self.packet_send.contains_key(&n)
    }

    /// Whether `n` is a node of the topology.
    pub fn knows_node(&self, n: NodeId) -> (res: bool)
        ensures
            res == self@.nodes.contains(n),
    {
        self.topology.contains_node(n)
    }

    /// Whether the topology has the edge from `a` to `b`.
    pub fn knows_edge(&self, a: NodeId, b: NodeId) -> (res: bool)
        ensures
            res == self@.edges.contains((a, b)),
    {
        self.topology.contains_edge(a, b)
    }

    /// Whether the path cache has an entry for `leaf`.
    pub fn knows_leaf(&self, leaf: NodeId) -> (res: bool)
        ensures
            res == self@.routes.contains_key(leaf),
    {
        self.paths_to_leafs.contains(leaf)
    }

    /// A copy of the route to `leaf` that is in use, where one is known.
    pub fn route_to(&self, leaf: NodeId) -> (res: Option<Vec<NodeId>>)
        ensures
            res is Some <==> has_route(self@.routes, leaf),
            res is Some ==> Some(res->Some_0@) == self@.routes[leaf],
    {
        self.paths_to_leafs.route(leaf)
    }

    /// What is on file about the kind of the server `leaf`: `None` where the
    /// server is not known, `Some(None)` where it has not answered yet.
    pub fn leaf_type(&self, leaf: NodeId) -> (res: Option<Option<ServerType>>)
        ensures
            res is Some <==> self@.leaf_types.contains_key(leaf),
            res is Some ==> res->Some_0 == self@.leaf_types[leaf],
    {
        match self.leaf_types.get(&leaf) {
            Some(kind) => Some(*kind),
            None => None,
        }
    }

    /// Number of packets that wait for a route to `leaf`.
    pub fn queued_for(&self, leaf: NodeId) -> (res: usize)
        ensures
            res == waiting_for(self@.queued, leaf).len(),
    {
        self.queued_packs.waiting(leaf)
    }

    /// Number of packets of `session` that are in flight.
    pub fn in_flight(&self, session: Session) -> (res: usize)
        ensures
            res == (if self@.pending.contains_key(session) {
                self@.pending[session].packets.len()
            } else {
                0
            }),
    {
        self.packs_waiting_for_ack.count(session)
    }

    /// Whether a message is on record under `session`.
    pub fn awaits_ack(&self, session: Session) -> (res: bool)
        ensures
            res == self@.messages.contains_key(session),
    {
        self.messages_waiting_for_ack.contains_key(&session)
    }

    /// Whether a partial inbound message is held for `session`.
    pub fn is_reassembling(&self, session: Session) -> (res: bool)
        ensures
            res == self@.partial.contains_key(session),
    {
        self.partially_received.contains(session)
    }

    /// The id of this node.
    pub fn get_id(&self) -> (res: NodeId)
        ensures
            res == self@.id,
    {
        self.id
    }
}

} // verus!
