//! Outbound side of the router core: flood discovery and the sending of
//! messages.

use crate::message::{fragments_of, into_fragments, fragment_views, Message, MessageView};
use crate::network::{Network, NetworkView};
use crate::packet::{
    FloodRequest, FloodRequestView, Fragment, NodeId, NodeType, Packet, PacketTypeView, PacketView,
    Routing, RoutingView, Session,
};
use crate::paths::has_route;
use crate::queue::{waiting_for, QueueView};
use crate::utils::drain_of;
use vstd::prelude::*;

verus! {

broadcast use vstd::std_specs::hash::group_hash_axioms;

/// The packet that starts flood `flood_id` at the client `id`: no route, and
/// a trace that holds the client alone.
pub open spec fn flood_packet(flood_id: u64, id: NodeId) -> PacketView {
    PacketView {
        routing_header: RoutingView { hop_index: 0, hops: Seq::empty() },
        session_id: 0,
        pack_type: PacketTypeView::FloodRequest(
            FloodRequestView {
                flood_id,
                initiator_id: id,
                path_trace: seq![(id, NodeType::Client)],
            },
        ),
    }
}

/// The packets that carry the fragments of `payload` under `session`, in
/// index order, none of them routed yet.
pub open spec fn fragment_packets(session: Session, payload: Seq<u8>) -> Seq<PacketView> {
    Seq::new(
        fragments_of(payload).len(),
        |i: int|
            PacketView {
                routing_header: RoutingView { hop_index: 0, hops: Seq::empty() },
                session_id: session,
                pack_type: PacketTypeView::MsgFragment(fragments_of(payload)[i]),
            },
    )
}

impl NetworkView {
    /// The state after a flood was started: the flood got the next session
    /// id, and its answers are the ones taken in from now on. In a stopped
    /// client, or with the session ids used up, no flood starts.
    pub open spec fn after_flood(self) -> NetworkView {
        if self.running && self.session < u64::MAX {
            NetworkView {
                session: (self.session + 1) as u64,
                flood_epoch: self.session,
                ..self
            }
        } else {
            self
        }
    }

    /// The session a message is sent under: the one the caller names, or
    /// else the next session id.
    pub open spec fn session_for(self, session: Option<Session>) -> Session {
        match session {
            Some(s) => s,
            None => self.session,
        }
    }

    /// The state after a message for `target` was accepted and before any of
    /// it left: one session id is used up, the message is on record under
    /// its session, and its fragments wait for `target` behind what waited
    /// there before.
    pub open spec fn after_accept(
        self,
        message: MessageView,
        payload: Seq<u8>,
        target: NodeId,
        session: Option<Session>,
    ) -> NetworkView {
        let sid = self.session_for(session);
        NetworkView {
            session: (self.session + 1) as u64,
            messages: self.messages.insert(sid, message),
            queued: self.queued.insert(
                target,
                QueueView {
                    recipient: message.recipient(),
                    packets: waiting_for(self.queued, target) + fragment_packets(sid, payload),
                },
            ),
            ..self
        }
    }
}

/// `after` is what the sending of `message`, whose encoded form is
/// `payload`, to the leaf `target` can make of `before`. In a stopped client,
/// and with the session ids used up, nothing changes. Otherwise the message
/// is accepted (see [`NetworkView::after_accept`]); with a route to `target`
/// known, the send queue of `target` is then drained; without one, a flood
/// is started and the fragments wait.
pub open spec fn send_effect(
    before: NetworkView,
    message: MessageView,
    payload: Seq<u8>,
    target: NodeId,
    session: Option<Session>,
    after: NetworkView,
) -> bool {
    if !(before.running && before.session < u64::MAX) {
        after == before
    } else {
        let mid = before.after_accept(message, payload, target, session);
        if has_route(mid.routes, target) {
            drain_of(mid, target, after)
        } else {
            after == mid.after_flood()
        }
    }
}

/// Builds the packet that starts flood `flood_id` at the client `id`.
pub fn new_flood_request(flood_id: u64, id: NodeId) -> (res: Packet)
    ensures
        res@ == flood_packet(flood_id, id),
{
    Packet::new_flood_request(
        Routing::empty_route(),
        0,
        FloodRequest::initialize(flood_id, id, NodeType::Client),
    )
}

impl Network {
    /// Starts a flood: takes the next session id as the flood's id, makes it
    /// the flood whose answers are taken in, and offers one flood request to
    /// every neighbour, in the order of their ids. In a stopped client, or
    /// with the session ids used up, nothing happens.
    pub fn initiate_flood(&mut self)
        ensures
            final(self)@ == old(self)@.after_flood(),
            old(self)@.inv() ==> final(self)@.inv(),
    {
        if !self.running {
            return ;
        }
        let flood_id = match self.next_session() {
            Some(s) => s,
            None => {
                return ;
            },
        };
        self.current_flood = flood_id;
        let packet = new_flood_request(flood_id, self.id);
        let ghost target = self@;
        let mut n: u16 = 0;
        while n < 256
            invariant
                n <= 256,
                self@ == target,
                packet@ == flood_packet(flood_id, target.id),
            decreases 256 - n,
        {
            let hop = n as u8;
            let _ = self.offer(hop, packet.clone(), None);
            n += 1;
        }
    }

    /// Sends `message`, whose encoded form is `payload`, to the leaf `target`,
    /// under `session` or else under the next session id: see
    /// [`send_effect`]. Returns whether the message was accepted; it is not
    /// in a stopped client and when the session ids are used up.
    pub fn send_message(
        &mut self,
        message: Message,
        payload: &Vec<u8>,
        target: NodeId,
        session: Option<Session>,
    ) -> (accepted: bool)
        ensures
            accepted == (old(self)@.running && old(self)@.session < u64::MAX),
            send_effect(old(self)@, message@, payload@, target, session, final(self)@),
            old(self)@.stores_wf() ==> final(self)@.stores_wf(),
            old(self)@.inv() ==> final(self)@.inv(),
    {
        if !self.running {
            return false;
        }
        let own = match self.next_session() {
            Some(s) => s,
            None => {
                return false;
            },
        };
        let sid = match session {
            Some(s) => s,
            None => own,
        };
        let recipient = message.recipient();
        let ghost mv = message@;
        self.messages_waiting_for_ack.insert(sid, message);
        assert(self@.messages =~= old(self)@.messages.insert(sid, mv));
        let frags = into_fragments(payload);
        let ghost packets = fragment_packets(sid, payload@);
        let ghost queued0 = old(self)@.queued;
        let ghost start = self@;
        assert(frags.len() == packets.len()) by {
            assert(fragment_views(frags@).len() == fragments_of(payload@).len());
        }
        let mut i: usize = 0;
        while i < frags.len()
            invariant
                i <= frags.len(),
                frags.len() == packets.len(),
                frags.len() >= 1,
                fragment_views(frags@) == fragments_of(payload@),
                packets == fragment_packets(sid, payload@),
                start.queued == queued0,
                self@ == (NetworkView { queued: self@.queued, ..start }),
                i == 0 ==> self@.queued == queued0,
                i > 0 ==> self@.queued == queued0.insert(
                    target,
                    QueueView {
                        recipient,
                        packets: waiting_for(queued0, target) + packets.subrange(0, i as int),
                    },
                ),
            decreases frags.len() - i,
        {
            let frag: Fragment = frags[i].clone();
            assert(frag@ == fragment_views(frags@)[i as int]);
            let pack = Packet::new_fragment(Routing::empty_route(), sid, frag);
            assert(pack@ == packets[i as int]);
            self.queued_packs.push(target, recipient, pack);
            proof {
                let before = waiting_for(queued0, target) + packets.subrange(0, i as int);
                assert(before.push(packets[i as int]) =~= waiting_for(queued0, target)
                    + packets.subrange(0, i + 1));
                if i == 0 {
                    assert(before =~= waiting_for(queued0, target));
                }
                assert(self@.queued =~= queued0.insert(
                    target,
                    QueueView {
                        recipient,
                        packets: waiting_for(queued0, target) + packets.subrange(0, i + 1),
                    },
                ));
            }
            i += 1;
        }
        proof {
            assert(packets.subrange(0, frags.len() as int) == packets);
            assert(self@ == old(self)@.after_accept(mv, payload@, target, session));
            if old(self)@.stores_wf() {
                lemma_after_accept_wf(old(self)@, mv, payload@, target, session);
            }
        }
        if self.paths_to_leafs.is_known(target) {
            self.check_queued(target);
        } else {
            self.initiate_flood();
        }
        true
    }
}

/// Accepting a message leaves the traffic stores well formed.
pub proof fn lemma_after_accept_wf(
    v: NetworkView,
    message: MessageView,
    payload: Seq<u8>,
    target: NodeId,
    session: Option<Session>,
)
    requires
        v.stores_wf(),
    ensures
        v.after_accept(message, payload, target, session).stores_wf(),
{
    let w = v.after_accept(message, payload, target, session);
    let sid = v.session_for(session);
    assert forall|l: NodeId, i: int|
        w.queued.contains_key(l) && 0 <= i < w.queued[l].packets.len() implies (
    #[trigger] w.queued[l].packets[i]).is_fragment() by {
        if l == target {
            let old_len = waiting_for(v.queued, target).len();
            if i < old_len {
                assert(v.queued[l].packets[i].is_fragment());
            } else {
                assert(w.queued[l].packets[i] == fragment_packets(sid, payload)[i - old_len]);
            }
        } else {
            assert(v.queued[l].packets[i].is_fragment());
        }
    }
}

/// The first `k` packets of a message as they leave along `route`.
pub open spec fn stamped_prefix(
    session: Session,
    payload: Seq<u8>,
    route: Seq<NodeId>,
    k: int,
) -> Seq<PacketView> {
    Seq::new(
        k as nat,
        |i: int| fragment_packets(session, payload)[i].with_routing(crate::utils::stamp(route)),
    )
}

/// Where the first `k` fragments of a message leave along a route, one
/// after the other, and a neighbour takes each of them, they are in flight
/// afterwards in the order of their indices, and nothing of them waits.
proof fn lemma_in_order_prefix(
    v: NetworkView,
    route: Seq<NodeId>,
    recipient: Option<NodeId>,
    session: Session,
    payload: Seq<u8>,
    k: int,
)
    requires
        route.len() > 0,
        !v.pending.contains_key(session),
        payload.len() <= usize::MAX,
        1 <= k <= fragment_packets(session, payload).len(),
    ensures
        crate::utils::drain_fold(
            v,
            route,
            recipient,
            fragment_packets(session, payload).subrange(0, k),
            Seq::new(k as nat, |i: int| true),
        ) == (NetworkView {
            pending: v.pending.insert(
                session,
                crate::pending::PendingView {
                    server: route[route.len() - 1],
                    recipient,
                    packets: stamped_prefix(session, payload, route, k),
                },
            ),
            ..v
        }),
    decreases k,
{
    let packets = fragment_packets(session, payload);
    let taken = packets.subrange(0, k);
    let outcomes = Seq::new(k as nat, |i: int| true);
    let leaf = route[route.len() - 1];
    let last = taken.last().with_routing(crate::utils::stamp(route));
    let mid = crate::utils::drain_fold(
        v,
        route,
        recipient,
        taken.drop_last(),
        outcomes.drop_last(),
    );
    let after = crate::utils::drain_fold(v, route, recipient, taken, outcomes);
    assert(after == mid.after_dispatch(last, outcomes.last(), recipient));
    assert(taken.drop_last() == packets.subrange(0, k - 1));
    assert(outcomes.drop_last() == Seq::new((k - 1) as nat, |i: int| true));
    assert(taken.last() == packets[k - 1]);
    assert(last.is_fragment() && last.session_id == session && last.fragment_index() == k - 1);
    assert(crate::network::destination(last.routing_header) == Some(leaf));
    let wanted = stamped_prefix(session, payload, route, k);
    if k == 1 {
        assert(packets.subrange(0, 0) =~= Seq::<PacketView>::empty());
        assert(mid == v);
        assert(crate::pending::registered(Seq::empty(), last) =~= wanted);
        assert(after.pending =~= v.pending.insert(
            session,
            crate::pending::PendingView { server: leaf, recipient, packets: wanted },
        ));
    } else {
        lemma_in_order_prefix(v, route, recipient, session, payload, k - 1);
        let so_far = stamped_prefix(session, payload, route, k - 1);
        assert(mid.pending[session].packets == so_far);
        assert(crate::pending::find_naming(so_far, last.fragment_index()) == so_far.len()) by {
            crate::pending::lemma_find_naming(so_far, last.fragment_index());
            let at = crate::pending::find_naming(so_far, last.fragment_index());
            if at < so_far.len() {
                assert(so_far[at].fragment_index() == at);
            }
        }
        assert(crate::pending::registered(so_far, last) =~= wanted);
        assert(after.pending =~= v.pending.insert(
            session,
            crate::pending::PendingView { server: leaf, recipient, packets: wanted },
        ));
    }
}

/// Where all fragments of a message leave along a route, one after the
/// other, and a neighbour takes each of them, they are in flight afterwards
/// in the order of their indices, and nothing of them waits.
pub proof fn lemma_in_order_dispatch(
    v: NetworkView,
    route: Seq<NodeId>,
    recipient: Option<NodeId>,
    session: Session,
    payload: Seq<u8>,
)
    requires
        route.len() > 0,
        !v.pending.contains_key(session),
        payload.len() <= usize::MAX,
    ensures
        crate::utils::drain_fold(
            v,
            route,
            recipient,
            fragment_packets(session, payload),
            Seq::new(fragment_packets(session, payload).len(), |i: int| true),
        ) == (NetworkView {
            pending: v.pending.insert(
                session,
                crate::pending::PendingView {
                    server: route[route.len() - 1],
                    recipient,
                    packets: stamped_prefix(
                        session,
                        payload,
                        route,
                        fragment_packets(session, payload).len() as int,
                    ),
                },
            ),
            ..v
        }),
{
    let packets = fragment_packets(session, payload);
    lemma_in_order_prefix(v, route, recipient, session, payload, packets.len() as int);
    assert(packets.subrange(0, packets.len() as int) == packets);
}

} // verus!
