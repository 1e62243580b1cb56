//! Pending-ack store: for each session, the fragment packets that were handed
//! to a neighbour and are not acknowledged yet.

use crate::packet::{
    packet_views, FragmentIdx, NodeId, Packet, PacketType, PacketView, Session,
};
use std::collections::HashMap;
use vstd::prelude::*;

verus! {

broadcast use vstd::std_specs::hash::group_hash_axioms;

/// What is in flight for one session: the server the message goes to, the
/// chat peer it is relayed to, if any, and the packets still unacknowledged.
pub struct PendingView {
    pub server: NodeId,
    pub recipient: Option<NodeId>,
    pub packets: Seq<PacketView>,
}

/// `p` carries the fragment with index `index`.
pub open spec fn names(p: PacketView, index: FragmentIdx) -> bool {
    p.is_fragment() && p.fragment_index() == index
}

/// Position of the first packet at or after `start` that carries fragment
/// `index`; the length of the list where there is none.
pub open spec fn find_from(packets: Seq<PacketView>, index: FragmentIdx, start: int) -> int
    decreases packets.len() - start,
{
    if start < 0 || start >= packets.len() {
        packets.len() as int
    } else if names(packets[start], index) {
        start
    } else {
        find_from(packets, index, start + 1)
    }
}

/// Position of the first packet that carries fragment `index`; the length of
/// the list where there is none.
pub open spec fn find_naming(packets: Seq<PacketView>, index: FragmentIdx) -> int {
    find_from(packets, index, 0)
}

/// `packets` after `p` was handed out: `p` stands where a packet with its
/// fragment index stood before, or else at the end.
pub open spec fn registered(packets: Seq<PacketView>, p: PacketView) -> Seq<PacketView> {
    let at = find_naming(packets, p.fragment_index());
    if at < packets.len() {
        packets.update(at, p)
    } else {
        packets.push(p)
    }
}

/// `packets` without those that carry fragment `index`, order kept.
pub open spec fn without(packets: Seq<PacketView>, index: FragmentIdx) -> Seq<PacketView>
    decreases packets.len(),
{
    if packets.len() == 0 {
        Seq::empty()
    } else if names(packets.last(), index) {
        without(packets.drop_last(), index)
    } else {
        without(packets.drop_last(), index).push(packets.last())
    }
}

/// The fragment indices that `packets` carries.
pub open spec fn indices(packets: Seq<PacketView>) -> Set<FragmentIdx> {
    Set::new(
        |index: FragmentIdx| exists|i: int| 0 <= i < packets.len() && names(#[trigger] packets[i], index),
    )
}

/// The fragment indices in flight for `session`; none where it has no entry.
pub open spec fn pending_indices(store: Map<Session, PendingView>, session: Session) -> Set<
    FragmentIdx,
> {
    if store.contains_key(session) {
        indices(store[session].packets)
    } else {
        Set::empty()
    }
}

/// `store` after the fragment packet `p` was handed to a neighbour on its
/// way to `server`.
pub open spec fn after_register(
    store: Map<Session, PendingView>,
    p: PacketView,
    server: NodeId,
    recipient: Option<NodeId>,
) -> Map<Session, PendingView> {
    if !p.is_fragment() {
        store
    } else {
        let prior = if store.contains_key(p.session_id) {
            store[p.session_id].packets
        } else {
            Seq::empty()
        };
        store.insert(p.session_id, PendingView { server, recipient, packets: registered(prior, p) })
    }
}

/// `store` after fragment `index` of `session` was acknowledged.
pub open spec fn after_ack(store: Map<Session, PendingView>, session: Session, index: FragmentIdx) -> Map<
    Session,
    PendingView,
> {
    if !store.contains_key(session) {
        store
    } else {
        let rest = without(store[session].packets, index);
        if rest.len() == 0 {
            store.remove(session)
        } else {
            store.insert(session, PendingView { packets: rest, ..store[session] })
        }
    }
}

/// A packet that carries fragment `index` of `session` is in flight.
pub open spec fn in_flight(store: Map<Session, PendingView>, session: Session, index: FragmentIdx) -> bool {
    store.contains_key(session) && find_naming(store[session].packets, index)
        < store[session].packets.len()
}

/// The first packet in flight that carries fragment `index` of `session`.
pub open spec fn flying(store: Map<Session, PendingView>, session: Session, index: FragmentIdx) -> PacketView {
    store[session].packets[find_naming(store[session].packets, index)]
}

/// Whether the acknowledgement of fragment `index` ends `session`: it has an
/// entry, and no packet of it is left afterwards.
pub open spec fn ack_completes(
    store: Map<Session, PendingView>,
    session: Session,
    index: FragmentIdx,
) -> bool {
    store.contains_key(session) && without(store[session].packets, index).len() == 0
}

/// From `start` on, the search sees what it sees from the first match on.
proof fn lemma_find_from_bounds(packets: Seq<PacketView>, index: FragmentIdx, start: int)
    requires
        0 <= start <= packets.len(),
    ensures
        start <= find_from(packets, index, start) <= packets.len(),
        find_from(packets, index, start) < packets.len() ==> names(
            packets[find_from(packets, index, start)],
            index,
        ),
        forall|j: int| start <= j < find_from(packets, index, start) ==> !names(packets[j], index),
    decreases packets.len() - start,
{
    if start < packets.len() && !names(packets[start], index) {
        lemma_find_from_bounds(packets, index, start + 1);
    }
}

/// Where the first packet that carries `index` stands, and that none before
/// it carries `index`.
pub proof fn lemma_find_naming(packets: Seq<PacketView>, index: FragmentIdx)
    ensures
        0 <= find_naming(packets, index) <= packets.len(),
        find_naming(packets, index) < packets.len() ==> names(
            packets[find_naming(packets, index)],
            index,
        ),
        forall|j: int| 0 <= j < find_naming(packets, index) ==> !names(packets[j], index),
{
    lemma_find_from_bounds(packets, index, 0);
}

/// What is left after an acknowledgement never carries the acknowledged
/// index, and carries every other packet that was there.
pub proof fn lemma_without(packets: Seq<PacketView>, index: FragmentIdx)
    ensures
        without(packets, index).len() <= packets.len(),
        forall|i: int|
            0 <= i < without(packets, index).len() ==> !names(
                #[trigger] without(packets, index)[i],
                index,
            ) && packets.contains(without(packets, index)[i]),
        forall|i: int|
            0 <= i < packets.len() && !names(#[trigger] packets[i], index) ==> without(
                packets,
                index,
            ).contains(packets[i]),
    decreases packets.len(),
{
    if packets.len() > 0 {
        let front = packets.drop_last();
        lemma_without(front, index);
        let w = without(packets, index);
        let wf = without(front, index);
        assert forall|i: int| 0 <= i < w.len() implies !names(#[trigger] w[i], index)
            && packets.contains(w[i]) by {
            if i < wf.len() {
                assert(w[i] == wf[i]);
                assert(front.contains(wf[i]));
                let k = choose|k: int| 0 <= k < front.len() && front[k] == wf[i];
                assert(packets[k] == wf[i]);
            } else {
                assert(w[i] == packets.last());
                assert(packets[packets.len() - 1] == w[i]);
            }
        }
        assert forall|i: int| 0 <= i < packets.len() && !names(#[trigger] packets[i], index)
            implies w.contains(packets[i]) by {
            if i < front.len() {
                assert(front[i] == packets[i]);
                assert(wf.contains(front[i]));
                let k = choose|k: int| 0 <= k < wf.len() && wf[k] == front[i];
                assert(w[k] == packets[i]);
            } else {
                assert(w[w.len() - 1] == packets[i]);
            }
        }
    }
}

/// Handing a fragment out adds its index to those in flight, and no other.
pub proof fn lemma_indices_registered(packets: Seq<PacketView>, p: PacketView)
    requires
        p.is_fragment(),
    ensures
        indices(registered(packets, p)) == indices(packets).insert(p.fragment_index()),
{
    let index = p.fragment_index();
    let at = find_naming(packets, index);
    let r = registered(packets, p);
    lemma_find_naming(packets, index);
    assert forall|x: FragmentIdx| indices(r).contains(x) <==> indices(packets).insert(
        index,
    ).contains(x) by {
        if indices(r).contains(x) {
            let i = choose|i: int| 0 <= i < r.len() && names(#[trigger] r[i], x);
            if at < packets.len() {
                if i != at {
                    assert(names(packets[i], x));
                }
            } else {
                if i < packets.len() {
                    assert(names(packets[i], x));
                }
            }
        }
        if indices(packets).insert(index).contains(x) {
            if x == index {
                if at < packets.len() {
                    assert(names(r[at], x));
                } else {
                    assert(names(r[packets.len() as int], x));
                }
            } else {
                let i = choose|i: int| 0 <= i < packets.len() && names(#[trigger] packets[i], x);
                assert(names(r[i], x));
            }
        }
    }
    assert(indices(r) =~= indices(packets).insert(index));
}

/// An acknowledgement takes its index out of those in flight, and no other.
pub proof fn lemma_indices_without(packets: Seq<PacketView>, index: FragmentIdx)
    ensures
        indices(without(packets, index)) == indices(packets).remove(index),
{
    let w = without(packets, index);
    lemma_without(packets, index);
    assert forall|x: FragmentIdx| indices(w).contains(x) <==> indices(packets).remove(
        index,
    ).contains(x) by {
        if indices(w).contains(x) {
            let i = choose|i: int| 0 <= i < w.len() && names(#[trigger] w[i], x);
            assert(packets.contains(w[i]));
            let k = choose|k: int| 0 <= k < packets.len() && packets[k] == w[i];
            assert(names(packets[k], x));
        }
        if indices(packets).remove(index).contains(x) {
            let i = choose|i: int| 0 <= i < packets.len() && names(#[trigger] packets[i], x);
            assert(w.contains(packets[i]));
            let k = choose|k: int| 0 <= k < w.len() && w[k] == packets[i];
            assert(names(w[k], x));
        }
    }
    assert(indices(w) =~= indices(packets).remove(index));
}

/// What an acknowledgement does to the fragments in flight: the index it
/// names leaves those of its session, and nothing else changes.
pub proof fn lemma_ack_indices(store: Map<Session, PendingView>, session: Session, index: FragmentIdx)
    ensures
        forall|s: Session|
            #![trigger pending_indices(after_ack(store, session, index), s)]
            pending_indices(after_ack(store, session, index), s) == if s == session {
                pending_indices(store, s).remove(index)
            } else {
                pending_indices(store, s)
            },
{
    if store.contains_key(session) {
        lemma_indices_without(store[session].packets, index);
        assert(indices(Seq::<PacketView>::empty()) =~= Set::<FragmentIdx>::empty());
        let rest = without(store[session].packets, index);
        if rest.len() == 0 {
            assert(indices(rest) =~= Set::<FragmentIdx>::empty());
        }
    } else {
        assert(Set::<FragmentIdx>::empty().remove(index) =~= Set::<FragmentIdx>::empty());
    }
}

/// Once fragment `index` of `session` is acknowledged, no packet in flight
/// carries it.
pub proof fn lemma_acked_not_in_flight(
    store: Map<Session, PendingView>,
    session: Session,
    index: FragmentIdx,
)
    ensures
        !in_flight(after_ack(store, session, index), session, index),
{
    let after = after_ack(store, session, index);
    if after.contains_key(session) {
        let rest = after[session].packets;
        if store.contains_key(session) {
            lemma_without(store[session].packets, index);
            lemma_find_naming(rest, index);
        }
    }
}

/// Registry of the fragments in flight, per session.
pub struct PendingAcks {
    entries: HashMap<Session, (NodeId, Option<NodeId>, Vec<Packet>)>,
}

/// The fragment index `pack` carries, if it carries a fragment.
pub fn fragment_index_of(pack: &Packet) -> (res: Option<FragmentIdx>)
    ensures
        res is Some <==> pack@.is_fragment(),
        res is Some ==> res->Some_0 == pack@.fragment_index(),
{
    match &pack.pack_type {
        PacketType::MsgFragment(f) => Some(f.fragment_index),
        _ => None,
    }
}

/// Position of the first of `packets` that carries fragment `index`.
fn position_of(packets: &Vec<Packet>, index: FragmentIdx) -> (res: usize)
    ensures
        res == find_naming(packet_views(packets@), index),
{
    let ghost views = packet_views(packets@);
    let mut i: usize = 0;
    while i < packets.len()
        invariant
            i <= packets.len(),
            views == packet_views(packets@),
            find_naming(views, index) == find_from(views, index, i as int),
        decreases packets.len() - i,
    {
        assert(views[i as int] == packets@[i as int]@);
        match fragment_index_of(&packets[i]) {
            Some(found) => {
                if found == index {
                    return i;
                }
            },
            None => {},
        }
        i += 1;
    }
    i
}

impl PendingAcks {
    /// The registry as a map from session to what is in flight for it.
    pub closed spec fn view(&self) -> Map<Session, PendingView> {
        Map::new(
            |s: Session| self.entries@.contains_key(s),
            |s: Session|
                PendingView {
                    server: self.entries@[s].0,
                    recipient: self.entries@[s].1,
                    packets: packet_views(self.entries@[s].2@),
                },
        )
    }

    /// An empty registry.
    pub fn new() -> (res: Self)
        ensures
            res@ == Map::<Session, PendingView>::empty(),
    {
        let res = PendingAcks { entries: HashMap::new() };
        assert(res@ =~= Map::<Session, PendingView>::empty());
        res
    }

    /// Whether anything is in flight for `session`.
    pub fn contains(&self, session: Session) -> (res: bool)
        ensures
            res == self@.contains_key(session),
    {
        self.entries.contains_key(&session)
    }

    /// Number of packets in flight for `session`.
    pub fn count(&self, session: Session) -> (res: usize)
        ensures
            res == (if self@.contains_key(session) {
                self@[session].packets.len()
            } else {
                0
            }),
    {
        match self.entries.get(&session) {
            Some(entry) => entry.2.len(),
            None => 0,
        }
    }

    /// Records that the fragment packet `pack` was handed to a neighbour on
    /// its way to `server`. A packet that carries no fragment is not recorded.
    pub fn register(&mut self, pack: Packet, server: NodeId, recipient: Option<NodeId>)
        ensures
            final(self)@ == after_register(old(self)@, pack@, server, recipient),
            pack@.is_fragment() ==> pending_indices(final(self)@, pack@.session_id)
                == pending_indices(old(self)@, pack@.session_id).insert(pack@.fragment_index()),
    {
        let index = match fragment_index_of(&pack) {
            Some(index) => index,
            None => {
                return ;
            },
        };
        let session = pack.session_id;
        let ghost before = self.entries@;
        let ghost pv = pack@;
        let taken = self.entries.remove(&session);
        let mut packets: Vec<Packet> = match taken {
            Some(entry) => entry.2,
            None => Vec::new(),
        };
        let ghost prior = packet_views(packets@);
        assert(prior =~= if old(self)@.contains_key(session) {
            old(self)@[session].packets
        } else {
            Seq::empty()
        });
        let at = position_of(&packets, index);
        proof {
            lemma_find_naming(prior, index);
            lemma_indices_registered(prior, pv);
        }
        if at < packets.len() {
            packets.set(at, pack);
        } else {
            packets.push(pack);
        }
        assert(packet_views(packets@) == registered(prior, pv));
        self.entries.insert(session, (server, recipient, packets));
        assert(self.entries@ == before.insert(session, (server, recipient, packets)));
        assert(final(self)@ =~= after_register(old(self)@, pv, server, recipient));
        assert(indices(Seq::<PacketView>::empty()) =~= Set::<FragmentIdx>::empty());
    }

    /// Takes the packets that carry fragment `index` out of `session`. When no
    /// packet of the session is left, the session leaves the registry and its
    /// server and chat peer are returned.
    pub fn acknowledge(&mut self, session: Session, index: FragmentIdx) -> (res: Option<
        (NodeId, Option<NodeId>),
    >)
        ensures
            final(self)@ == after_ack(old(self)@, session, index),
            res is Some <==> ack_completes(old(self)@, session, index),
            res is Some ==> res->Some_0 == (
                old(self)@[session].server,
                old(self)@[session].recipient,
            ),
            pending_indices(final(self)@, session) == pending_indices(old(self)@, session).remove(
                index,
            ),
            forall|s: Session| s != session ==> pending_indices(final(self)@, s) == pending_indices(old(self)@, s),
    {
        let taken = self.entries.remove(&session);
        match taken {
            None => {
                assert(final(self)@ =~= old(self)@);
                assert(Set::<FragmentIdx>::empty().remove(index) =~= Set::<FragmentIdx>::empty());
                None
            },
            Some(entry) => {
                let server = entry.0;
                let recipient = entry.1;
                let packets = entry.2;
                let ghost prior = packet_views(packets@);
                let mut rest: Vec<Packet> = Vec::new();
                let mut i: usize = 0;
                assert(prior.subrange(0, 0) =~= Seq::<PacketView>::empty());
                while i < packets.len()
                    invariant
                        i <= packets.len(),
                        prior == packet_views(packets@),
                        packet_views(rest@) == without(prior.subrange(0, i as int), index),
                    decreases packets.len() - i,
                {
                    let ghost so_far = packet_views(rest@);
                    proof {
                        assert(prior.subrange(0, i + 1).drop_last() == prior.subrange(0, i as int));
                        assert(prior.subrange(0, i + 1).last() == packets@[i as int]@);
                    }
                    let keep = match fragment_index_of(&packets[i]) {
                        Some(found) => found != index,
                        None => true,
                    };
                    if keep {
                        let copy = packets[i].clone();
                        rest.push(copy);
                        assert(packet_views(rest@) == so_far.push(packets@[i as int]@));
                    }
                    i += 1;
                }
                proof {
                    assert(prior.subrange(0, packets.len() as int) == prior);
                    lemma_indices_without(prior, index);
                    assert(indices(Seq::<PacketView>::empty()) =~= Set::<FragmentIdx>::empty());
                }
                if rest.len() == 0 {
                    assert(final(self)@ =~= after_ack(old(self)@, session, index));
                    Some((server, recipient))
                } else {
                    self.entries.insert(session, (server, recipient, rest));
                    assert(final(self)@ =~= after_ack(old(self)@, session, index));
                    None
                }
            },
        }
    }

    /// The packet in flight that carries fragment `index` of `session`, with
    /// the server and the chat peer of the session.
    pub fn find(&self, session: Session, index: FragmentIdx) -> (res: Option<
        (Packet, NodeId, Option<NodeId>),
    >)
        ensures
            res is Some <==> in_flight(self@, session, index),
            res is Some ==> res->Some_0.0@ == flying(self@, session, index) && res->Some_0.1
                == self@[session].server && res->Some_0.2 == self@[session].recipient,
    {
        match self.entries.get(&session) {
            None => None,
            Some(entry) => {
                let at = position_of(&entry.2, index);
                if at < entry.2.len() {
                    Some((entry.2[at].clone(), entry.0, entry.1))
                } else {
                    None
                }
            },
        }
    }
}

} // verus!
