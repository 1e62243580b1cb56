//! Draining the send queue, and the links to the neighbours.

use crate::channel::try_send;
use crate::network::{routes_valid, Network, NetworkView};
use crate::packet::{clone_hops, packet_views, NodeId, Packet, PacketView, Routing, RoutingView};
use crate::paths::has_route;
use crate::topology::{
    reachable_steps, reachable_sweep, unreachable_steps, unreachable_sweep, NODE_IDS,
};
use crossbeam_channel::Sender;
use vstd::prelude::*;

verus! {

broadcast use vstd::std_specs::hash::group_hash_axioms;

/// The header a packet gets when it leaves along `route`: the route as its
/// hops, the hop index on the first hop after the sender.
pub open spec fn stamp(route: Seq<NodeId>) -> RoutingView {
    RoutingView { hop_index: 1, hops: route }
}

/// The state after the packets `packets` left `v` along `route`, one after
/// the other, `outcomes` telling of each whether the neighbour's channel
/// took it.
pub open spec fn drain_fold(
    v: NetworkView,
    route: Seq<NodeId>,
    recipient: Option<NodeId>,
    packets: Seq<PacketView>,
    outcomes: Seq<bool>,
) -> NetworkView
    decreases packets.len(),
{
    if packets.len() == 0 {
        v
    } else {
        drain_fold(
            v,
            route,
            recipient,
            packets.drop_last(),
            outcomes.drop_last(),
        ).after_dispatch(packets.last().with_routing(stamp(route)), outcomes.last(), recipient)
    }
}

/// `after` is what draining the queue of `leaf` can make of `before`. In a
/// stopped client, without a known route to `leaf`, or with nothing queued
/// for it, nothing changes. Otherwise the backlog leaves the queue; where the route has a
/// first hop and that hop is a neighbour, each packet is stamped with the
/// route and offered to the neighbour in queue order, and booked according
/// to whether the channel took it; where not, the backlog is dropped.
pub open spec fn drain_of(before: NetworkView, leaf: NodeId, after: NetworkView) -> bool {
    if !before.running || !has_route(before.routes, leaf) || !before.queued.contains_key(leaf) {
        after == before
    } else {
        let route = before.routes[leaf]->Some_0;
        let entry = before.queued[leaf];
        let base = NetworkView { queued: before.queued.remove(leaf), ..before };
        if route.len() >= 2 && before.neighbours.contains(route[1]) {
            exists|outcomes: Seq<bool>|
                outcomes.len() == entry.packets.len() && after == #[trigger] drain_fold(
                    base,
                    route,
                    entry.recipient,
                    entry.packets,
                    outcomes,
                )
        } else {
            after == base
        }
    }
}

/// `b` differs from `a` at most in what waits in the send queue and what is
/// in flight.
pub open spec fn same_but_traffic(a: NetworkView, b: NetworkView) -> bool {
    b == (NetworkView { queued: b.queued, pending: b.pending, ..a })
}

/// Booking one dispatch leaves the traffic stores well formed.
pub proof fn lemma_after_dispatch_wf(
    v: NetworkView,
    pack: PacketView,
    sent: bool,
    recipient: Option<NodeId>,
)
    requires
        v.stores_wf(),
    ensures
        v.after_dispatch(pack, sent, recipient).stores_wf(),
{
    let w = v.after_dispatch(pack, sent, recipient);
    match crate::network::destination(pack.routing_header) {
        Some(leaf) => {
            if pack.is_fragment() {
                if sent {
                    let prior = if v.pending.contains_key(pack.session_id) {
                        v.pending[pack.session_id].packets
                    } else {
                        Seq::empty()
                    };
                    crate::pending::lemma_find_naming(prior, pack.fragment_index());
                    assert forall|s: crate::packet::Session| #[trigger]
                        w.pending.contains_key(s) implies w.pending[s].packets.len() > 0 by {
                        if s != pack.session_id {
                            assert(v.pending.contains_key(s));
                        }
                    }
                } else {
                    let q = w.queued;
                    let q0 = v.queued;
                    assert forall|l: NodeId, i: int|
                        q.contains_key(l) && 0 <= i < q[l].packets.len() implies (
                    #[trigger] q[l].packets[i]).is_fragment() by {
                        if l == leaf {
                            if i < crate::queue::waiting_for(q0, leaf).len() {
                                assert(q0[l].packets[i].is_fragment());
                            }
                        } else {
                            assert(q0[l].packets[i].is_fragment());
                        }
                    }
                }
            }
        },
        None => {},
    }
}

/// Offering packets to a neighbour changes nothing but the traffic stores.
pub proof fn lemma_drain_fold_same(
    v: NetworkView,
    route: Seq<NodeId>,
    recipient: Option<NodeId>,
    packets: Seq<PacketView>,
    outcomes: Seq<bool>,
)
    ensures
        same_but_traffic(v, drain_fold(v, route, recipient, packets, outcomes)),
    decreases packets.len(),
{
    if packets.len() > 0 {
        lemma_drain_fold_same(v, route, recipient, packets.drop_last(), outcomes.drop_last());
    }
}

/// Offering packets to a neighbour leaves the traffic stores well formed.
pub proof fn lemma_drain_fold_wf(
    v: NetworkView,
    route: Seq<NodeId>,
    recipient: Option<NodeId>,
    packets: Seq<PacketView>,
    outcomes: Seq<bool>,
)
    requires
        v.stores_wf(),
    ensures
        drain_fold(v, route, recipient, packets, outcomes).stores_wf(),
    decreases packets.len(),
{
    if packets.len() > 0 {
        lemma_drain_fold_wf(v, route, recipient, packets.drop_last(), outcomes.drop_last());
        let mid = drain_fold(v, route, recipient, packets.drop_last(), outcomes.drop_last());
        lemma_after_dispatch_wf(
            mid,
            packets.last().with_routing(stamp(route)),
            outcomes.last(),
            recipient,
        );
    }
}

/// No fragment is lost when packets leave along a route: afterwards each
/// fragment that a neighbour took is in flight for its session, and each
/// that was not taken waits, under the stamp of the route, for the leaf the
/// route ends at.
pub proof fn lemma_drain_fold_keeps(
    v: NetworkView,
    route: Seq<NodeId>,
    recipient: Option<NodeId>,
    packets: Seq<PacketView>,
    outcomes: Seq<bool>,
    i: int,
)
    requires
        route.len() > 0,
        packets.len() == outcomes.len(),
        0 <= i < packets.len(),
        packets[i].is_fragment(),
    ensures
        ({
            let after = drain_fold(v, route, recipient, packets, outcomes);
            let p = packets[i].with_routing(stamp(route));
            if outcomes[i] {
                crate::pending::pending_indices(after.pending, p.session_id).contains(
                    p.fragment_index(),
                )
            } else {
                crate::queue::waiting_for(after.queued, route[route.len() - 1]).contains(p)
            }
        }),
    decreases packets.len(),
{
    let leaf = route[route.len() - 1];
    let mid = drain_fold(v, route, recipient, packets.drop_last(), outcomes.drop_last());
    let last = packets.last().with_routing(stamp(route));
    let after = mid.after_dispatch(last, outcomes.last(), recipient);
    let p = packets[i].with_routing(stamp(route));
    assert(crate::network::destination(stamp(route)) == Some(leaf));
    crate::network::lemma_dispatch_indices(mid, last, outcomes.last(), recipient);
    if i == packets.len() - 1 {
        if !outcomes[i] {
            let q = crate::queue::waiting_for(after.queued, leaf);
            assert(q[q.len() - 1] == p);
        }
    } else {
        lemma_drain_fold_keeps(v, route, recipient, packets.drop_last(), outcomes.drop_last(), i);
        if outcomes[i] {
            assert(crate::pending::pending_indices(mid.pending, p.session_id).contains(
                p.fragment_index(),
            ));
        } else {
            let q0 = crate::queue::waiting_for(mid.queued, leaf);
            assert(q0.contains(p));
            let k = choose|k: int| 0 <= k < q0.len() && q0[k] == p;
            let q = crate::queue::waiting_for(after.queued, leaf);
            if !outcomes.last() && last.is_fragment() {
                assert(q == q0.push(last));
                assert(q[k] == p);
            } else {
                assert(q == q0);
            }
        }
    }
}

/// Draining changes nothing but the traffic stores.
pub proof fn lemma_drain_same(before: NetworkView, leaf: NodeId, after: NetworkView)
    requires
        drain_of(before, leaf, after),
    ensures
        same_but_traffic(before, after),
{
    if before.running && has_route(before.routes, leaf) && before.queued.contains_key(leaf) {
        let route = before.routes[leaf]->Some_0;
        let entry = before.queued[leaf];
        let base = NetworkView { queued: before.queued.remove(leaf), ..before };
        if route.len() >= 2 && before.neighbours.contains(route[1]) {
            let outcomes = choose|outcomes: Seq<bool>|
                outcomes.len() == entry.packets.len() && after == #[trigger] drain_fold(
                    base,
                    route,
                    entry.recipient,
                    entry.packets,
                    outcomes,
                );
            lemma_drain_fold_same(base, route, entry.recipient, entry.packets, outcomes);
        }
    }
}

/// Draining leaves the traffic stores well formed.
pub proof fn lemma_drain_frame(before: NetworkView, leaf: NodeId, after: NetworkView)
    requires
        before.stores_wf(),
        drain_of(before, leaf, after),
    ensures
        same_but_traffic(before, after),
        after.stores_wf(),
{
    lemma_drain_same(before, leaf, after);
    if before.running && has_route(before.routes, leaf) && before.queued.contains_key(leaf) {
        let route = before.routes[leaf]->Some_0;
        let entry = before.queued[leaf];
        let base = NetworkView { queued: before.queued.remove(leaf), ..before };
        assert(base.stores_wf()) by {
            assert forall|l: NodeId, i: int|
                base.queued.contains_key(l) && 0 <= i < base.queued[l].packets.len() implies (
            #[trigger] base.queued[l].packets[i]).is_fragment() by {
                assert(before.queued[l].packets[i].is_fragment());
            }
        }
        if route.len() >= 2 && before.neighbours.contains(route[1]) {
            let outcomes = choose|outcomes: Seq<bool>|
                outcomes.len() == entry.packets.len() && after == #[trigger] drain_fold(
                    base,
                    route,
                    entry.recipient,
                    entry.packets,
                    outcomes,
                );
            lemma_drain_fold_wf(base, route, entry.recipient, entry.packets, outcomes);
        }
    }
}

impl NetworkView {
    /// The state once a link to the neighbour `n` exists, before any route is
    /// looked for: `n` is a neighbour, and the topology has the edges between
    /// this node and `n` in both directions.
    pub open spec fn with_link(self, n: NodeId) -> NetworkView {
        NetworkView {
            neighbours: self.neighbours.insert(n),
            nodes: self.nodes.insert(self.id).insert(n),
            edges: self.edges.insert((self.id, n)).insert((n, self.id)),
            ..self
        }
    }

    /// The state once the link to the neighbour `n` is gone, before any route
    /// is looked at: `n` is no neighbour, and the topology has no edge
    /// between this node and `n`.
    pub open spec fn without_link(self, n: NodeId) -> NetworkView {
        NetworkView {
            neighbours: self.neighbours.remove(n),
            edges: self.edges.remove((self.id, n)).remove((n, self.id)),
            ..self
        }
    }
}

/// Adding a link to a node that was neither a neighbour nor joined to this
/// node by an edge, and removing the link again, gives back the neighbours
/// and the edges that were there; the node itself stays in the topology,
/// without an edge to this node, so every route that exists afterwards
/// existed before, and the other way round.
pub proof fn lemma_link_round_trip(v: NetworkView, n: NodeId)
    requires
        !v.neighbours.contains(n),
        !v.edges.contains((v.id, n)),
        !v.edges.contains((n, v.id)),
    ensures
        v.with_link(n).without_link(n).neighbours == v.neighbours,
        v.with_link(n).without_link(n).edges == v.edges,
        v.with_link(n).without_link(n).nodes == v.nodes.insert(v.id).insert(n),
        forall|p: Seq<NodeId>, from: NodeId, to: NodeId|
            crate::graph::is_route(v.with_link(n).without_link(n).edges, p, from, to)
                <==> crate::graph::is_route(v.edges, p, from, to),
{
    assert(v.with_link(n).without_link(n).neighbours =~= v.neighbours);
    assert(v.with_link(n).without_link(n).edges =~= v.edges);
}

impl Network {
    /// Takes note of a link to the neighbour `id`: packets for it go into
    /// `sender`, the topology gets the edges between this node and `id` in
    /// both directions (see [`NetworkView::with_link`]), and the unreachable
    /// sweep runs over the result.
    pub fn add_sender(&mut self, id: NodeId, sender: Sender<Packet>)
        ensures
            unreachable_steps(old(self)@.with_link(id), NODE_IDS as int, final(self)@),
            same_but_traffic(
                NetworkView { routes: final(self)@.routes, ..old(self)@.with_link(id) },
                final(self)@,
            ),
            unreachable_sweep(
                old(self)@.routes,
                final(self)@.routes,
                old(self)@.with_link(id).edges,
                old(self)@.id,
            ),
            old(self)@.inv() ==> final(self)@.inv(),
    {
        let ghost before = self@;
        self.packet_send.insert(id, sender);
        self.topology.add_edge(self.id, id);
        self.topology.add_edge(id, self.id);
        proof {
            assert(self@.neighbours =~= before.neighbours.insert(id));
            assert(self@.nodes =~= before.nodes.insert(before.id).insert(id));
            assert(self@ == before.with_link(id));
            if before.inv() {
                crate::topology::lemma_routes_valid_monotonic(
                    before.routes,
                    before.edges,
                    self@.edges,
                    before.id,
                );
            }
        }
        self.update_unreachable_paths();
    }

    /// Takes note that the link to the neighbour `id` is gone: it is no
    /// neighbour any more, the topology loses the edges between this node and
    /// `id` (see [`NetworkView::without_link`]), and the reachable sweep runs
    /// over the result.
    pub fn remove_sender(&mut self, id: &NodeId)
        ensures
            reachable_steps(old(self)@.without_link(*id), NODE_IDS as int, final(self)@),
            final(self)@ == (NetworkView {
                routes: final(self)@.routes,
                session: final(self)@.session,
                flood_epoch: final(self)@.flood_epoch,
                ..old(self)@.without_link(*id)
            }),
            reachable_sweep(
                old(self)@.routes,
                final(self)@.routes,
                old(self)@.without_link(*id).edges,
                old(self)@.id,
            ),
            routes_valid(final(self)@.routes, final(self)@.edges, final(self)@.id),
            final(self)@.session >= old(self)@.session,
            final(self)@.session == old(self)@.session ==> final(self)@.flood_epoch == old(self)@.flood_epoch,
            final(self)@.session > old(self)@.session ==> final(self)@.flood_epoch == final(self)@.session - 1,
            old(self)@.inv() ==> final(self)@.inv(),
    {
        let ghost before = self@;
        self.packet_send.remove(id);
        self.topology.remove_edge(self.id, *id);
        self.topology.remove_edge(*id, self.id);
        proof {
            assert(self@.neighbours =~= before.neighbours.remove(*id));
            assert(self@ == before.without_link(*id));
        }
        self.update_reachable_paths();
    }

    /// Offers `pack` to the neighbour `hop`, if there is a link to it: books
    /// the outcome and tells the controller, as [`Network::send_packet`]
    /// does. Returns whether the channel took the packet, or `None` where
    /// `hop` is no neighbour or the client is stopped; then nothing happens.
    pub fn offer(&mut self, hop: NodeId, pack: Packet, recipient: Option<NodeId>) -> (res: Option<
        bool,
    >)
        ensures
            match res {
                Some(sent) => old(self)@.running && old(self)@.neighbours.contains(hop) && final(
                    self
                )@ == old(self)@.after_dispatch(pack@, sent, recipient),
                None => !(old(self)@.running && old(self)@.neighbours.contains(hop)) && final(
                    self
                )@ == old(self)@,
            },
            old(self)@.stores_wf() ==> final(self)@.stores_wf(),
            old(self)@.inv() ==> final(self)@.inv(),
    {
        if !self.running {
            return None;
        }
        let sent = match self.packet_send.get(&hop) {
            Some(sender) => {
                let copy = pack.clone();
                try_send(sender, copy)
            },
            None => {
                return None;
            },
        };
        let event = self.record_dispatch(pack, sent, recipient);
        match event {
            Some(e) => {
                let _ = try_send(&self.controller_send, e);
            },
            None => {},
        }
        Some(sent)
    }

    /// Drains the send queue of `leaf`: see [`drain_of`].
    pub fn check_queued(&mut self, leaf: NodeId)
        ensures
            drain_of(old(self)@, leaf, final(self)@),
            same_but_traffic(old(self)@, final(self)@),
            old(self)@.stores_wf() ==> final(self)@.stores_wf(),
            old(self)@.inv() ==> final(self)@.inv(),
    {
        self.drain_queue(leaf);
        proof {
            lemma_drain_same(old(self)@, leaf, self@);
            if old(self)@.stores_wf() {
                lemma_drain_frame(old(self)@, leaf, self@);
            }
        }
    }

    /// The steps of [`Network::check_queued`].
    fn drain_queue(&mut self, leaf: NodeId)
        ensures
            drain_of(old(self)@, leaf, final(self)@),
    {
        if !self.running {
            return ;
        }
        let route = match self.paths_to_leafs.route(leaf) {
            Some(route) => route,
            None => {
                return ;
            },
        };
        let taken = self.queued_packs.take(leaf);
        let (recipient, packs) = match taken {
            Some(entry) => entry,
            None => {
                assert(final(self)@.queued =~= old(self)@.queued);
                return ;
            },
        };
        let ghost base = self@;
        let ghost views = packet_views(packs@);
        if route.len() < 2 {
            return ;
        }
        let first_hop = route[1];
        if !self.packet_send.contains_key(&first_hop) {
            return ;
        }
        let ghost mut outcomes: Seq<bool> = Seq::empty();
        let mut i: usize = 0;
        assert(views.subrange(0, 0) =~= Seq::<PacketView>::empty());
        while i < packs.len()
            invariant
                i <= packs.len(),
                views == packet_views(packs@),
                route@.len() >= 2,
                first_hop == route@[1],
                base.neighbours.contains(first_hop),
                base.running,
                self@.running,
                outcomes.len() == i,
                self@ == drain_fold(base, route@, recipient, views.subrange(0, i as int), outcomes),
                self@.neighbours == base.neighbours,
            decreases packs.len() - i,
        {
            let mut pack = packs[i].clone();
            pack.routing_header = Routing::new(clone_hops(&route), 1);
            assert(pack@ == views[i as int].with_routing(stamp(route@)));
            let res = self.offer(first_hop, pack, recipient);
            proof {
                let sent = res->Some_0;
                let next = views.subrange(0, i + 1);
                assert(next.drop_last() == views.subrange(0, i as int));
                assert(next.last() == views[i as int]);
                assert(outcomes.push(sent).drop_last() == outcomes);
                outcomes = outcomes.push(sent);
            }
            i += 1;
        }
        proof {
            assert(views.subrange(0, packs.len() as int) == views);
            let entry = old(self)@.queued[leaf];
            assert(entry.packets == views && entry.recipient == recipient);
            assert(base == (NetworkView { queued: old(self)@.queued.remove(leaf), ..old(self)@ }));
            assert(old(self)@.routes[leaf]->Some_0 == route@);
            assert(self@ == drain_fold(base, route@, entry.recipient, entry.packets, outcomes));
        }
    }
}

} // verus!
