//! Keeping the path cache in step with the topology: the two sweeps, and the
//! taking in of a flood trace.

use crate::graph::{hop_pair, is_route, is_shortest_route, reachable};
use crate::network::{routes_valid, Network, NetworkView};
use crate::packet::NodeId;
use crate::paths::{has_route, lacks_route, Routes};
use crate::utils::{drain_of, same_but_traffic};
use vstd::prelude::*;

verus! {

broadcast use vstd::std_specs::hash::group_hash_axioms;

/// `after` is what the reachable sweep makes of `before` over `edges`: each
/// known route is replaced by a shortest route from `id` to its leaf, or by
/// the note that none is known where the leaf cannot be reached; the other
/// entries stay.
pub open spec fn reachable_sweep(
    before: Routes,
    after: Routes,
    edges: Set<(NodeId, NodeId)>,
    id: NodeId,
) -> bool {
    &&& after.dom() == before.dom()
    &&& forall|leaf: NodeId| #[trigger]
        before.contains_key(leaf) ==> if before[leaf] is Some {
            if reachable(edges, id, leaf) {
                after[leaf] is Some && is_shortest_route(edges, after[leaf]->Some_0, id, leaf)
            } else {
                after[leaf] is None
            }
        } else {
            after[leaf] is None
        }
}

/// `after` is what the unreachable sweep makes of `before` over `edges`:
/// each leaf without a known route gets a shortest route from `id` where it
/// can be reached; the other entries stay.
pub open spec fn unreachable_sweep(
    before: Routes,
    after: Routes,
    edges: Set<(NodeId, NodeId)>,
    id: NodeId,
) -> bool {
    &&& after.dom() == before.dom()
    &&& forall|leaf: NodeId| #[trigger]
        before.contains_key(leaf) ==> if before[leaf] is None {
            if reachable(edges, id, leaf) {
                after[leaf] is Some && is_shortest_route(edges, after[leaf]->Some_0, id, leaf)
            } else {
                after[leaf] is None
            }
        } else {
            after[leaf] == before[leaf]
        }
}

/// `after` is what the reachable sweep can make of `before` when it comes
/// to `leaf`. A leaf without a known route is passed over. A known route is
/// replaced by a shortest route from this node to the leaf; where the leaf
/// cannot be reached, it is marked as without route and a flood is started.
pub open spec fn reachable_step(before: NetworkView, leaf: NodeId, after: NetworkView) -> bool {
    if !has_route(before.routes, leaf) {
        after == before
    } else if reachable(before.edges, before.id, leaf) {
        exists|p: Seq<NodeId>| #[trigger]
            is_shortest_route(before.edges, p, before.id, leaf) && after == (NetworkView {
                routes: before.routes.insert(leaf, Some(p)),
                ..before
            })
    } else {
        after == (NetworkView { routes: before.routes.insert(leaf, None), ..before }).after_flood()
    }
}

/// `after` is what the reachable sweep can make of `before` over the leaves
/// with an id below `n`, taken in the order of their ids.
pub open spec fn reachable_steps(before: NetworkView, n: int, after: NetworkView) -> bool
    decreases n,
{
    if n <= 0 {
        after == before
    } else {
        exists|mid: NetworkView|
            reachable_steps(before, n - 1, mid) && #[trigger] reachable_step(
                mid,
                (n - 1) as NodeId,
                after,
            )
    }
}

/// `after` is what the unreachable sweep can make of `before` when it comes
/// to `leaf`. A leaf that has a route, or no entry, or that cannot be
/// reached, is passed over. Otherwise a shortest route from this node to the
/// leaf is filed and the send queue of the leaf is drained along it.
pub open spec fn unreachable_step(before: NetworkView, leaf: NodeId, after: NetworkView) -> bool {
    if lacks_route(before.routes, leaf) && reachable(before.edges, before.id, leaf) {
        exists|p: Seq<NodeId>|
            is_shortest_route(before.edges, p, before.id, leaf) && #[trigger] drain_of(
                NetworkView { routes: before.routes.insert(leaf, Some(p)), ..before },
                leaf,
                after,
            )
    } else {
        after == before
    }
}

/// `after` is what the unreachable sweep can make of `before` over the
/// leaves with an id below `n`, taken in the order of their ids.
pub open spec fn unreachable_steps(before: NetworkView, n: int, after: NetworkView) -> bool
    decreases n,
{
    if n <= 0 {
        after == before
    } else {
        exists|mid: NetworkView|
            unreachable_steps(before, n - 1, mid) && #[trigger] unreachable_step(
                mid,
                (n - 1) as NodeId,
                after,
            )
    }
}

/// Number of node ids.
pub const NODE_IDS: u16 = 256;

/// Some leaf with a known route in `routes` cannot be reached from `id`
/// over `edges`.
pub open spec fn loses_route(routes: Routes, edges: Set<(NodeId, NodeId)>, id: NodeId) -> bool {
    exists|leaf: NodeId| #[trigger] has_route(routes, leaf) && !reachable(edges, id, leaf)
}

/// Whether step `k` of the trace `path` shows the edge `e`. Each step is an
/// edge forwards. A step between two drones is an edge backwards too: that is
/// every step but the first, which starts at the client itself, and, where
/// the trace ends at a leaf, the last.
pub open spec fn step_shows(path: Seq<NodeId>, is_last_leaf: bool, k: int, e: (NodeId, NodeId)) -> bool {
    ||| e == hop_pair(path, k)
    ||| (e == (path[k + 1], path[k]) && k != 0 && !(is_last_leaf && k == path.len() - 2))
}

/// The edges that the first `steps` steps of the trace `path` show.
pub open spec fn edges_upto(path: Seq<NodeId>, is_last_leaf: bool, steps: int) -> Set<
    (NodeId, NodeId),
> {
    Set::new(
        |e: (NodeId, NodeId)|
            exists|k: int| 0 <= k < steps && #[trigger] step_shows(path, is_last_leaf, k, e),
    )
}

/// The edges that the trace `path` shows.
pub open spec fn path_edges(path: Seq<NodeId>, is_last_leaf: bool) -> Set<(NodeId, NodeId)> {
    edges_upto(path, is_last_leaf, path.len() - 1)
}

/// The nodes that the first `steps` steps of the trace `path` touch.
pub open spec fn nodes_upto(path: Seq<NodeId>, steps: int) -> Set<NodeId> {
    Set::new(|x: NodeId| steps > 0 && exists|k: int| 0 <= k <= steps && #[trigger] path[k] == x)
}

/// The nodes that taking in the trace `path` adds: all of them where the
/// trace has a step, none where it is a single node.
pub open spec fn path_nodes(path: Seq<NodeId>) -> Set<NodeId> {
    nodes_upto(path, path.len() - 1)
}

/// Whether a trace can be taken in by the client `id`: it starts there.
pub open spec fn starts_at(path: Seq<NodeId>, id: NodeId) -> bool {
    path.len() > 0 && path[0] == id
}

/// A route stays a route when edges are added.
pub proof fn lemma_route_monotonic(
    edges: Set<(NodeId, NodeId)>,
    more: Set<(NodeId, NodeId)>,
    p: Seq<NodeId>,
    from: NodeId,
    to: NodeId,
)
    requires
        is_route(edges, p, from, to),
        edges.subset_of(more),
    ensures
        is_route(more, p, from, to),
{
    assert forall|i: int| 0 <= i < p.len() - 1 implies more.contains(#[trigger] hop_pair(p, i)) by {
        assert(edges.contains(hop_pair(p, i)));
    }
}

/// Known routes stay valid when edges are added.
pub proof fn lemma_routes_valid_monotonic(
    routes: Routes,
    edges: Set<(NodeId, NodeId)>,
    more: Set<(NodeId, NodeId)>,
    id: NodeId,
)
    requires
        routes_valid(routes, edges, id),
        edges.subset_of(more),
    ensures
        routes_valid(routes, more, id),
{
    assert forall|leaf: NodeId| #[trigger] has_route(routes, leaf) implies is_route(
        more,
        routes[leaf]->Some_0,
        id,
        leaf,
    ) by {
        lemma_route_monotonic(edges, more, routes[leaf]->Some_0, id, leaf);
    }
}

impl Network {
    /// Reachable sweep: recomputes every known route over the topology as it
    /// is now. A route that still exists is replaced by a shortest one; a
    /// leaf that cannot be reached any more is marked as without route, and a
    /// flood is started for it (unless the client is stopped or the session
    /// ids are used up).
    pub fn update_reachable_paths(&mut self)
        ensures
            reachable_steps(old(self)@, NODE_IDS as int, final(self)@),
            final(self)@ == (NetworkView {
                routes: final(self)@.routes,
                session: final(self)@.session,
                flood_epoch: final(self)@.flood_epoch,
                ..old(self)@
            }),
            reachable_sweep(old(self)@.routes, final(self)@.routes, old(self)@.edges, old(self)@.id),
            routes_valid(final(self)@.routes, final(self)@.edges, final(self)@.id),
            final(self)@.session >= old(self)@.session,
            final(self)@.session == old(self)@.session ==> final(self)@.flood_epoch == old(self)@.flood_epoch,
            final(self)@.session > old(self)@.session ==> final(self)@.flood_epoch == final(self)@.session - 1,
            loses_route(old(self)@.routes, old(self)@.edges, old(self)@.id) ==> final(
                self
            )@.session > old(self)@.session || old(self)@.session == u64::MAX || !old(
                self
            )@.running,
            !loses_route(old(self)@.routes, old(self)@.edges, old(self)@.id) ==> final(
                self
            )@.session == old(self)@.session,
            old(self)@.inv() ==> final(self)@.inv(),
    {
        let ghost before = self@;
        let ghost edges = self@.edges;
        let ghost id = self@.id;
        let mut n: u16 = 0;
        while n < 256
            invariant
                n <= 256,
                reachable_steps(before, n as int, self@),
                self@ == (NetworkView {
                    routes: self@.routes,
                    session: self@.session,
                    flood_epoch: self@.flood_epoch,
                    ..before
                }),
                edges == before.edges,
                id == before.id,
                self@.routes.dom() == before.routes.dom(),
                forall|leaf: NodeId|
                    leaf >= n && #[trigger] before.routes.contains_key(leaf) ==> self@.routes[leaf]
                        == before.routes[leaf],
                forall|leaf: NodeId|
                    leaf < n && #[trigger] before.routes.contains_key(leaf) ==> if before.routes[leaf] is Some {
                        if reachable(edges, id, leaf) {
                            self@.routes[leaf] is Some && is_shortest_route(
                                edges,
                                self@.routes[leaf]->Some_0,
                                id,
                                leaf,
                            )
                        } else {
                            self@.routes[leaf] is None
                        }
                    } else {
                        self@.routes[leaf] is None
                    },
                self@.session >= before.session,
                self@.session == before.session ==> self@.flood_epoch == before.flood_epoch,
                self@.session > before.session ==> self@.flood_epoch == self@.session - 1,
                (exists|leaf: NodeId|
                    leaf < n && #[trigger] has_route(before.routes, leaf) && !reachable(
                        edges,
                        id,
                        leaf,
                    )) ==> (self@.session > before.session || before.session == u64::MAX
                    || !before.running),
                !(exists|leaf: NodeId|
                    leaf < n && #[trigger] has_route(before.routes, leaf) && !reachable(
                        edges,
                        id,
                        leaf,
                    )) ==> self@.session == before.session,
            decreases 256 - n,
        {
            let leaf = n as u8;
            let ghost mid = self@;
            if self.paths_to_leafs.is_known(leaf) {
                assert(has_route(before.routes, leaf));
                let path = self.topology.shortest_path(self.id, leaf);
                match path {
                    Some(p) => {
                        let ghost hops = p@;
                        self.paths_to_leafs.set(leaf, Some(p));
                        assert(reachable(edges, id, leaf));
                        assert(is_shortest_route(mid.edges, hops, mid.id, leaf) && self@ == (
                        NetworkView { routes: mid.routes.insert(leaf, Some(hops)), ..mid }));
                    },
                    None => {
                        self.paths_to_leafs.set(leaf, None);
                        self.initiate_flood();
                    },
                }
                assert(self@.routes.dom() =~= before.routes.dom());
            }
            proof {
                assert(reachable_step(mid, leaf, self@));
                assert(reachable_steps(before, n as int, mid) && reachable_step(
                    mid,
                    ((n + 1) - 1) as NodeId,
                    self@,
                ));
                let lost_before = exists|l: NodeId|
                    l < n && #[trigger] has_route(before.routes, l) && !reachable(edges, id, l);
                let lost_now = has_route(before.routes, leaf) && !reachable(edges, id, leaf);
                if lost_before {
                    let l = choose|l: NodeId|
                        l < n && #[trigger] has_route(before.routes, l) && !reachable(edges, id, l);
                    assert(l < n + 1 && has_route(before.routes, l) && !reachable(edges, id, l));
                }
                if lost_now {
                    assert(leaf < n + 1 && has_route(before.routes, leaf) && !reachable(
                        edges,
                        id,
                        leaf,
                    ));
                }
                if exists|l: NodeId|
                    l < n + 1 && #[trigger] has_route(before.routes, l) && !reachable(edges, id, l) {
                    let l = choose|l: NodeId|
                        l < n + 1 && #[trigger] has_route(before.routes, l) && !reachable(
                            edges,
                            id,
                            l,
                        );
                    if l != leaf {
                        assert(l < n && has_route(before.routes, l) && !reachable(edges, id, l));
                    }
                }
            }
            n += 1;
        }
        proof {
            if loses_route(before.routes, edges, id) {
                let l = choose|l: NodeId| #[trigger]
                    has_route(before.routes, l) && !reachable(edges, id, l);
                assert(l < 256 && has_route(before.routes, l) && !reachable(edges, id, l));
            }
        }
    }

    /// Unreachable sweep: looks for a route to every leaf that has none. A
    /// route that is found is filed, and the send queue of its leaf is
    /// drained along it.
    pub fn update_unreachable_paths(&mut self)
        ensures
            unreachable_steps(old(self)@, NODE_IDS as int, final(self)@),
            same_but_traffic(
                NetworkView { routes: final(self)@.routes, ..old(self)@ },
                final(self)@,
            ),
            unreachable_sweep(old(self)@.routes, final(self)@.routes, old(self)@.edges, old(self)@.id),
            routes_valid(old(self)@.routes, old(self)@.edges, old(self)@.id) ==> routes_valid(
                final(self)@.routes,
                final(self)@.edges,
                final(self)@.id,
            ),
            old(self)@.stores_wf() ==> final(self)@.stores_wf(),
            old(self)@.inv() ==> final(self)@.inv(),
    {
        let ghost before = self@;
        let ghost edges = self@.edges;
        let ghost id = self@.id;
        let mut n: u16 = 0;
        while n < 256
            invariant
                n <= 256,
                unreachable_steps(before, n as int, self@),
                same_but_traffic(NetworkView { routes: self@.routes, ..before }, self@),
                edges == before.edges,
                id == before.id,
                self@.routes.dom() == before.routes.dom(),
                forall|leaf: NodeId|
                    leaf >= n && #[trigger] before.routes.contains_key(leaf) ==> self@.routes[leaf]
                        == before.routes[leaf],
                forall|leaf: NodeId|
                    leaf < n && #[trigger] before.routes.contains_key(leaf) ==> if before.routes[leaf] is None {
                        if reachable(edges, id, leaf) {
                            self@.routes[leaf] is Some && is_shortest_route(
                                edges,
                                self@.routes[leaf]->Some_0,
                                id,
                                leaf,
                            )
                        } else {
                            self@.routes[leaf] is None
                        }
                    } else {
                        self@.routes[leaf] == before.routes[leaf]
                    },
                routes_valid(before.routes, edges, id) ==> routes_valid(self@.routes, edges, id),
                before.stores_wf() ==> self@.stores_wf(),
            decreases 256 - n,
        {
            let leaf = n as u8;
            let ghost start = self@;
            if self.paths_to_leafs.is_unknown(leaf) {
                assert(lacks_route(before.routes, leaf));
                let path = self.topology.shortest_path(self.id, leaf);
                match path {
                    Some(p) => {
                        let ghost routes0 = self@.routes;
                        let ghost hops = p@;
                        self.paths_to_leafs.set(leaf, Some(p));
                        assert(self@.routes.dom() =~= before.routes.dom());
                        assert(reachable(edges, id, leaf));
                        assert(routes_valid(routes0, edges, id) ==> routes_valid(
                            self@.routes,
                            edges,
                            id,
                        )) by {
                            if routes_valid(routes0, edges, id) {
                                assert forall|l: NodeId| #[trigger]
                                    has_route(self@.routes, l) implies is_route(
                                    edges,
                                    self@.routes[l]->Some_0,
                                    id,
                                    l,
                                ) by {
                                    if l != leaf {
                                        assert(has_route(routes0, l));
                                    }
                                }
                            }
                        }
                        let ghost mid = self@;
                        self.check_queued(leaf);
                        proof {
                            assert(mid == (NetworkView {
                                routes: start.routes.insert(leaf, Some(hops)),
                                ..start
                            }));
                            assert(is_shortest_route(start.edges, hops, start.id, leaf)
                                && drain_of(
                                NetworkView {
                                    routes: start.routes.insert(leaf, Some(hops)),
                                    ..start
                                },
                                leaf,
                                self@,
                            ));
                        }
                    },
                    None => {},
                }
            }
            proof {
                assert(unreachable_step(start, leaf, self@));
                assert(unreachable_steps(before, n as int, start) && unreachable_step(
                    start,
                    ((n + 1) - 1) as NodeId,
                    self@,
                ));
            }
            n += 1;
        }
    }

    /// Takes the trace `path` of a flood into the topology: see
    /// [`path_edges`]. A trace that does not start at this node is refused
    /// and changes nothing.
    pub fn add_path(&mut self, path: &Vec<NodeId>, is_last_leaf: bool) -> (res: Result<(), String>)
        ensures
            res is Ok <==> starts_at(path@, old(self)@.id),
            res is Err ==> final(self)@ == old(self)@ && res->Err_0@
                == "Path does not start with this node"@,
            res is Ok ==> final(self)@ == (NetworkView {
                edges: old(self)@.edges + path_edges(path@, is_last_leaf),
                nodes: old(self)@.nodes + path_nodes(path@),
                ..old(self)@
            }),
            old(self)@.inv() ==> final(self)@.inv(),
    {
        if path.len() == 0 || path[0] != self.id {
            return Err("Path does not start with this node".to_string());
        }
        let ghost before = self@;
        let last_index: usize = if path.len() >= 2 {
            path.len() - 2
        } else {
            0
        };
        let mut i: usize = 0;
        assert(before.edges + edges_upto(path@, is_last_leaf, 0) =~= before.edges);
        assert(before.nodes + nodes_upto(path@, 0) =~= before.nodes);
        while i + 1 < path.len()
            invariant
                i < path.len(),
                path.len() >= 2 ==> last_index == path.len() - 2,
                self@ == (NetworkView { edges: self@.edges, nodes: self@.nodes, ..before }),
                self@.edges == before.edges + edges_upto(path@, is_last_leaf, i as int),
                self@.nodes == before.nodes + nodes_upto(path@, i as int),
            decreases path.len() - i,
        {
            let a = path[i];
            let b = path[i + 1];
            self.topology.add_edge(a, b);
            let back = i != 0 && !(is_last_leaf && i == last_index);
            if back {
                self.topology.add_edge(b, a);
            }
            proof {
                let k0 = i as int;
                let upto0 = edges_upto(path@, is_last_leaf, k0);
                let upto1 = edges_upto(path@, is_last_leaf, k0 + 1);
                assert((a, b) == hop_pair(path@, k0));
                assert(step_shows(path@, is_last_leaf, k0, (a, b)));
                assert(back ==> step_shows(path@, is_last_leaf, k0, (b, a)));
                assert forall|e: (NodeId, NodeId)|
                    upto1.contains(e) <==> upto0.contains(e) || step_shows(
                        path@,
                        is_last_leaf,
                        k0,
                        e,
                    ) by {
                    if upto1.contains(e) {
                        let k = choose|k: int|
                            0 <= k < k0 + 1 && #[trigger] step_shows(path@, is_last_leaf, k, e);
                        if k < k0 {
                            assert(0 <= k < k0 && step_shows(path@, is_last_leaf, k, e));
                        }
                    }
                    if upto0.contains(e) {
                        let k = choose|k: int|
                            0 <= k < k0 && #[trigger] step_shows(path@, is_last_leaf, k, e);
                        assert(0 <= k < k0 + 1 && step_shows(path@, is_last_leaf, k, e));
                    }
                    if step_shows(path@, is_last_leaf, k0, e) {
                        assert(0 <= k0 < k0 + 1 && step_shows(path@, is_last_leaf, k0, e));
                    }
                }
                assert(self@.edges =~= before.edges + upto1);
                let seen0 = nodes_upto(path@, k0);
                let seen1 = nodes_upto(path@, k0 + 1);
                assert forall|x: NodeId|
                    seen1.contains(x) <==> seen0.contains(x) || x == a || x == b by {
                    if seen1.contains(x) {
                        let k = choose|k: int| 0 <= k <= k0 + 1 && #[trigger] path@[k] == x;
                        if k < k0 {
                            assert(0 <= k <= k0 && path@[k] == x);
                            assert(k0 > 0);
                        }
                    }
                    if seen0.contains(x) {
                        let k = choose|k: int| 0 <= k <= k0 && #[trigger] path@[k] == x;
                        assert(0 <= k <= k0 + 1 && path@[k] == x);
                    }
                    if x == a {
                        assert(0 <= k0 <= k0 + 1 && path@[k0] == x);
                    }
                    if x == b {
                        assert(0 <= k0 + 1 <= k0 + 1 && path@[k0 + 1] == x);
                    }
                }
                assert(self@.nodes =~= before.nodes + seen1);
            }
            i += 1;
        }
        proof {
            if before.inv() {
                lemma_routes_valid_monotonic(before.routes, before.edges, self@.edges, before.id);
            }
        }
        Ok(())
    }
}

} // verus!
