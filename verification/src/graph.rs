//! Topology store: a directed graph over node ids, kept in a
//! `petgraph::graphmap::GraphMap`, with unit-cost shortest routes.

use crate::packet::NodeId;
use petgraph::graphmap::GraphMap;
use petgraph::Directed;
use std::collections::hash_map::RandomState;
use std::hash::BuildHasher;
use vstd::prelude::*;

verus! {

/// `petgraph::graphmap::GraphMap`, taken as it is: nothing is known of what
/// a graph holds but what [`graph_nodes`] and [`graph_edges`] say.
#[verifier::external_type_specification]
#[verifier::external_body]
#[verifier::reject_recursive_types(N)]
#[verifier::reject_recursive_types(E)]
#[verifier::reject_recursive_types(Ty)]
#[verifier::reject_recursive_types(S)]
pub struct ExGraphMap<N, E, Ty, S: BuildHasher>(GraphMap<N, E, Ty, S>);

/// `petgraph::Directed`, the marker of graphs whose edges have a direction.
#[verifier::external_type_specification]
#[verifier::external_body]
pub struct ExDirected(Directed);

/// The nodes a graph holds.
pub uninterp spec fn graph_nodes(g: GraphMap<NodeId, i32, Directed, RandomState>) -> Set<NodeId>;

/// The directed edges a graph holds, each as (source, target).
pub uninterp spec fn graph_edges(g: GraphMap<NodeId, i32, Directed, RandomState>) -> Set<
    (NodeId, NodeId),
>;

/// The `i`-th step of the walk `p`.
pub open spec fn hop_pair(p: Seq<NodeId>, i: int) -> (NodeId, NodeId) {
    (p[i], p[i + 1])
}

/// `p` leads from `from` to `to` along edges of `edges`.
pub open spec fn is_route(edges: Set<(NodeId, NodeId)>, p: Seq<NodeId>, from: NodeId, to: NodeId) -> bool {
    &&& p.len() >= 1
    &&& p[0] == from
    &&& p[p.len() - 1] == to
    &&& forall|i: int| 0 <= i < p.len() - 1 ==> edges.contains(#[trigger] hop_pair(p, i))
}

/// Some route leads from `from` to `to`.
pub open spec fn reachable(edges: Set<(NodeId, NodeId)>, from: NodeId, to: NodeId) -> bool {
    exists|p: Seq<NodeId>| is_route(edges, p, from, to)
}

/// `p` is a route from `from` to `to` and no route between them has fewer
/// hops.
pub open spec fn is_shortest_route(
    edges: Set<(NodeId, NodeId)>,
    p: Seq<NodeId>,
    from: NodeId,
    to: NodeId,
) -> bool {
    &&& is_route(edges, p, from, to)
    &&& forall|q: Seq<NodeId>| #[trigger] is_route(edges, q, from, to) ==> p.len() <= q.len()
}

/// `edges` without every edge that starts or ends at `n`.
pub open spec fn edges_without_node(edges: Set<(NodeId, NodeId)>, n: NodeId) -> Set<
    (NodeId, NodeId),
> {
    edges.filter(|e: (NodeId, NodeId)| e.0 != n && e.1 != n)
}

/// Whether `n` is the node a search looks for.
pub fn same_node(n: NodeId, target: NodeId) -> (res: bool)
    ensures
        res == (n == target),
{
    n == target
}

/// Cost of crossing one edge.
pub fn hop_cost() -> (res: i32)
    ensures
        res == 1,
{
    1
}

/// Estimate of the cost that is left from any node: none, so that the search
/// is exact.
pub fn no_estimate() -> (res: i32)
    ensures
        res == 0,
{
    0
}

/// `GraphMap::new`: a graph without nodes and edges.
#[verifier::external_body]
fn graph_new() -> (g: GraphMap<NodeId, i32, Directed, RandomState>)
    ensures
        graph_nodes(g) == Set::<NodeId>::empty(),
        graph_edges(g) == Set::<(NodeId, NodeId)>::empty(),
{
    GraphMap::new()
}

/// `GraphMap::add_node`: the node is in the graph afterwards; the edges stay.
#[verifier::external_body]
fn graph_add_node(g: &mut GraphMap<NodeId, i32, Directed, RandomState>, n: NodeId)
    ensures
        graph_nodes(*final(g)) == graph_nodes(*old(g)).insert(n),
        graph_edges(*final(g)) == graph_edges(*old(g)),
{
    g.add_node(n);
}

/// `GraphMap::add_edge`: the edge from `a` to `b` is in the graph afterwards,
/// and so are both its ends; nothing else changes.
#[verifier::external_body]
fn graph_add_edge(
    g: &mut GraphMap<NodeId, i32, Directed, RandomState>,
    a: NodeId,
    b: NodeId,
    weight: i32,
)
    ensures
        graph_nodes(*final(g)) == graph_nodes(*old(g)).insert(a).insert(b),
        graph_edges(*final(g)) == graph_edges(*old(g)).insert((a, b)),
{
    g.add_edge(a, b, weight);
}

/// `GraphMap::remove_edge`: the edge from `a` to `b` is gone afterwards; the
/// nodes and the other edges stay.
#[verifier::external_body]
fn graph_remove_edge(g: &mut GraphMap<NodeId, i32, Directed, RandomState>, a: NodeId, b: NodeId)
    ensures
        graph_nodes(*final(g)) == graph_nodes(*old(g)),
        graph_edges(*final(g)) == graph_edges(*old(g)).remove((a, b)),
{
    g.remove_edge(a, b);
}

/// `GraphMap::remove_node`: the node is gone afterwards, with every edge that
/// starts or ends at it; the rest stays.
#[verifier::external_body]
fn graph_remove_node(g: &mut GraphMap<NodeId, i32, Directed, RandomState>, n: NodeId)
    ensures
        graph_nodes(*final(g)) == graph_nodes(*old(g)).remove(n),
        graph_edges(*final(g)) == edges_without_node(graph_edges(*old(g)), n),
{
    g.remove_node(n);
}

/// `GraphMap::contains_node`.
#[verifier::external_body]
fn graph_contains_node(g: &GraphMap<NodeId, i32, Directed, RandomState>, n: NodeId) -> (res: bool)
    ensures
        res == graph_nodes(*g).contains(n),
{
    g.contains_node(n)
}

/// `GraphMap::contains_edge`.
#[verifier::external_body]
fn graph_contains_edge(
    g: &GraphMap<NodeId, i32, Directed, RandomState>,
    a: NodeId,
    b: NodeId,
) -> (res: bool)
    ensures
        res == graph_edges(*g).contains((a, b)),
{
    g.contains_edge(a, b)
}

/// `petgraph::algo::astar` with every edge at the same cost and no estimate:
/// a route from `from` to `to` with the fewest hops, or `None` where no route
/// exists. Which of several shortest routes comes back is left open.
#[verifier::external_body]
fn graph_astar(
    g: &GraphMap<NodeId, i32, Directed, RandomState>,
    from: NodeId,
    to: NodeId,
) -> (res: Option<Vec<NodeId>>)
    ensures
        match res {
            Some(p) => is_shortest_route(graph_edges(*g), p@, from, to),
            None => !reachable(graph_edges(*g), from, to),
        },
{
    petgraph::algo::astar(g, from, |n| same_node(n, to), |_| hop_cost(), |_| no_estimate())
        .map(|found| found.1)
}

/// Directed graph of the nodes this client knows of.
pub struct Topology {
    graph: GraphMap<NodeId, i32, Directed, RandomState>,
}

impl Topology {
    /// The nodes of the graph.
    pub closed spec fn nodes(&self) -> Set<NodeId> {
        graph_nodes(self.graph)
    }

    /// The edges of the graph, each as (source, target).
    pub closed spec fn edges(&self) -> Set<(NodeId, NodeId)> {
        graph_edges(self.graph)
    }

    /// A graph without nodes and edges.
    pub fn new() -> (res: Self)
        ensures
            res.nodes() == Set::<NodeId>::empty(),
            res.edges() == Set::<(NodeId, NodeId)>::empty(),
    {
        Topology { graph: graph_new() }
    }

    /// Adds the node `n`.
    pub fn add_node(&mut self, n: NodeId)
        ensures
            final(self).nodes() == old(self).nodes().insert(n),
            final(self).edges() == old(self).edges(),
    {
        graph_add_node(&mut self.graph, n);
    }

    /// Adds the edge from `a` to `b`, and its two ends where they are new.
    pub fn add_edge(&mut self, a: NodeId, b: NodeId)
        ensures
            final(self).nodes() == old(self).nodes().insert(a).insert(b),
            final(self).edges() == old(self).edges().insert((a, b)),
    {
        graph_add_edge(&mut self.graph, a, b, hop_cost());
    }

    /// Removes the edge from `a` to `b`.
    pub fn remove_edge(&mut self, a: NodeId, b: NodeId)
        ensures
            final(self).nodes() == old(self).nodes(),
            final(self).edges() == old(self).edges().remove((a, b)),
    {
        graph_remove_edge(&mut self.graph, a, b);
    }

    /// Removes the node `n` and every edge at it.
    pub fn remove_node(&mut self, n: NodeId)
        ensures
            final(self).nodes() == old(self).nodes().remove(n),
            final(self).edges() == edges_without_node(old(self).edges(), n),
    {
        graph_remove_node(&mut self.graph, n);
    }

    /// Whether `n` is a node of the graph.
    pub fn contains_node(&self, n: NodeId) -> (res: bool)
        ensures
            res == self.nodes().contains(n),
    {
        graph_contains_node(&self.graph, n)
    }

    /// Whether the graph has the edge from `a` to `b`.
    pub fn contains_edge(&self, a: NodeId, b: NodeId) -> (res: bool)
        ensures
            res == self.edges().contains((a, b)),
    {
        graph_contains_edge(&self.graph, a, b)
    }

    /// A route with the fewest hops from `from` to `to`, where one exists.
    pub fn shortest_path(&self, from: NodeId, to: NodeId) -> (res: Option<Vec<NodeId>>)
        ensures
            match res {
                Some(p) => is_shortest_route(self.edges(), p@, from, to),
                None => !reachable(self.edges(), from, to),
            },
    {
        graph_astar(&self.graph, from, to)
    }
}

} // verus!
