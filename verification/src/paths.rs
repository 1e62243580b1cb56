//! Path cache: for each destination leaf ever learned, the route to it that
//! is in use, or the note that none is known.

use crate::packet::{clone_hops, NodeId};
use std::collections::HashMap;
use vstd::prelude::*;

verus! {

broadcast use vstd::std_specs::hash::group_hash_axioms;

/// The cache as a map: `Some(route)` where a route is known, `None` where
/// the leaf is known and no route to it is.
pub type Routes = Map<NodeId, Option<Seq<NodeId>>>;

/// The value of a cache entry.
pub open spec fn route_view(route: Option<Vec<NodeId>>) -> Option<Seq<NodeId>> {
    match route {
        Some(hops) => Some(hops@),
        None => None,
    }
}

/// A route to `leaf` is known in `routes`.
pub open spec fn has_route(routes: Routes, leaf: NodeId) -> bool {
    routes.contains_key(leaf) && routes[leaf] is Some
}

/// `leaf` is known in `routes`, and no route to it is.
pub open spec fn lacks_route(routes: Routes, leaf: NodeId) -> bool {
    routes.contains_key(leaf) && routes[leaf] is None
}

/// Every known route starts at `id` and ends at the leaf it is filed under.
pub open spec fn routes_anchored(routes: Routes, id: NodeId) -> bool {
    forall|leaf: NodeId| #[trigger]
        has_route(routes, leaf) ==> {
            let p = routes[leaf]->Some_0;
            p.len() >= 1 && p[0] == id && p[p.len() - 1] == leaf
        }
}

/// Routes per destination leaf.
pub struct PathCache {
    entries: HashMap<NodeId, Option<Vec<NodeId>>>,
}

impl PathCache {
    /// The cache as a map from leaf to route.
    pub closed spec fn view(&self) -> Routes {
        Map::new(
            |leaf: NodeId| self.entries@.contains_key(leaf),
            |leaf: NodeId| route_view(self.entries@[leaf]),
        )
    }

    /// An empty cache.
    pub fn new() -> (res: Self)
        ensures
            res@ == Map::<NodeId, Option<Seq<NodeId>>>::empty(),
    {
        let res = PathCache { entries: HashMap::new() };
        assert(res@ =~= Map::<NodeId, Option<Seq<NodeId>>>::empty());
        res
    }

    /// Whether `leaf` has an entry.
    pub fn contains(&self, leaf: NodeId) -> (res: bool)
        ensures
            res == self@.contains_key(leaf),
    {
        self.entries.contains_key(&leaf)
    }

    /// Whether a route to `leaf` is known.
    pub fn is_known(&self, leaf: NodeId) -> (res: bool)
        ensures
            res == has_route(self@, leaf),
    {
        match self.entries.get(&leaf) {
            Some(Some(_)) => true,
            _ => false,
        }
    }

    /// Whether `leaf` has an entry that holds no route.
    pub fn is_unknown(&self, leaf: NodeId) -> (res: bool)
        ensures
            res == lacks_route(self@, leaf),
    {
        match self.entries.get(&leaf) {
            Some(None) => true,
            _ => false,
        }
    }

    /// A copy of the route to `leaf`, where one is known.
    pub fn route(&self, leaf: NodeId) -> (res: Option<Vec<NodeId>>)
        ensures
            res is Some <==> has_route(self@, leaf),
            res is Some ==> Some(res->Some_0@) == self@[leaf],
    {
        match self.entries.get(&leaf) {
            Some(Some(hops)) => Some(clone_hops(hops)),
            _ => None,
        }
    }

    /// Files `route` under `leaf`.
    pub fn set(&mut self, leaf: NodeId, route: Option<Vec<NodeId>>)
        ensures
            final(self)@ == old(self)@.insert(leaf, route_view(route)),
    {
        self.entries.insert(leaf, route);
        assert(final(self)@ =~= old(self)@.insert(leaf, route_view(route)));
    }
}

} // verus!
