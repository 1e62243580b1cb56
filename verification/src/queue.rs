//! Send queue: for each destination leaf, the fragment packets that wait for a
//! route, in the order they were queued.

use crate::packet::{packet_views, NodeId, Packet, PacketView};
use std::collections::HashMap;
use vstd::prelude::*;

verus! {

broadcast use vstd::std_specs::hash::group_hash_axioms;

/// What waits for one destination: the chat peer the packets are relayed to,
/// if any, and the packets.
pub struct QueueView {
    pub recipient: Option<NodeId>,
    pub packets: Seq<PacketView>,
}

/// Backlog of packets per destination leaf.
pub struct SendQueue {
    entries: HashMap<NodeId, (Option<NodeId>, Vec<Packet>)>,
}

/// The packets that wait for `leaf` in `queue`; none where it has no entry.
pub open spec fn waiting_for(queue: Map<NodeId, QueueView>, leaf: NodeId) -> Seq<PacketView> {
    if queue.contains_key(leaf) {
        queue[leaf].packets
    } else {
        Seq::empty()
    }
}

/// Every packet in `queue` carries a message fragment.
pub open spec fn only_fragments(queue: Map<NodeId, QueueView>) -> bool {
    forall|leaf: NodeId, i: int|
        queue.contains_key(leaf) && 0 <= i < queue[leaf].packets.len() ==> (
        #[trigger] queue[leaf].packets[i]).is_fragment()
}

impl SendQueue {
    /// The backlog as a map from destination to what waits for it.
    pub closed spec fn view(&self) -> Map<NodeId, QueueView> {
        Map::new(
            |leaf: NodeId| self.entries@.contains_key(leaf),
            |leaf: NodeId|
                QueueView {
                    recipient: self.entries@[leaf].0,
                    packets: packet_views(self.entries@[leaf].1@),
                },
        )
    }

    /// An empty backlog.
    pub fn new() -> (res: Self)
        ensures
            res@ == Map::<NodeId, QueueView>::empty(),
    {
        let res = SendQueue { entries: HashMap::new() };
        assert(res@ =~= Map::<NodeId, QueueView>::empty());
        res
    }

    /// Whether anything is recorded for `leaf`.
    pub fn contains(&self, leaf: NodeId) -> (res: bool)
        ensures
            res == self@.contains_key(leaf),
    {
        self.entries.contains_key(&leaf)
    }

    /// Number of packets that wait for `leaf`.
    pub fn waiting(&self, leaf: NodeId) -> (res: usize)
        ensures
            res == waiting_for(self@, leaf).len(),
    {
        match self.entries.get(&leaf) {
            Some(entry) => entry.1.len(),
            None => 0,
        }
    }

    /// Appends `pack` to the backlog of `leaf` and records `recipient` as the
    /// chat peer of that backlog.
    pub fn push(&mut self, leaf: NodeId, recipient: Option<NodeId>, pack: Packet)
        ensures
            final(self)@ == old(self)@.insert(
                leaf,
                QueueView { recipient, packets: waiting_for(old(self)@, leaf).push(pack@) },
            ),
    {
        let ghost before = self.entries@;
        let ghost pv = pack@;
        let taken = self.entries.remove(&leaf);
        let mut queue: Vec<Packet> = match taken {
            Some(entry) => entry.1,
            None => Vec::new(),
        };
        assert(packet_views(queue@) == waiting_for(old(self)@, leaf));
        let ghost prior = queue@;
        queue.push(pack);
        assert(packet_views(queue@) == packet_views(prior).push(pv));
        self.entries.insert(leaf, (recipient, queue));
        assert(self.entries@ == before.insert(leaf, (recipient, queue)));
        assert(final(self)@ =~= old(self)@.insert(
            leaf,
            QueueView { recipient, packets: waiting_for(old(self)@, leaf).push(pv) },
        ));
    }

    /// Takes the backlog of `leaf` out of the queue.
    pub fn take(&mut self, leaf: NodeId) -> (res: Option<(Option<NodeId>, Vec<Packet>)>)
        ensures
            final(self)@ == old(self)@.remove(leaf),
            match res {
                Some(entry) => old(self)@.contains_key(leaf) && old(self)@[leaf] == (QueueView {
                    recipient: entry.0,
                    packets: packet_views(entry.1@),
                }),
                None => !old(self)@.contains_key(leaf),
            },
    {
        let res = self.entries.remove(&leaf);
        assert(final(self)@ =~= old(self)@.remove(leaf));
        res
    }
}

} // verus!
