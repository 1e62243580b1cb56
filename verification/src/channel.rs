//! Outbound channels: the links to the neighbour drones and the link to the
//! simulation controller, both `crossbeam_channel` senders.

use crate::packet::{NodeId, Packet};
use crossbeam_channel::Sender;
use vstd::prelude::*;

verus! {

/// `crossbeam_channel::Sender`, the sending side of a channel, taken as it
/// is: nothing is known of what a channel holds or of who listens.
#[verifier::external_type_specification]
#[verifier::external_body]
#[verifier::reject_recursive_types(T)]
pub struct ExSender<T>(Sender<T>);

/// What the client reports to the simulation controller.
#[derive(Debug, PartialEq, Eq)]
pub enum LeafEvent {
    /// The packet was handed to a neighbour.
    PacketSend(Packet),
    /// The packet could not be handed to a neighbour; the controller is asked
    /// to deliver it.
    ControllerShortcut(Packet),
}

/// What the simulation controller asks of the client.
pub enum LeafCommand {
    /// The link to the neighbour is gone.
    RemoveSender(NodeId),
    /// A link to the neighbour exists; packets for it go into the channel.
    AddSender(NodeId, Sender<Packet>),
    /// The client is to stop.
    Kill,
}

/// `Sender::try_send`: offers `msg` to the channel without waiting, and says
/// whether the channel took it. A channel that is full, or whose receiving
/// side is gone, takes nothing; which of these holds is not known beforehand,
/// so nothing is promised of the answer.
#[verifier::external_body]
pub(crate) fn try_send<T>(sender: &Sender<T>, msg: T) -> (sent: bool) {
    sender.try_send(msg).is_ok()
}

} // verus!
