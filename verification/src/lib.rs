//! A chat client at the edge of a source-routed drone overlay.
//!
//! The networking core: the packet model ([`packet`], [`message`]), the
//! topology and the routes in use ([`graph`], [`paths`], [`topology`]), the
//! send queue, the fragments in flight and the reassembly buffer ([`queue`],
//! [`pending`], [`reassembly`]), and the router that ties them together
//! ([`network`], [`pack_out`], [`pack_in`], [`utils`], [`net`]) over the
//! channels to the neighbours and to the simulation controller
//! ([`channel`]).
//!
//! The terminal front-end: its protocol with the client ([`frontend`]), its
//! state ([`tui_state`]), and what commands, keys and the size of the window
//! do to it ([`tui_commands`], [`tui_events`], [`tui_layout`]).

pub mod channel;
pub mod frontend;
pub mod graph;
pub mod message;
pub mod net;
pub mod network;
pub mod pack_in;
pub mod pack_out;
pub mod packet;
pub mod paths;
pub mod pending;
pub mod queue;
pub mod reassembly;
pub mod topology;
pub mod tui_commands;
pub mod tui_events;
pub mod tui_layout;
pub mod tui_state;
pub mod utils;
