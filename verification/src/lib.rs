//! A verified drone node for a simulated packet-switched overlay network.
//!
//! A drone receives source-routed packets, forwards them hop by hop,
//! answers undeliverable traffic with negative acknowledgments along the
//! reverse path, takes part in a network-discovery flood protocol, and
//! obeys lifecycle commands from a simulation controller.
//!
//! The drone's packet-handling state machine lives here in full and is
//! verified against the transition function in [`model`]. The blocking
//! event loop that feeds it — a biased select over a command channel and
//! a packet channel — is channel plumbing and stays outside the library;
//! a caller hands each inbound command or packet to the drone and performs
//! the [`control::Action`]s the drone returns.

pub mod control;
pub mod helper;
pub mod laws;
pub mod model;
pub mod packet;

mod drone;

pub use drone::LockheedRustin;
pub use helper::get_hop;
pub use helper::get_next_hop;
pub use helper::simplify_hops;
