//! A peer-to-peer message transport, written as a deterministic core.
//!
//! The transport discovers peers on a local segment, spreads application
//! payloads to them over one shared gossip topic, and bridges that bus to a
//! local application through a bounded submission slot and a delivery sink.
//! The event loop, discovery and the gossip bus are state machines over
//! plain values: the caller owns the clock and the sockets, hands in events
//! and carries out the actions that come back. Only the local identity
//! reaches outside, to `libp2p` for its keys.

pub mod dedup;
pub mod discovery;
pub mod gossip;
pub mod identity;
pub mod laws;
pub mod message;
pub mod outbox;
pub mod peer;
pub mod presence;
pub mod sink;
pub mod timer;
pub mod transporter;
