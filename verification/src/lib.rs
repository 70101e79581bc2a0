//! Session layer for a game server: a per-connection handshake protocol
//! (network settings, login, encryption, resource-pack negotiation and
//! chunked transfer, world spawn) and a fixed-rate tick scheduler.
//!
//! The wire codec, the transport, the content store and the identity
//! checker are external collaborators; this crate holds the decision
//! logic that drives them, stated and verified over plain values.

pub mod config;
pub mod protocol;
pub mod rolling_average;
pub mod scheduler;
pub mod session;
pub mod transfer;
