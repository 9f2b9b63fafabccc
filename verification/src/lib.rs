//! Protocol core of a decentralized virtual-LAN overlay.
//!
//! The crate frames and validates wire packets, seals and opens payloads
//! with an AEAD cipher under a strict nonce discipline, drives the
//! handshake that establishes per-peer session keys, and maintains a
//! registry of live peers with heartbeat-based eviction.

pub mod client_config;
pub mod codec;
pub mod crypto;
pub mod dispatch;
pub mod endian;
pub mod handshake;
pub mod hex;
pub mod messages;
pub mod protocol;
pub mod registry;
pub mod server_config;
