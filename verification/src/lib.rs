//! Core logic of a peer node of a decentralized exchange network: wire framing,
//! request correlation, the bootstrap exchange, routing of gossiped data with
//! deduplication, and the fixed-point arithmetic of the trade statistics.

pub mod bisq;
pub mod bootstrap;
pub mod connection;
pub mod daemon;
pub mod domain;
pub mod error;
pub mod peers;
pub mod text;
pub mod tor;
pub mod wire;
