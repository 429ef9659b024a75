//! Shared-memory data streaming for colocated services: wire codecs, sender
//! side filtering and slot management, and the consumer's queueing rules.

pub mod bloom;
pub mod buffer;
pub mod clock;
pub mod consumer;
pub mod error;
pub mod keyset;
pub mod le;
pub mod lz4;
pub mod metrics;
pub mod pubkey;
pub mod queue;
pub mod schema;
pub mod sender;
pub mod shm;
pub mod text;
pub mod transport;
pub mod types;
pub mod wire;
