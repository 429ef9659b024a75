//! Shared-memory transport.

pub mod eventfd;
pub mod laws;
pub mod ring;
pub mod run;
pub mod uds;

pub use ring::{ShmRingConsumer, ShmRingProducer, RING_HEADER_SIZE};
