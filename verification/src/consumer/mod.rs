//! The consumer: handshake, subscriptions, and the queues of what came.

pub mod laws;
pub mod shm;

pub use shm::QlasterShmConsumer;
