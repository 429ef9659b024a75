//! The sender: who is connected, and who gets what.

pub mod dispatch;
pub mod filter;
pub mod laws;
pub mod manager;
pub mod numbering;
pub mod shm;
pub mod update;

pub use dispatch::Dispatch;
pub use filter::SubscriptionFilter;
pub use manager::{ConnectionManager, ManagedConnection};
pub use shm::{SenderConfig, ShmTransportConfig, SubscriptionRequestForward};
