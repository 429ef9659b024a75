//! Wire format and frame codecs.

pub mod account;
pub mod control;
pub mod frame;
pub mod header;
pub mod laws;
pub mod slot;
pub mod transaction;
pub mod update;

pub use crate::pubkey::Pubkey;
pub use account::{
    AccountPayload, AccountUpdate, AccountUpdateWireMeta, DecodedAccountUpdate,
    MAX_ACCOUNT_PAYLOAD_BYTES,
};
pub use control::{
    ConnectionReady, ConnectionReadyShm, PingRequest, SlotToken, SubscriptionRequest,
};
pub use frame::{
    decode_client_frame, decode_server_frame, decode_server_frame_owned,
    decode_server_frame_owned_with_meta, ClientFrame, ServerFrame, ServerFrameWithMeta,
};
pub use slot::{DecodedSlotUpdate, SlotUpdate};
pub use transaction::{
    DecodedTransactionUpdate, TransactionPayload, TransactionUpdate, MAX_TRANSACTION_PAYLOAD_BYTES,
};
pub use update::Update;
