//! Updates on their way to subscribers.

use crate::buffer::bytes_view;
use crate::clock::{instant_now, is_unix_nanos};
use crate::error::{ErrorModel, QlasterError};
use crate::metrics::unix_time_nanos;
use crate::sender::filter::{FilterModel, SubscriptionFilter};
use crate::transport::OutboundFrame;
use crate::types::account::{encodes_account, AccountUpdate, AccountUpdateWireMeta};
use crate::types::frame::{decode_server, ServerModel};
use crate::types::header::{SLOT_UPDATE_TAG, TRANSACTION_UPDATE_TAG, UPDATE_TAG};
use crate::types::slot::{slot_frame, SlotUpdate};
use crate::types::transaction::{transaction_header, TransactionUpdate};
use crate::types::update::Update;
use vstd::prelude::*;

verus! {

/// More than any update frame has, in bytes.
pub const UPDATE_FRAME_BOUND: usize = 11 * 1024 * 1024;

/// Whether a subscriber with this filter gets the update: accounts by key or
/// owner, transactions on demand, slots always.
pub open spec fn wants(filter: FilterModel, update: ServerModel) -> bool {
    match update {
        ServerModel::AccountUpdate(m) => filter.matches_account(m),
        ServerModel::TransactionUpdate(_) => filter.include_transactions,
        ServerModel::SlotUpdate(_) => true,
        _ => false,
    }
}

/// The frame is the one for this update, created at some time, and a client reads
/// the update from it.
pub open spec fn carries(frame: OutboundFrame, update: ServerModel) -> bool {
    exists|created: u64|
        {
            &&& is_unix_nanos(created)
            &&& #[trigger] carries_at(
                frame,
                update,
                AccountUpdateWireMeta { sender_created_at_unix_nanos: created },
            )
        }
}

/// The frame is the one for this update with this metadata, and a client reads
/// both from it. The payload of an account is compressed where that pays.
pub open spec fn carries_at(
    frame: OutboundFrame,
    update: ServerModel,
    meta: AccountUpdateWireMeta,
) -> bool {
    let header = bytes_view(frame.header);
    let payload = bytes_view(frame.payload);
    let created = meta.sender_created_at_unix_nanos;
    &&& decode_server(frame.body()) == Ok::<_, ErrorModel>((update, Some(meta)))
    &&& match update {
        ServerModel::AccountUpdate(m) => encodes_account(header, payload, m, created),
        ServerModel::TransactionUpdate(m) => {
            &&& header == transaction_header(m, created)
            &&& payload == m.payload
        },
        ServerModel::SlotUpdate(m) => {
            &&& header == slot_frame(m.slot, created)
            &&& payload.len() == 0
        },
        _ => false,
    }
}

/// The frame for an account update.
pub fn encode_account_frame(update: &AccountUpdate) -> (r: Result<OutboundFrame, QlasterError>)
    ensures
        r matches Ok(frame) && {
            &&& carries(frame, ServerModel::AccountUpdate(update@))
            &&& frame.body().len() <= UPDATE_FRAME_BOUND
        },
{
    let frame_start = instant_now();
    let now: u64 = unix_time_nanos();
    match update.encode_parts_at(now) {
        Ok((header, payload)) => {
            let frame = OutboundFrame { header, payload, frame_start };
            proof {
                let meta = AccountUpdateWireMeta { sender_created_at_unix_nanos: now };
                assert(frame.body()[1] == UPDATE_TAG);
                assert(carries_at(frame, ServerModel::AccountUpdate(update@), meta));
            }
            Ok(frame)
        },
        Err(e) => Err(e),
    }
}

/// The frame for a transaction update.
pub fn encode_transaction_frame(update: &TransactionUpdate) -> (r: Result<
    OutboundFrame,
    QlasterError,
>)
    ensures
        r matches Ok(frame) && {
            &&& carries(frame, ServerModel::TransactionUpdate(update@))
            &&& frame.body().len() <= UPDATE_FRAME_BOUND
        },
{
    let frame_start = instant_now();
    let now: u64 = unix_time_nanos();
    match update.encode_parts_at(now) {
        Ok((header, payload)) => {
            let frame = OutboundFrame { header, payload, frame_start };
            proof {
                let meta = AccountUpdateWireMeta { sender_created_at_unix_nanos: now };
                assert(frame.body()[1] == TRANSACTION_UPDATE_TAG);
                assert(carries_at(frame, ServerModel::TransactionUpdate(update@), meta));
            }
            Ok(frame)
        },
        Err(e) => Err(e),
    }
}

/// The frame for a slot update.
pub fn encode_slot_frame(update: &SlotUpdate) -> (r: Result<OutboundFrame, QlasterError>)
    ensures
        r matches Ok(frame) && {
            &&& carries(frame, ServerModel::SlotUpdate(*update))
            &&& frame.body().len() <= UPDATE_FRAME_BOUND
        },
{
    let frame_start = instant_now();
    let now: u64 = unix_time_nanos();
    match update.encode_parts_at(now) {
        Ok((header, payload)) => {
            let frame = OutboundFrame { header, payload, frame_start };
            proof {
                let meta = AccountUpdateWireMeta { sender_created_at_unix_nanos: now };
                assert(frame.body()[1] == SLOT_UPDATE_TAG);
                assert(carries_at(frame, ServerModel::SlotUpdate(*update), meta));
            }
            Ok(frame)
        },
        Err(e) => Err(e),
    }
}

impl Update {
    /// Whether a subscriber with this filter gets the update.
    pub fn wanted_by(&self, filter: &SubscriptionFilter) -> (r: bool)
        requires
            filter.wf(),
        ensures
            r == wants(filter@, self@),
    {
        match self {
            Update::Account(update) => filter.matches_account(update),
            Update::Transaction(_) => filter.matches_transaction(),
            Update::Slot(_) => true,
        }
    }

    /// The frame for the update.
    pub fn encode_frame(&self) -> (r: Result<OutboundFrame, QlasterError>)
        ensures
            r matches Ok(frame) && {
                &&& carries(frame, self@)
                &&& frame.body().len() <= UPDATE_FRAME_BOUND
            },
    {
        match self {
            Update::Account(update) => encode_account_frame(update),
            Update::Transaction(update) => encode_transaction_frame(update),
            Update::Slot(update) => encode_slot_frame(update),
        }
    }
}

} // verus!
