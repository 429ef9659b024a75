//! Frames told apart by their tag.

use crate::error::{ErrorModel, QlasterError};
use crate::lz4::unblocks_to;
use crate::schema::WINCODE_LIST_BYTES;
use crate::types::account::{
    account_frame, decode_account, law_account_frame_read_back, AccountModel, AccountUpdate,
    AccountUpdateWireMeta,
};
use crate::types::control::{
    decode_ping, decode_ready, decode_ready_shm, decode_subscription, law_ping_read_back,
    law_ready_read_back, law_ready_shm_read_back, law_subscription_read_back, ping_frame,
    ready_frame, ready_shm_frame, subscription_frame, ConnectionReady, ConnectionReadyShm,
    PingRequest, ReadyShmModel, SlotToken, SubscriptionModel, SubscriptionRequest,
};
use crate::types::header::{
    READY_SHM_TAG, READY_TAG, REQUEST_PING_TAG, REQUEST_SUBSCRIBE_TAG, SLOT_UPDATE_TAG,
    TRANSACTION_UPDATE_TAG, UNSET_SLOT_INDEX, UPDATE_TAG, WIRE_VERSION,
};
use crate::types::slot::{decode_slot, law_slot_frame_read_back, slot_frame, SlotUpdate};
use crate::types::transaction::{
    decode_transaction, law_transaction_frame_read_back, transaction_frame, TransactionModel,
    TransactionUpdate,
};
use vstd::prelude::*;
use vstd::utf8::encode_utf8;

verus! {

/// What a client sends.
pub enum ClientFrame {
    Subscription(SubscriptionRequest),
    Ping(PingRequest),
}

/// A [`ClientFrame`] as a model.
pub enum ClientModel {
    Subscription(SubscriptionModel),
    Ping(SlotToken),
}

impl View for ClientFrame {
    type V = ClientModel;

    open spec fn view(&self) -> ClientModel {
        match *self {
            ClientFrame::Subscription(request) => ClientModel::Subscription(request@),
            ClientFrame::Ping(ping) => ClientModel::Ping(ping.slot_token),
        }
    }
}

/// What a sender sends.
#[derive(Debug)]
pub enum ServerFrame {
    AccountUpdate(AccountUpdate),
    TransactionUpdate(TransactionUpdate),
    SlotUpdate(SlotUpdate),
    ConnectionReady(ConnectionReady),
    ConnectionReadyShm(ConnectionReadyShm),
}

/// A [`ServerFrame`] as a model.
pub enum ServerModel {
    AccountUpdate(AccountModel),
    TransactionUpdate(TransactionModel),
    SlotUpdate(SlotUpdate),
    ConnectionReady(SlotToken),
    ConnectionReadyShm(ReadyShmModel),
}

impl View for ServerFrame {
    type V = ServerModel;

    open spec fn view(&self) -> ServerModel {
        match *self {
            ServerFrame::AccountUpdate(update) => ServerModel::AccountUpdate(update@),
            ServerFrame::TransactionUpdate(update) => ServerModel::TransactionUpdate(update@),
            ServerFrame::SlotUpdate(update) => ServerModel::SlotUpdate(update),
            ServerFrame::ConnectionReady(ready) => ServerModel::ConnectionReady(ready.slot_token),
            ServerFrame::ConnectionReadyShm(ready) => ServerModel::ConnectionReadyShm(ready@),
        }
    }
}

/// What a sender sends, updates with their metadata.
#[allow(inconsistent_fields)]
#[derive(Debug)]
pub enum ServerFrameWithMeta {
    AccountUpdate { update: AccountUpdate, meta: AccountUpdateWireMeta },
    TransactionUpdate { update: TransactionUpdate, meta: AccountUpdateWireMeta },
    SlotUpdate { update: SlotUpdate, meta: AccountUpdateWireMeta },
    ConnectionReady(ConnectionReady),
    ConnectionReadyShm(ConnectionReadyShm),
}

impl View for ServerFrameWithMeta {
    type V = (ServerModel, Option<AccountUpdateWireMeta>);

    open spec fn view(&self) -> (ServerModel, Option<AccountUpdateWireMeta>) {
        match *self {
            ServerFrameWithMeta::AccountUpdate { update, meta } => (
                ServerModel::AccountUpdate(update@),
                Some(meta),
            ),
            ServerFrameWithMeta::TransactionUpdate { update, meta } => (
                ServerModel::TransactionUpdate(update@),
                Some(meta),
            ),
            ServerFrameWithMeta::SlotUpdate { update, meta } => (
                ServerModel::SlotUpdate(update),
                Some(meta),
            ),
            ServerFrameWithMeta::ConnectionReady(ready) => (
                ServerModel::ConnectionReady(ready.slot_token),
                None,
            ),
            ServerFrameWithMeta::ConnectionReadyShm(ready) => (
                ServerModel::ConnectionReadyShm(ready@),
                None,
            ),
        }
    }
}

/// What a client's frame stands for, or what is wrong with it: the second byte
/// says how the frame is read.
pub open spec fn decode_client(b: Seq<u8>) -> Result<ClientModel, ErrorModel> {
    if b.len() < 2 {
        Err(ErrorModel::MalformedPayload("frame too short for wire tag"@))
    } else if b[1] == REQUEST_SUBSCRIBE_TAG {
        match decode_subscription(b) {
            Ok(m) => Ok(ClientModel::Subscription(m)),
            Err(e) => Err(e),
        }
    } else if b[1] == REQUEST_PING_TAG {
        match decode_ping(b) {
            Ok(token) => Ok(ClientModel::Ping(token)),
            Err(e) => Err(e),
        }
    } else {
        Err(ErrorModel::InvalidMessageTag { found: b[1], expected: REQUEST_SUBSCRIBE_TAG })
    }
}

/// What a sender's frame stands for, with the metadata of an update, or what is
/// wrong with it: the second byte says how the frame is read.
pub open spec fn decode_server(b: Seq<u8>) -> Result<
    (ServerModel, Option<AccountUpdateWireMeta>),
    ErrorModel,
> {
    if b.len() < 2 {
        Err(ErrorModel::MalformedPayload("frame too short for wire tag"@))
    } else if b[1] == UPDATE_TAG {
        match decode_account(b) {
            Ok((m, meta)) => Ok((ServerModel::AccountUpdate(m), Some(meta))),
            Err(e) => Err(e),
        }
    } else if b[1] == TRANSACTION_UPDATE_TAG {
        match decode_transaction(b) {
            Ok((m, meta)) => Ok((ServerModel::TransactionUpdate(m), Some(meta))),
            Err(e) => Err(e),
        }
    } else if b[1] == SLOT_UPDATE_TAG {
        match decode_slot(b) {
            Ok((m, meta)) => Ok((ServerModel::SlotUpdate(m), Some(meta))),
            Err(e) => Err(e),
        }
    } else if b[1] == READY_TAG {
        match decode_ready(b) {
            Ok(token) => Ok((ServerModel::ConnectionReady(token), None)),
            Err(e) => Err(e),
        }
    } else if b[1] == READY_SHM_TAG {
        match decode_ready_shm(b) {
            Ok(m) => Ok((ServerModel::ConnectionReadyShm(m), None)),
            Err(e) => Err(e),
        }
    } else {
        Err(ErrorModel::InvalidMessageTag { found: b[1], expected: UPDATE_TAG })
    }
}

/// The frame or the error that decoding came to is the one that is expected.
pub open spec fn decodes_to(
    r: Result<ServerFrame, QlasterError>,
    expected: Result<(ServerModel, Option<AccountUpdateWireMeta>), ErrorModel>,
) -> bool {
    match r {
        Ok(frame) => expected matches Ok((m, _)) && m == frame@,
        Err(e) => expected matches Err(fault) && fault == e@,
    }
}

/// The tag of a frame.
pub fn wire_tag(bytes: &[u8]) -> (r: Result<u8, QlasterError>)
    ensures
        match r {
            Ok(tag) => bytes@.len() >= 2 && tag == bytes@[1],
            Err(e) => bytes@.len() < 2 && e@ == ErrorModel::MalformedPayload(
                "frame too short for wire tag"@,
            ),
        },
{
    if bytes.len() < 2 {
        Err(QlasterError::MalformedPayload("frame too short for wire tag"))
    } else {
        Ok(bytes[1])
    }
}

/// What a client's frame stands for.
pub fn decode_client_frame(bytes: &[u8]) -> (r: Result<ClientFrame, QlasterError>)
    ensures
        match r {
            Ok(frame) => decode_client(bytes@) == Ok::<_, ErrorModel>(frame@),
            Err(e) => decode_client(bytes@) == Err::<ClientModel, _>(e@),
        },
{
    let tag: u8 = match wire_tag(bytes) {
        Ok(tag) => tag,
        Err(e) => {
            return Err(e);
        },
    };
    if tag == REQUEST_SUBSCRIBE_TAG {
        match SubscriptionRequest::decode(bytes) {
            Ok(request) => Ok(ClientFrame::Subscription(request)),
            Err(e) => Err(e),
        }
    } else if tag == REQUEST_PING_TAG {
        match PingRequest::decode(bytes) {
            Ok(ping) => Ok(ClientFrame::Ping(ping)),
            Err(e) => Err(e),
        }
    } else {
        Err(QlasterError::InvalidMessageTag { found: tag, expected: REQUEST_SUBSCRIBE_TAG })
    }
}

/// What a sender's frame stands for.
pub fn decode_server_frame(bytes: &[u8]) -> (r: Result<ServerFrame, QlasterError>)
    ensures
        decodes_to(r, decode_server(bytes@)),
{
    let tag: u8 = match wire_tag(bytes) {
        Ok(tag) => tag,
        Err(e) => {
            return Err(e);
        },
    };
    if tag == UPDATE_TAG {
        match AccountUpdate::decode(bytes) {
            Ok(update) => Ok(ServerFrame::AccountUpdate(update)),
            Err(e) => Err(e),
        }
    } else if tag == TRANSACTION_UPDATE_TAG {
        match TransactionUpdate::decode(bytes) {
            Ok(update) => Ok(ServerFrame::TransactionUpdate(update)),
            Err(e) => Err(e),
        }
    } else if tag == SLOT_UPDATE_TAG {
        match SlotUpdate::decode(bytes) {
            Ok(update) => Ok(ServerFrame::SlotUpdate(update)),
            Err(e) => Err(e),
        }
    } else if tag == READY_TAG {
        match ConnectionReady::decode(bytes) {
            Ok(ready) => Ok(ServerFrame::ConnectionReady(ready)),
            Err(e) => Err(e),
        }
    } else if tag == READY_SHM_TAG {
        match ConnectionReadyShm::decode(bytes) {
            Ok(ready) => Ok(ServerFrame::ConnectionReadyShm(ready)),
            Err(e) => Err(e),
        }
    } else {
        Err(QlasterError::InvalidMessageTag { found: tag, expected: UPDATE_TAG })
    }
}

/// What a sender's frame stands for. A plain payload keeps the frame's buffer.
pub fn decode_server_frame_owned(bytes: Vec<u8>) -> (r: Result<ServerFrame, QlasterError>)
    ensures
        decodes_to(r, decode_server(bytes@)),
{
    match decode_server_frame_owned_with_meta(bytes) {
        Ok(ServerFrameWithMeta::AccountUpdate { update, meta: _ }) => Ok(
            ServerFrame::AccountUpdate(update),
        ),
        Ok(ServerFrameWithMeta::TransactionUpdate { update, meta: _ }) => Ok(
            ServerFrame::TransactionUpdate(update),
        ),
        Ok(ServerFrameWithMeta::SlotUpdate { update, meta: _ }) => Ok(
            ServerFrame::SlotUpdate(update),
        ),
        Ok(ServerFrameWithMeta::ConnectionReady(ready)) => Ok(ServerFrame::ConnectionReady(ready)),
        Ok(ServerFrameWithMeta::ConnectionReadyShm(ready)) => Ok(
            ServerFrame::ConnectionReadyShm(ready),
        ),
        Err(e) => Err(e),
    }
}

/// What a sender's frame stands for, with the metadata of an update. A plain
/// payload keeps the frame's buffer.
pub fn decode_server_frame_owned_with_meta(bytes: Vec<u8>) -> (r: Result<
    ServerFrameWithMeta,
    QlasterError,
>)
    ensures
        match r {
            Ok(frame) => decode_server(bytes@) == Ok::<_, ErrorModel>(frame@),
            Err(e) => decode_server(bytes@) matches Err(fault) && fault == e@,
        },
{
    let tag: u8 = match wire_tag(bytes.as_slice()) {
        Ok(tag) => tag,
        Err(e) => {
            return Err(e);
        },
    };
    if tag == UPDATE_TAG {
        match AccountUpdate::decode_owned_with_meta(bytes) {
            Ok((update, meta)) => Ok(ServerFrameWithMeta::AccountUpdate { update, meta }),
            Err(e) => Err(e),
        }
    } else if tag == TRANSACTION_UPDATE_TAG {
        match TransactionUpdate::decode_owned_with_meta(bytes) {
            Ok((update, meta)) => Ok(ServerFrameWithMeta::TransactionUpdate { update, meta }),
            Err(e) => Err(e),
        }
    } else if tag == SLOT_UPDATE_TAG {
        match SlotUpdate::decode_owned_with_meta(bytes) {
            Ok((update, meta)) => Ok(ServerFrameWithMeta::SlotUpdate { update, meta }),
            Err(e) => Err(e),
        }
    } else if tag == READY_TAG {
        match ConnectionReady::decode(bytes.as_slice()) {
            Ok(ready) => Ok(ServerFrameWithMeta::ConnectionReady(ready)),
            Err(e) => Err(e),
        }
    } else if tag == READY_SHM_TAG {
        match ConnectionReadyShm::decode(bytes.as_slice()) {
            Ok(ready) => Ok(ServerFrameWithMeta::ConnectionReadyShm(ready)),
            Err(e) => Err(e),
        }
    } else {
        Err(QlasterError::InvalidMessageTag { found: tag, expected: UPDATE_TAG })
    }
}

/// A sender reads from a client's frame what the client put into it.
pub proof fn law_client_frames_are_routed(m: SubscriptionModel, token: SlotToken)
    requires
        m.fits(),
        m.valid(),
        m.token_set(),
        token.slot_index != UNSET_SLOT_INDEX,
    ensures
        decode_client(subscription_frame(m)) == Ok::<_, ErrorModel>(ClientModel::Subscription(m)),
        decode_client(ping_frame(token)) == Ok::<_, ErrorModel>(ClientModel::Ping(token)),
{
    law_subscription_read_back(m);
    law_ping_read_back(token);
}

/// A client reads from a sender's update frame the update and the creation time
/// that the sender put into it.
pub proof fn law_update_frames_are_routed(
    account: AccountModel,
    block: Option<Seq<u8>>,
    transaction: TransactionModel,
    slot: u64,
    created: u64,
)
    requires
        account.valid(),
        block matches Some(b) ==> unblocks_to(b, account.payload.len(), account.payload),
        transaction.valid(),
    ensures
        ({
            let meta = Some(AccountUpdateWireMeta { sender_created_at_unix_nanos: created });
            &&& decode_server(account_frame(account, created, block)) == Ok::<_, ErrorModel>(
                (ServerModel::AccountUpdate(account), meta),
            )
            &&& decode_server(transaction_frame(transaction, created)) == Ok::<_, ErrorModel>(
                (ServerModel::TransactionUpdate(transaction), meta),
            )
            &&& decode_server(slot_frame(slot, created)) == Ok::<_, ErrorModel>(
                (ServerModel::SlotUpdate(SlotUpdate { slot }), meta),
            )
        }),
{
    law_account_frame_read_back(account, created, block);
    law_transaction_frame_read_back(transaction, created);
    law_slot_frame_read_back(slot, created);
}

/// A client reads from a sender's reply what the sender put into it.
pub proof fn law_reply_frames_are_routed(token: SlotToken, m: ReadyShmModel)
    requires
        token.slot_index != UNSET_SLOT_INDEX,
        m.complete(),
        encode_utf8(m.ring_path).len() <= WINCODE_LIST_BYTES,
    ensures
        decode_server(ready_frame(token)) == Ok::<_, ErrorModel>(
            (ServerModel::ConnectionReady(token), None::<AccountUpdateWireMeta>),
        ),
        decode_server(ready_shm_frame(m)) == Ok::<_, ErrorModel>(
            (ServerModel::ConnectionReadyShm(m), None::<AccountUpdateWireMeta>),
        ),
{
    law_ready_read_back(token);
    law_ready_shm_read_back(m);
}

/// No frame of another version is read, on either side.
pub proof fn law_other_versions_are_refused(b: Seq<u8>)
    requires
        b.len() >= 1,
        b[0] != WIRE_VERSION,
    ensures
        decode_client(b) is Err,
        decode_server(b) is Err,
{
}

/// Only client frames are read as such, and only sender frames: no byte
/// sequence is both.
pub proof fn law_directions_do_not_mix(b: Seq<u8>)
    ensures
        decode_client(b) is Err || decode_server(b) is Err,
{
}

} // verus!
