//! What stands where in the frames of the protocol, and which frames are read.

use crate::error::{ErrorModel, QlasterError};
use crate::le::{le_u32, le_u32_at, le_u64, le_u64_at, lemma_u32_read_back, lemma_u64_read_back};
use crate::lz4::{lz4_block, lz4_unblock};
use crate::schema::{shm_ready_fault, subscription_fault, token_fault};
use crate::types::account::{
    account_frame, account_parts, account_payload, attempted_block, attempts_lz4, decode_account,
    decoded_account_view, encodes_account, gain_suffices, law_account_frame_read_back, wire_form,
    AccountHead, AccountModel, AccountUpdate, AccountUpdateWireMeta, MAX_ACCOUNT_PAYLOAD_BYTES,
};
use crate::types::control::{
    decode_ping, decode_ready, decode_ready_shm, decode_subscription, law_ready_shm_read_back,
    law_subscription_read_back, ping_frame, ready_frame, ready_shm_frame, subscription_frame,
    ConnectionReady, ConnectionReadyShm, PingRequest, ReadyShmModel, SlotToken, SubscriptionModel,
    SubscriptionRequest,
};
use crate::types::frame::{
    decode_client, decode_server, decodes_to, ClientFrame, ClientModel, ServerFrame,
    ServerFrameWithMeta, ServerModel,
};
use crate::types::header::{wire_error, UNSET_SLOT_INDEX};
use crate::types::slot::{decode_slot, decoded_slot_view, law_slot_frame_read_back, slot_frame, SlotUpdate};
use crate::types::transaction::{
    decode_transaction, decoded_transaction_view, law_transaction_frame_read_back,
    transaction_frame, transaction_header, TransactionModel, TransactionUpdate,
    MAX_TRANSACTION_PAYLOAD_BYTES,
};
use crate::types::update::Update;
use vstd::prelude::*;
use vstd::string::*;
use vstd::utf8::{decode_utf8, encode_utf8, valid_utf8};

verus! {

/// A frame is judged by its version first, which must be nine, and then by its tag.
pub proof fn law_version_before_tag(version: u8, tag: u8, expected: u8)
    ensures
        version != 9 ==> wire_error(version, tag, expected) == Some(
            ErrorModel::InvalidWireVersion { found: version, expected: 9 },
        ),
        version == 9 && tag != expected ==> wire_error(version, tag, expected) == Some(
            ErrorModel::InvalidMessageTag { found: tag, expected },
        ),
        version == 9 && tag == expected ==> wire_error(version, tag, expected) is None,
        UNSET_SLOT_INDEX == 255,
{
}

/// What stands where in the frame of a slot: version 9, tag 7, the time, the slot.
pub proof fn law_slot_frame_layout(slot: u64, created: u64)
    ensures
        ({
            let f = slot_frame(slot, created);
            &&& f.len() == 18
            &&& f[0] == 9
            &&& f[1] == 7
            &&& le_u64_at(f, 2) == created
            &&& le_u64_at(f, 10) == slot
        }),
{
    law_slot_frame_read_back(slot, created);
}

/// A slot is read from every frame of 18 bytes with version 9 and tag 7, and from no
/// other; each other frame is refused for the first thing that is wrong with it.
pub proof fn law_slot_frames_that_are_read(b: Seq<u8>)
    ensures
        b.len() == 18 && b[0] == 9 && b[1] == 7 ==> decode_slot(b) == Ok::<_, ErrorModel>(
            (
                SlotUpdate { slot: le_u64_at(b, 10) },
                AccountUpdateWireMeta { sender_created_at_unix_nanos: le_u64_at(b, 2) },
            ),
        ),
        decode_slot(b) is Ok ==> b.len() == 18 && b[0] == 9 && b[1] == 7,
        b.len() < 18 ==> decode_slot(b) == Err::<(SlotUpdate, AccountUpdateWireMeta), _>(
            ErrorModel::MalformedPayload("slot update frame shorter than fixed header"@),
        ),
        b.len() >= 18 && b[0] != 9 ==> decode_slot(b) == Err::<
            (SlotUpdate, AccountUpdateWireMeta),
            _,
        >(ErrorModel::InvalidWireVersion { found: b[0], expected: 9 }),
        b.len() >= 18 && b[0] == 9 && b[1] != 7 ==> decode_slot(b) == Err::<
            (SlotUpdate, AccountUpdateWireMeta),
            _,
        >(ErrorModel::InvalidMessageTag { found: b[1], expected: 7 }),
        b.len() > 18 && b[0] == 9 && b[1] == 7 ==> decode_slot(b) == Err::<
            (SlotUpdate, AccountUpdateWireMeta),
            _,
        >(ErrorModel::MalformedPayload("slot update payload size mismatch"@)),
{
}

/// What stands where in the frame of a transaction: version 9, tag 6, the time, the
/// slot, the index, the vote flag, the signature, the payload's length, the payload.
pub proof fn law_transaction_frame_layout(m: TransactionModel, created: u64)
    requires
        m.signature.len() == 64,
        m.payload.len() <= 10 * 1024 * 1024,
    ensures
        ({
            let f = transaction_frame(m, created);
            &&& f.len() == 91 + m.payload.len()
            &&& f[0] == 9
            &&& f[1] == 6
            &&& le_u64_at(f, 2) == created
            &&& le_u64_at(f, 10) == m.slot
            &&& le_u32_at(f, 18) == m.index
            &&& f[22] == if m.is_vote { 1u8 } else { 0u8 }
            &&& f.subrange(23, 87) == m.signature
            &&& le_u32_at(f, 87) == m.payload.len()
            &&& f.skip(91) == m.payload
            &&& decode_transaction(f) == Ok::<_, ErrorModel>(
                (m, AccountUpdateWireMeta { sender_created_at_unix_nanos: created }),
            )
        }),
{
    law_transaction_frame_read_back(m, created);
    let f = transaction_frame(m, created);
    assert(f[0] == 9 && f[1] == 6);
    assert(f[22] == if m.is_vote { 1u8 } else { 0u8 });
}

/// A transaction is read from every frame of version 9 and tag 6 whose vote flag is
/// zero or one and whose payload has the length that is said, up to 10 MiB; and from
/// no other, each of which is refused for the first thing that is wrong with it.
pub proof fn law_transaction_frames_that_are_read(b: Seq<u8>)
    ensures
        ({
            let n = le_u32_at(b, 87);
            let headed = b.len() >= 91 && b[0] == 9 && b[1] == 6;
            let read = headed && b[22] <= 1 && n <= 10 * 1024 * 1024 && b.len() == 91 + n;
            &&& read ==> decode_transaction(b) == Ok::<_, ErrorModel>(
                (
                    TransactionModel {
                        slot: le_u64_at(b, 10),
                        index: le_u32_at(b, 18),
                        signature: b.subrange(23, 87),
                        is_vote: b[22] == 1,
                        payload: b.skip(91),
                    },
                    AccountUpdateWireMeta { sender_created_at_unix_nanos: le_u64_at(b, 2) },
                ),
            )
            &&& !read ==> decode_transaction(b) is Err
            &&& b.len() < 91 ==> decode_transaction(b)->Err_0 == ErrorModel::MalformedPayload(
                "transaction update frame shorter than fixed header"@,
            )
            &&& b.len() >= 91 && b[0] != 9 ==> decode_transaction(b)->Err_0
                == (ErrorModel::InvalidWireVersion { found: b[0], expected: 9 })
            &&& b.len() >= 91 && b[0] == 9 && b[1] != 6 ==> decode_transaction(b)->Err_0
                == (ErrorModel::InvalidMessageTag { found: b[1], expected: 6 })
            &&& headed && b[22] > 1 ==> decode_transaction(b)->Err_0
                == ErrorModel::MalformedPayload("transaction update vote flag must be 0 or 1"@)
            &&& headed && b[22] <= 1 && n > 10 * 1024 * 1024 ==> decode_transaction(b)->Err_0
                == (ErrorModel::PayloadTooLarge { found: n as nat, max: 10 * 1024 * 1024 })
            &&& headed && b[22] <= 1 && n <= 10 * 1024 * 1024 && b.len() != 91 + n
                ==> decode_transaction(b)->Err_0 == ErrorModel::MalformedPayload(
                "transaction update payload size mismatch"@,
            )
        }),
{
}

/// What stands where in the frame of an account: version 9, tag 2, the time, the key,
/// the owner, the lamports, the executable flag, the rent epoch, the slot, the write
/// version, the compression flag, the payload's length, its length on the wire, and
/// the payload as it is or, where its block is shorter, the block.
#[verifier::rlimit(40)]
pub proof fn law_account_frame_layout(m: AccountModel, created: u64, block: Option<Seq<u8>>)
    requires
        m.account_pubkey.len() == 32,
        m.account_owner.len() == 32,
        m.payload.len() <= 10 * 1024 * 1024,
        block matches Some(b) ==> lz4_unblock(b, m.payload.len()) == Ok::<_, Seq<char>>(m.payload),
    ensures
        ({
            let f = account_frame(m, created, block);
            let packed = block is Some && block->0.len() < m.payload.len();
            let wire = if packed {
                block->0
            } else {
                m.payload
            };
            &&& f.len() == 116 + wire.len()
            &&& f[0] == 9
            &&& f[1] == 2
            &&& le_u64_at(f, 2) == created
            &&& f.subrange(10, 42) == m.account_pubkey
            &&& f.subrange(42, 74) == m.account_owner
            &&& le_u64_at(f, 74) == m.lamports
            &&& f[82] == if m.executable { 1u8 } else { 0u8 }
            &&& le_u64_at(f, 83) == m.rent_epoch
            &&& le_u64_at(f, 91) == m.slot
            &&& le_u64_at(f, 99) == m.write_version
            &&& f[107] == if packed { 1u8 } else { 0u8 }
            &&& le_u32_at(f, 108) == m.payload.len()
            &&& le_u32_at(f, 112) == wire.len()
            &&& f.skip(116) == wire
            &&& decode_account(f) == Ok::<_, ErrorModel>(
                (m, AccountUpdateWireMeta { sender_created_at_unix_nanos: created }),
            )
        }),
{
    law_account_frame_read_back(m, created, block);
    let f = account_frame(m, created, block);
    let (flags, wire) = wire_form(m.payload, block);
    assert(f.subrange(108, 112) =~= le_u32(m.payload.len() as u32));
    assert(f.subrange(112, 116) =~= le_u32(wire.len() as u32));
    lemma_u32_read_back(f, 108, m.payload.len() as u32);
    lemma_u32_read_back(f, 112, wire.len() as u32);
    assert(f.subrange(2, 10) =~= le_u64(created));
    lemma_u64_read_back(f, 2, created);
    assert(f[82] == if m.executable { 1u8 } else { 0u8 });
    assert(f[107] == flags);
    assert(f.skip(116) =~= wire);
}

/// An account is read from every frame of version 9 and tag 2 with flags of zero or
/// one, a payload of at most 10 MiB, and as many bytes on the wire as are said, if a
/// plain payload has the length that is said and a block gives as many bytes; and
/// from no other, each of which is refused for the first thing that is wrong with it.
pub proof fn law_account_frames_that_are_read(b: Seq<u8>)
    ensures
        ({
            let raw = le_u32_at(b, 108);
            let headed = b.len() >= 116 && b[0] == 9 && b[1] == 2;
            let flagged = headed && b[82] <= 1 && b[107] <= 1;
            let whole = flagged && raw <= 10 * 1024 * 1024 && b.len() == 116 + le_u32_at(b, 112);
            let plain = whole && b[107] == 0 && b.len() == 116 + raw;
            let unpacked = lz4_unblock(b.skip(116), raw as nat);
            let packed = whole && b[107] == 1 && (unpacked matches Ok(p) && p.len() == raw);
            &&& plain || packed ==> decode_account(b) == Ok::<_, ErrorModel>(
                (
                    AccountModel {
                        account_pubkey: b.subrange(10, 42),
                        account_owner: b.subrange(42, 74),
                        lamports: le_u64_at(b, 74),
                        executable: b[82] == 1,
                        rent_epoch: le_u64_at(b, 83),
                        slot: le_u64_at(b, 91),
                        write_version: le_u64_at(b, 99),
                        payload: if b[107] == 0 {
                            b.skip(116)
                        } else {
                            unpacked->Ok_0
                        },
                    },
                    AccountUpdateWireMeta { sender_created_at_unix_nanos: le_u64_at(b, 2) },
                ),
            )
            &&& !plain && !packed ==> decode_account(b) is Err
            &&& b.len() < 116 ==> decode_account(b)->Err_0 == ErrorModel::MalformedPayload(
                "account update frame shorter than fixed header"@,
            )
            &&& b.len() >= 116 && b[0] != 9 ==> decode_account(b)->Err_0
                == (ErrorModel::InvalidWireVersion { found: b[0], expected: 9 })
            &&& b.len() >= 116 && b[0] == 9 && b[1] != 2 ==> decode_account(b)->Err_0
                == (ErrorModel::InvalidMessageTag { found: b[1], expected: 2 })
            &&& headed && b[82] > 1 ==> decode_account(b)->Err_0 == ErrorModel::MalformedPayload(
                "account update executable flag must be 0 or 1"@,
            )
            &&& headed && b[82] <= 1 && b[107] > 1 ==> decode_account(b)->Err_0
                == ErrorModel::MalformedPayload(
                "account update has unsupported compression flags"@,
            )
            &&& flagged && raw > 10 * 1024 * 1024 ==> decode_account(b)->Err_0
                == (ErrorModel::PayloadTooLarge { found: raw as nat, max: 10 * 1024 * 1024 })
            &&& flagged && raw <= 10 * 1024 * 1024 && b.len() != 116 + le_u32_at(b, 112)
                ==> decode_account(b)->Err_0 == ErrorModel::MalformedPayload(
                "account update payload size mismatch"@,
            )
            &&& whole && b[107] == 0 && b.len() != 116 + raw ==> decode_account(b)->Err_0
                == ErrorModel::MalformedPayload(
                "account update uncompressed payload size mismatch"@,
            )
            &&& whole && b[107] == 1 && unpacked is Err ==> decode_account(b)->Err_0
                == ErrorModel::DecodeError("account update decompress: "@ + unpacked->Err_0)
            &&& whole && b[107] == 1 && (unpacked matches Ok(p) && p.len() != raw)
                ==> decode_account(b)->Err_0 == ErrorModel::MalformedPayload(
                "account update decompressed payload size mismatch"@,
            )
        }),
{
}

/// A payload is compressed where it has 500 KiB or more and its first 8 KiB get
/// shorter by three quarters of a percent at least, and goes out so where all of it
/// got shorter; otherwise it goes out as it is.
pub proof fn law_when_payloads_are_compressed(payload: Seq<u8>)
    ensures
        ({
            let sample = lz4_block(payload.take(8192)).len() as int;
            let pays = payload.len() >= 512_000 && sample < 8192 && (8192 - sample) * 10_000 / 8192
                >= 75;
            &&& attempts_lz4(payload) == pays
            &&& attempted_block(payload) == (if pays {
                Some(lz4_block(payload))
            } else {
                None
            })
            &&& wire_form(payload, attempted_block(payload)) == (if pays && lz4_block(payload).len()
                < payload.len() {
                (1u8, lz4_block(payload))
            } else {
                (0u8, payload)
            })
        }),
{
}

/// What stands where in the frames of pings and of replies to them: version 9, tag 4
/// or 3, the slot, the number.
pub proof fn law_token_frame_layouts(token: SlotToken)
    ensures
        ({
            let (f, g) = (ping_frame(token), ready_frame(token));
            &&& f.len() == 11
            &&& g.len() == 11
            &&& f[0] == 9 && f[1] == 4 && f[2] == token.slot_index
            &&& g[0] == 9 && g[1] == 3 && g[2] == token.slot_index
            &&& le_u64_at(f, 3) == token.generation
            &&& le_u64_at(g, 3) == token.generation
        }),
{
    let (f, g) = (ping_frame(token), ready_frame(token));
    assert(f.subrange(3, 11) =~= le_u64(token.generation));
    assert(g.subrange(3, 11) =~= le_u64(token.generation));
    lemma_u64_read_back(f, 3, token.generation);
    lemma_u64_read_back(g, 3, token.generation);
}

/// A token is read from every frame of 11 bytes or more with version 9, its tag, and
/// a slot other than 255; each other frame is refused for the first thing that is
/// wrong with it.
pub proof fn law_token_frames_that_are_read(b: Seq<u8>)
    ensures
        b.len() < 11 ==> {
            &&& decode_ping(b) == Err::<SlotToken, _>(
                ErrorModel::DecodeError("ping request: "@ + token_fault(b)),
            )
            &&& decode_ready(b) == Err::<SlotToken, _>(
                ErrorModel::DecodeError("connection ready: "@ + token_fault(b)),
            )
        },
        b.len() >= 11 && b[0] != 9 ==> {
            let fault = ErrorModel::InvalidWireVersion { found: b[0], expected: 9 };
            decode_ping(b) == Err::<SlotToken, _>(fault) && decode_ready(b) == Err::<SlotToken, _>(
                fault,
            )
        },
        b.len() >= 11 && b[0] == 9 && b[1] != 4 ==> decode_ping(b) == Err::<SlotToken, _>(
            ErrorModel::InvalidMessageTag { found: b[1], expected: 4 },
        ),
        b.len() >= 11 && b[0] == 9 && b[1] != 3 ==> decode_ready(b) == Err::<SlotToken, _>(
            ErrorModel::InvalidMessageTag { found: b[1], expected: 3 },
        ),
        b.len() >= 11 && b[0] == 9 && b[1] == 4 ==> decode_ping(b) == (if b[2] == 255 {
            Err(ErrorModel::MalformedPayload("ping request missing slot token"@))
        } else {
            Ok(SlotToken { slot_index: b[2], generation: le_u64_at(b, 3) })
        }),
        b.len() >= 11 && b[0] == 9 && b[1] == 3 ==> decode_ready(b) == (if b[2] == 255 {
            Err(ErrorModel::MalformedPayload("connection ready missing slot token"@))
        } else {
            Ok(SlotToken { slot_index: b[2], generation: le_u64_at(b, 3) })
        }),
{
}

/// What stands where in the handshake: version 9, tag 5, the slot, the number, the
/// length of the path, the path, the capacity.
pub proof fn law_handshake_layout(m: ReadyShmModel)
    requires
        encode_utf8(m.ring_path).len() <= 4 * 1024 * 1024,
    ensures
        ({
            let f = ready_shm_frame(m);
            let n = encode_utf8(m.ring_path).len() as int;
            &&& f.len() == 27 + n
            &&& f[0] == 9 && f[1] == 5 && f[2] == m.slot_token.slot_index
            &&& le_u64_at(f, 3) == m.slot_token.generation
            &&& le_u64_at(f, 11) == n
            &&& f.subrange(19, 19 + n) == encode_utf8(m.ring_path)
            &&& le_u64_at(f, 19 + n) == m.ring_capacity
            &&& m.slot_token.slot_index != 255 && m.ring_path.len() > 0 && m.ring_capacity > 0
                ==> decode_ready_shm(f) == Ok::<_, ErrorModel>(m)
        }),
{
    let f = ready_shm_frame(m);
    let n = encode_utf8(m.ring_path).len() as int;
    assert(f.subrange(3, 11) =~= le_u64(m.slot_token.generation));
    assert(f.subrange(11, 19) =~= le_u64(n as u64));
    assert(f.subrange(19, 19 + n) =~= encode_utf8(m.ring_path));
    assert(f.subrange(19 + n, 27 + n) =~= le_u64(m.ring_capacity));
    lemma_u64_read_back(f, 3, m.slot_token.generation);
    lemma_u64_read_back(f, 11, n as u64);
    lemma_u64_read_back(f, 19 + n, m.ring_capacity);
    if m.slot_token.slot_index != 255 && m.ring_path.len() > 0 && m.ring_capacity > 0 {
        law_ready_shm_read_back(m);
    }
}

/// A handshake is read where its fields are all there, the path is text of at most
/// 4 MiB, the version is 9, the tag 5, the slot not 255, the path not empty and the
/// capacity not zero; each other frame is refused for the first of these.
pub proof fn law_handshakes_that_are_read(b: Seq<u8>)
    ensures
        ({
            let n = le_u64_at(b, 11) as int;
            let there = b.len() >= 19 && n <= 4 * 1024 * 1024 && b.len() >= 27 + n && valid_utf8(
                b.subrange(19, 19 + n),
            );
            let path = decode_utf8(b.subrange(19, 19 + n));
            let capacity = le_u64_at(b, 19 + n);
            &&& !there ==> decode_ready_shm(b) == Err::<ReadyShmModel, _>(
                ErrorModel::DecodeError("connection ready shm: "@ + shm_ready_fault(b)),
            )
            &&& there ==> decode_ready_shm(b) == (if b[0] != 9 {
                Err(ErrorModel::InvalidWireVersion { found: b[0], expected: 9 })
            } else if b[1] != 5 {
                Err(ErrorModel::InvalidMessageTag { found: b[1], expected: 5 })
            } else if b[2] == 255 {
                Err(ErrorModel::MalformedPayload("connection ready shm missing slot token"@))
            } else if path.len() == 0 {
                Err(ErrorModel::MalformedPayload("connection ready shm missing ring path"@))
            } else if capacity == 0 {
                Err(ErrorModel::MalformedPayload("connection ready shm has zero ring capacity"@))
            } else {
                Ok(
                    ReadyShmModel {
                        slot_token: SlotToken { slot_index: b[2], generation: le_u64_at(b, 3) },
                        ring_path: path,
                        ring_capacity: capacity,
                    },
                )
            })
        }),
{
}

/// A request of keys of 32 bytes, up to 131072 of either kind, is read as what it is,
/// unless its token has the slot 255. Its frame has version 9 and tag 1, the slot or
/// 255, the number or zero, the keys and the owners behind their numbers, and whether
/// transactions are asked for.
pub proof fn law_requests_are_read_as_they_are(m: SubscriptionModel)
    requires
        m.account_pubkeys.len() <= 131072,
        m.account_owners.len() <= 131072,
        forall|k: int|
            0 <= k < m.account_pubkeys.len() ==> (#[trigger] m.account_pubkeys[k]).len() == 32,
        forall|k: int|
            0 <= k < m.account_owners.len() ==> (#[trigger] m.account_owners[k]).len() == 32,
        m.slot_token matches Some(token) ==> token.slot_index != 255,
    ensures
        decode_subscription(subscription_frame(m)) == Ok::<_, ErrorModel>(m),
        decode_client(subscription_frame(m)) == Ok::<_, ErrorModel>(ClientModel::Subscription(m)),
        subscription_frame(m)[0] == 9,
        subscription_frame(m)[1] == 1,
        subscription_frame(m)[2] == (match m.slot_token {
            Some(token) => token.slot_index,
            None => 255u8,
        }),
        subscription_frame(m).last() == if m.include_transactions { 1u8 } else { 0u8 },
{
    law_subscription_read_back(m);
}

/// A request is read where its fields are all there, with at most 131072 keys of
/// either kind and a flag of zero or one, the version is 9 and the tag 1. The slot 255
/// stands for no token.
pub proof fn law_requests_that_are_read(b: Seq<u8>, k: int)
    ensures
        ({
            let n = le_u64_at(b, 11) as int;
            let p = 19 + 32 * n;
            let o = le_u64_at(b, p) as int;
            let q = p + 8 + 32 * o;
            let there = b.len() >= 19 && n <= 131072 && b.len() >= p + 8 && o <= 131072 && b.len()
                >= q + 1 && b[q] <= 1;
            &&& !there ==> decode_subscription(b) == Err::<SubscriptionModel, _>(
                ErrorModel::DecodeError("subscription request: "@ + subscription_fault(b)),
            )
            &&& there && b[0] != 9 ==> decode_subscription(b) == Err::<SubscriptionModel, _>(
                ErrorModel::InvalidWireVersion { found: b[0], expected: 9 },
            )
            &&& there && b[0] == 9 && b[1] != 1 ==> decode_subscription(b) == Err::<
                SubscriptionModel,
                _,
            >(ErrorModel::InvalidMessageTag { found: b[1], expected: 1 })
            &&& there && b[0] == 9 && b[1] == 1 ==> (decode_subscription(b) matches Ok(m) && {
                &&& m.slot_token == (if b[2] == 255 {
                    None
                } else {
                    Some(SlotToken { slot_index: b[2], generation: le_u64_at(b, 3) })
                })
                &&& m.account_pubkeys.len() == n
                &&& m.account_owners.len() == o
                &&& 0 <= k < n ==> m.account_pubkeys[k] == b.subrange(19 + 32 * k, 51 + 32 * k)
                &&& 0 <= k < o ==> m.account_owners[k] == b.subrange(
                    p + 8 + 32 * k,
                    p + 40 + 32 * k,
                )
                &&& m.include_transactions == (b[q] == 1)
            })
        }),
{
}

/// A client's frame is read by its tag: 1 is a subscription, 4 a ping, and there is
/// no other.
pub proof fn law_client_tags(b: Seq<u8>)
    ensures
        b.len() < 2 ==> decode_client(b) == Err::<ClientModel, _>(
            ErrorModel::MalformedPayload("frame too short for wire tag"@),
        ),
        b.len() >= 2 && b[1] == 1 ==> decode_client(b) == (match decode_subscription(b) {
            Ok(m) => Ok(ClientModel::Subscription(m)),
            Err(e) => Err(e),
        }),
        b.len() >= 2 && b[1] == 4 ==> decode_client(b) == (match decode_ping(b) {
            Ok(token) => Ok(ClientModel::Ping(token)),
            Err(e) => Err(e),
        }),
        b.len() >= 2 && b[1] != 1 && b[1] != 4 ==> decode_client(b) == Err::<ClientModel, _>(
            ErrorModel::InvalidMessageTag { found: b[1], expected: 1 },
        ),
{
}

/// A sender's frame is read by its tag: 2 is an account, 6 a transaction, 7 a slot, 3
/// a token, 5 a handshake, and there is no other. Updates come with the time at which
/// they were made, replies without.
pub proof fn law_sender_tags(b: Seq<u8>)
    ensures
        b.len() < 2 ==> decode_server(b) == Err::<(ServerModel, Option<AccountUpdateWireMeta>), _>(
            ErrorModel::MalformedPayload("frame too short for wire tag"@),
        ),
        b.len() >= 2 && b[1] == 2 ==> decode_server(b) == (match decode_account(b) {
            Ok((m, meta)) => Ok((ServerModel::AccountUpdate(m), Some(meta))),
            Err(e) => Err(e),
        }),
        b.len() >= 2 && b[1] == 6 ==> decode_server(b) == (match decode_transaction(b) {
            Ok((m, meta)) => Ok((ServerModel::TransactionUpdate(m), Some(meta))),
            Err(e) => Err(e),
        }),
        b.len() >= 2 && b[1] == 7 ==> decode_server(b) == (match decode_slot(b) {
            Ok((m, meta)) => Ok((ServerModel::SlotUpdate(m), Some(meta))),
            Err(e) => Err(e),
        }),
        b.len() >= 2 && b[1] == 3 ==> decode_server(b) == (match decode_ready(b) {
            Ok(token) => Ok(
                (ServerModel::ConnectionReady(token), None::<AccountUpdateWireMeta>),
            ),
            Err(e) => Err(e),
        }),
        b.len() >= 2 && b[1] == 5 ==> decode_server(b) == (match decode_ready_shm(b) {
            Ok(m) => Ok((ServerModel::ConnectionReadyShm(m), None::<AccountUpdateWireMeta>)),
            Err(e) => Err(e),
        }),
        b.len() >= 2 && b[1] != 2 && b[1] != 3 && b[1] != 5 && b[1] != 6 && b[1] != 7
            ==> decode_server(b) == Err::<(ServerModel, Option<AccountUpdateWireMeta>), _>(
            ErrorModel::InvalidMessageTag { found: b[1], expected: 2 },
        ),
{
}

/// The values of the library stand for their own fields.
pub proof fn law_values_stand_for_their_fields(
    account: AccountUpdate,
    transaction: TransactionUpdate,
    slot: SlotUpdate,
    ready: ConnectionReadyShm,
    request: SubscriptionRequest,
    k: int,
)
    ensures
        account@.account_pubkey == account.account_pubkey@,
        account@.account_owner == account.account_owner@,
        account@.lamports == account.lamports,
        account@.executable == account.executable,
        account@.rent_epoch == account.rent_epoch,
        account@.slot == account.slot,
        account@.write_version == account.write_version,
        account@.payload == account.payload@,
        transaction@.slot == transaction.slot,
        transaction@.index == transaction.index,
        transaction@.signature == transaction.signature@,
        transaction@.is_vote == transaction.is_vote,
        transaction@.payload == transaction.payload@,
        ready@.slot_token == ready.slot_token,
        ready@.ring_path == ready.ring_path@,
        ready@.ring_capacity == ready.ring_capacity,
        request@.slot_token == request.slot_token,
        request@.include_transactions == request.include_transactions,
        request@.account_pubkeys.len() == request.account_pubkeys@.len(),
        request@.account_owners.len() == request.account_owners@.len(),
        0 <= k < request.account_pubkeys@.len() ==> request@.account_pubkeys[k]
            == request.account_pubkeys@[k]@,
        0 <= k < request.account_owners@.len() ==> request@.account_owners[k]
            == request.account_owners@[k]@,
        Update::Account(account)@ == ServerModel::AccountUpdate(account@),
        Update::Transaction(transaction)@ == ServerModel::TransactionUpdate(transaction@),
        Update::Slot(slot)@ == ServerModel::SlotUpdate(slot),
{
}

/// Frames that were read stand for what they hold, and nothing that was read or
/// refused is told otherwise than it was.
pub proof fn law_frames_stand_for_what_they_hold(
    account: AccountUpdate,
    transaction: TransactionUpdate,
    slot: SlotUpdate,
    ready: ConnectionReady,
    handshake: ConnectionReadyShm,
    request: SubscriptionRequest,
    ping: PingRequest,
    meta: AccountUpdateWireMeta,
    frame: ServerFrame,
    e: QlasterError,
    expected: Result<(ServerModel, Option<AccountUpdateWireMeta>), ErrorModel>,
)
    ensures
        ClientFrame::Subscription(request)@ == ClientModel::Subscription(request@),
        ClientFrame::Ping(ping)@ == ClientModel::Ping(ping.slot_token),
        ServerFrame::AccountUpdate(account)@ == ServerModel::AccountUpdate(account@),
        ServerFrame::TransactionUpdate(transaction)@ == ServerModel::TransactionUpdate(
            transaction@,
        ),
        ServerFrame::SlotUpdate(slot)@ == ServerModel::SlotUpdate(slot),
        ServerFrame::ConnectionReady(ready)@ == ServerModel::ConnectionReady(ready.slot_token),
        ServerFrame::ConnectionReadyShm(handshake)@ == ServerModel::ConnectionReadyShm(handshake@),
        (ServerFrameWithMeta::AccountUpdate { update: account, meta })@ == (
            ServerModel::AccountUpdate(account@),
            Some(meta),
        ),
        (ServerFrameWithMeta::TransactionUpdate { update: transaction, meta })@ == (
            ServerModel::TransactionUpdate(transaction@),
            Some(meta),
        ),
        (ServerFrameWithMeta::SlotUpdate { update: slot, meta })@ == (
            ServerModel::SlotUpdate(slot),
            Some(meta),
        ),
        ServerFrameWithMeta::ConnectionReady(ready)@ == (
            ServerModel::ConnectionReady(ready.slot_token),
            None::<AccountUpdateWireMeta>,
        ),
        ServerFrameWithMeta::ConnectionReadyShm(handshake)@ == (
            ServerModel::ConnectionReadyShm(handshake@),
            None::<AccountUpdateWireMeta>,
        ),
        decodes_to(Ok(frame), expected) == (expected is Ok && expected->Ok_0.0 == frame@),
        decodes_to(Err(e), expected) == (expected == Err::<
            (ServerModel, Option<AccountUpdateWireMeta>),
            _,
        >(e@)),
        decoded_account_view(Ok((account, meta))) == Ok::<_, ErrorModel>((account@, meta)),
        decoded_account_view(Err(e)) == Err::<(AccountModel, AccountUpdateWireMeta), _>(e@),
        decoded_transaction_view(Ok((transaction, meta))) == Ok::<_, ErrorModel>(
            (transaction@, meta),
        ),
        decoded_transaction_view(Err(e)) == Err::<(TransactionModel, AccountUpdateWireMeta), _>(
            e@,
        ),
        decoded_slot_view(Ok((slot, meta))) == Ok::<_, ErrorModel>((slot, meta)),
        decoded_slot_view(Err(e)) == Err::<(SlotUpdate, AccountUpdateWireMeta), _>(e@),
{
}

/// The limits of the protocol: payloads of up to 10 MiB.
pub proof fn law_limits_of_payloads()
    ensures
        MAX_ACCOUNT_PAYLOAD_BYTES == 10_485_760,
        MAX_TRANSACTION_PAYLOAD_BYTES == 10_485_760,
{
}

/// The two pieces of a frame make the frame: a header of fixed size, and behind it
/// what goes out of the payload.
pub proof fn law_pieces_make_the_frame(
    m: AccountModel,
    t: TransactionModel,
    created: u64,
    block: Option<Seq<u8>>,
    header: Seq<u8>,
    payload: Seq<u8>,
)
    requires
        m.account_pubkey.len() == 32,
        m.account_owner.len() == 32,
        t.signature.len() == 64,
    ensures
        account_parts(m, created, block).0 + account_parts(m, created, block).1 == account_frame(
            m,
            created,
            block,
        ),
        account_parts(m, created, block).0.len() == 116,
        account_parts(m, created, block).1 == (if block is Some && block->0.len()
            < m.payload.len() {
            block->0
        } else {
            m.payload
        }),
        encodes_account(header, payload, m, created) ==> {
            &&& header.len() == 116
            &&& header + payload == account_frame(m, created, attempted_block(m.payload))
            &&& decode_account(header + payload) == Ok::<_, ErrorModel>(
                (m, AccountUpdateWireMeta { sender_created_at_unix_nanos: created }),
            )
        },
        transaction_header(t, created).len() == 91,
        transaction_header(t, created) + t.payload == transaction_frame(t, created),
{
}

/// Compressing a sample pays where it got shorter by 75 of 10000 parts at least.
pub proof fn law_what_a_gain_is(sample_len: nat, compressed_len: nat)
    requires
        sample_len > 0,
    ensures
        gain_suffices(sample_len, compressed_len) == (compressed_len < sample_len && (sample_len
            - compressed_len) * 10_000 >= 75 * sample_len),
{
    let saved = (sample_len - compressed_len) * 10_000;
    let n = sample_len as int;
    if compressed_len < sample_len {
        lemma_quotient_reaches(saved, n);
    }
}

/// A quotient reaches 75 exactly where the dividend reaches 75 times the divisor.
proof fn lemma_quotient_reaches(saved: int, n: int)
    by (nonlinear_arith)
    requires
        n > 0,
        saved >= 0,
    ensures
        (saved / n >= 75) == (saved >= 75 * n),
{
}

/// A payload that came compressed is what its block gives, if that has the length that
/// is said; one that came plain is itself, if it has that length. What the block would
/// give does not matter for a plain one, nor the bytes on the wire for the other.
pub proof fn law_payloads_have_the_said_length(
    head: AccountHead,
    wire: Seq<u8>,
    unpacked: Result<Seq<u8>, Seq<char>>,
)
    ensures
        account_payload(head, wire, unpacked) matches Ok(p) ==> p.len() == head.raw_payload_len,
        head.compressed && unpacked is Err ==> account_payload(head, wire, unpacked) == Err::<
            Seq<u8>,
            _,
        >(ErrorModel::DecodeError("account update decompress: "@ + unpacked->Err_0)),
        head.compressed && (unpacked matches Ok(p) && p.len() == head.raw_payload_len)
            ==> account_payload(head, wire, unpacked) == Ok::<_, ErrorModel>(unpacked->Ok_0),
        head.compressed && (unpacked matches Ok(p) && p.len() != head.raw_payload_len)
            ==> account_payload(head, wire, unpacked) == Err::<Seq<u8>, _>(
            ErrorModel::MalformedPayload("account update decompressed payload size mismatch"@),
        ),
        !head.compressed && wire.len() == head.raw_payload_len ==> account_payload(
            head,
            wire,
            unpacked,
        ) == Ok::<_, ErrorModel>(wire),
        !head.compressed && wire.len() != head.raw_payload_len ==> account_payload(
            head,
            wire,
            unpacked,
        ) == Err::<Seq<u8>, _>(
            ErrorModel::MalformedPayload("account update uncompressed payload size mismatch"@),
        ),
{
}

} // verus!
