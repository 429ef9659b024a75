//! Account updates and their binary frames.

use crate::buffer::{
    bytes_as_slice, bytes_copy, bytes_from_vec, bytes_len, bytes_slice, bytes_view,
};
use crate::clock::is_unix_nanos;
use crate::error::{ErrorModel, QlasterError};
use crate::le::{
    le_u32, le_u32_at, le_u64, le_u64_at, lemma_u32_read_back, lemma_u64_read_back, put_u32_le,
    put_u64_le,
};
use crate::lz4::{lz4_block, lz4_compress, lz4_decompress, lz4_unblock, outcome_view, unblocks_to};
use crate::metrics::unix_time_nanos;
use crate::pubkey::{lemma_pubkey_len, Pubkey};
use crate::types::header::{
    ensure_wire, put_bytes, take_array_32, take_u32_le, take_u64_le, take_u8, wire_error,
    UPDATE_TAG, WIRE_VERSION,
};
use bytes::Bytes;
use vstd::prelude::*;
use vstd::string::*;

verus! {

/// The most bytes that an account's data can have.
pub const MAX_ACCOUNT_PAYLOAD_BYTES: usize = 10 * 1024 * 1024;

/// The flag of a frame whose payload is an LZ4 block.
pub const ACCOUNT_UPDATE_FLAG_LZ4: u8 = 1;

/// Payloads below this size are sent as they are.
pub const ACCOUNT_UPDATE_COMPRESSION_THRESHOLD_BYTES: usize = 500 * 1024;

/// How much of a payload is compressed on trial.
pub const ACCOUNT_UPDATE_COMPRESSION_SAMPLE_BYTES: usize = 8 * 1024;

/// What the trial has to save, in hundredths of a percent.
pub const ACCOUNT_UPDATE_COMPRESSION_MIN_GAIN_BPS: usize = 75;

/// The size of a frame without its payload.
pub const ACCOUNT_UPDATE_FIXED_BYTES: usize = 116;

/// Whether compressing a sample of `sample_len` bytes into `compressed_len`
/// saves enough.
pub open spec fn gain_suffices(sample_len: nat, compressed_len: nat) -> bool {
    &&& compressed_len < sample_len
    &&& (sample_len - compressed_len) * 10_000 / (sample_len as int)
        >= ACCOUNT_UPDATE_COMPRESSION_MIN_GAIN_BPS
}

/// Whether the payload is compressed in full: it has the size for it, and its
/// first bytes compress well.
pub open spec fn attempts_lz4(payload: Seq<u8>) -> bool {
    &&& payload.len() >= ACCOUNT_UPDATE_COMPRESSION_THRESHOLD_BYTES
    &&& gain_suffices(
        ACCOUNT_UPDATE_COMPRESSION_SAMPLE_BYTES as nat,
        lz4_block(payload.take(ACCOUNT_UPDATE_COMPRESSION_SAMPLE_BYTES as int)).len(),
    )
}

/// Whether compressing a sample of `sample_len` bytes into `compressed_len`
/// saves enough.
pub fn lz4_gain_suffices(sample_len: usize, compressed_len: usize) -> (r: bool)
    requires
        sample_len <= ACCOUNT_UPDATE_COMPRESSION_SAMPLE_BYTES,
    ensures
        r == gain_suffices(sample_len as nat, compressed_len as nat),
{
    if compressed_len >= sample_len {
        return false;
    }
    let gain_bps: usize = ((sample_len - compressed_len) * 10_000) / sample_len;
    gain_bps >= ACCOUNT_UPDATE_COMPRESSION_MIN_GAIN_BPS
}

/// Whether the payload is worth compressing in full.
pub fn should_attempt_lz4(payload: &[u8]) -> (r: bool)
    ensures
        r == attempts_lz4(payload@),
{
    if payload.len() < ACCOUNT_UPDATE_COMPRESSION_THRESHOLD_BYTES {
        return false;
    }
    let sample = vstd::slice::slice_subrange(payload, 0, ACCOUNT_UPDATE_COMPRESSION_SAMPLE_BYTES);
    let compressed_sample = lz4_compress(sample);
    lz4_gain_suffices(ACCOUNT_UPDATE_COMPRESSION_SAMPLE_BYTES, compressed_sample.len())
}

/// The data of an account, at most [`MAX_ACCOUNT_PAYLOAD_BYTES`] of it.
#[derive(Debug, PartialEq, Eq)]
pub struct AccountPayload(Bytes);

impl View for AccountPayload {
    type V = Seq<u8>;

    closed spec fn view(&self) -> Seq<u8> {
        bytes_view(self.0)
    }
}

impl Clone for AccountPayload {
    fn clone(&self) -> (r: AccountPayload)
        ensures
            r@ == self@,
    {
        proof {
            use_type_invariant(self);
        }
        AccountPayload(self.0.clone())
    }
}

impl AccountPayload {
    #[verifier::type_invariant]
    closed spec fn inv(self) -> bool {
        bytes_view(self.0).len() <= MAX_ACCOUNT_PAYLOAD_BYTES
    }

    /// The payload with the given bytes, unless there are too many.
    pub fn new(payload: Bytes) -> (r: Result<AccountPayload, QlasterError>)
        ensures
            match r {
                Ok(p) => bytes_view(payload).len() <= MAX_ACCOUNT_PAYLOAD_BYTES && p@ == bytes_view(
                    payload,
                ),
                Err(e) => bytes_view(payload).len() > MAX_ACCOUNT_PAYLOAD_BYTES && e@
                    == (ErrorModel::PayloadTooLarge {
                    found: bytes_view(payload).len(),
                    max: MAX_ACCOUNT_PAYLOAD_BYTES as nat,
                }),
            },
    {
        let len: usize = bytes_len(&payload);
        if len > MAX_ACCOUNT_PAYLOAD_BYTES {
            return Err(
                QlasterError::PayloadTooLarge { found: len, max: MAX_ACCOUNT_PAYLOAD_BYTES },
            );
        }
        Ok(AccountPayload(payload))
    }

    /// The payload with a copy of the given bytes, unless there are too many.
    pub fn from_slice(payload: &[u8]) -> (r: Result<AccountPayload, QlasterError>)
        ensures
            match r {
                Ok(p) => payload@.len() <= MAX_ACCOUNT_PAYLOAD_BYTES && p@ == payload@,
                Err(e) => payload@.len() > MAX_ACCOUNT_PAYLOAD_BYTES && e@
                    == (ErrorModel::PayloadTooLarge {
                    found: payload@.len(),
                    max: MAX_ACCOUNT_PAYLOAD_BYTES as nat,
                }),
            },
    {
        AccountPayload::new(bytes_copy(payload))
    }

    /// The payload with the given bytes, unless there are too many.
    pub fn from_bytes(payload: Bytes) -> (r: Result<AccountPayload, QlasterError>)
        ensures
            match r {
                Ok(p) => bytes_view(payload).len() <= MAX_ACCOUNT_PAYLOAD_BYTES && p@ == bytes_view(
                    payload,
                ),
                Err(e) => bytes_view(payload).len() > MAX_ACCOUNT_PAYLOAD_BYTES && e@
                    == (ErrorModel::PayloadTooLarge {
                    found: bytes_view(payload).len(),
                    max: MAX_ACCOUNT_PAYLOAD_BYTES as nat,
                }),
            },
    {
        AccountPayload::new(payload)
    }

    /// The bytes.
    pub fn as_slice(&self) -> (s: &[u8])
        ensures
            s@ == self@,
            s@.len() <= MAX_ACCOUNT_PAYLOAD_BYTES,
    {
        proof {
            use_type_invariant(self);
        }
        bytes_as_slice(&self.0)
    }

    /// How many bytes there are.
    pub fn len(&self) -> (n: usize)
        ensures
            n == self@.len(),
            n <= MAX_ACCOUNT_PAYLOAD_BYTES,
    {
        proof {
            use_type_invariant(self);
        }
        bytes_len(&self.0)
    }

    /// Whether there are none.
    pub fn is_empty(&self) -> (r: bool)
        ensures
            r == (self@.len() == 0),
    {
        bytes_len(&self.0) == 0
    }

    /// The buffer itself.
    pub fn into_bytes(self) -> (b: Bytes)
        ensures
            bytes_view(b) == self@,
    {
        self.0
    }

    /// Another handle on the buffer.
    pub fn clone_bytes(&self) -> (b: Bytes)
        ensures
            bytes_view(b) == self@,
    {
        self.0.clone()
    }
}

impl TryFrom<Bytes> for AccountPayload {
    type Error = QlasterError;

    fn try_from(value: Bytes) -> (r: Result<AccountPayload, QlasterError>)
        ensures
            match r {
                Ok(p) => bytes_view(value).len() <= MAX_ACCOUNT_PAYLOAD_BYTES && p@ == bytes_view(
                    value,
                ),
                Err(e) => bytes_view(value).len() > MAX_ACCOUNT_PAYLOAD_BYTES && e@
                    == (ErrorModel::PayloadTooLarge {
                    found: bytes_view(value).len(),
                    max: MAX_ACCOUNT_PAYLOAD_BYTES as nat,
                }),
            },
    {
        let len: usize = bytes_len(&value);
        if len > MAX_ACCOUNT_PAYLOAD_BYTES {
            return Err(
                QlasterError::PayloadTooLarge { found: len, max: MAX_ACCOUNT_PAYLOAD_BYTES },
            );
        }
        Ok(AccountPayload(value))
    }
}

impl vstd::std_specs::convert::TryFromSpecImpl<Bytes> for AccountPayload {
    open spec fn obeys_try_from_spec() -> bool {
        true
    }

    closed spec fn try_from_spec(value: Bytes) -> Result<AccountPayload, QlasterError> {
        if bytes_view(value).len() > MAX_ACCOUNT_PAYLOAD_BYTES {
            Err(
                QlasterError::PayloadTooLarge {
                    found: bytes_view(value).len() as usize,
                    max: MAX_ACCOUNT_PAYLOAD_BYTES,
                },
            )
        } else {
            Ok(AccountPayload(value))
        }
    }
}

impl AsRef<[u8]> for AccountPayload {
    fn as_ref(&self) -> (s: &[u8])
        ensures
            s@ == self@,
    {
        self.as_slice()
    }
}

/// The state of one account after a write.
#[derive(Debug, PartialEq, Eq)]
pub struct AccountUpdate {
    pub account_pubkey: Pubkey,
    pub account_owner: Pubkey,
    pub lamports: u64,
    pub executable: bool,
    pub rent_epoch: u64,
    pub slot: u64,
    pub write_version: u64,
    pub payload: AccountPayload,
}

/// An [`AccountUpdate`] with its keys and its payload as byte sequences.
pub struct AccountModel {
    pub account_pubkey: Seq<u8>,
    pub account_owner: Seq<u8>,
    pub lamports: u64,
    pub executable: bool,
    pub rent_epoch: u64,
    pub slot: u64,
    pub write_version: u64,
    pub payload: Seq<u8>,
}

impl AccountModel {
    /// Keys and payload have the sizes that those of an update have.
    pub open spec fn valid(self) -> bool {
        &&& self.account_pubkey.len() == 32
        &&& self.account_owner.len() == 32
        &&& self.payload.len() <= MAX_ACCOUNT_PAYLOAD_BYTES
    }
}

impl View for AccountUpdate {
    type V = AccountModel;

    open spec fn view(&self) -> AccountModel {
        AccountModel {
            account_pubkey: self.account_pubkey@,
            account_owner: self.account_owner@,
            lamports: self.lamports,
            executable: self.executable,
            rent_epoch: self.rent_epoch,
            slot: self.slot,
            write_version: self.write_version,
            payload: self.payload@,
        }
    }
}

impl Clone for AccountUpdate {
    fn clone(&self) -> (r: AccountUpdate)
        ensures
            r@ == self@,
    {
        AccountUpdate {
            account_pubkey: self.account_pubkey,
            account_owner: self.account_owner,
            lamports: self.lamports,
            executable: self.executable,
            rent_epoch: self.rent_epoch,
            slot: self.slot,
            write_version: self.write_version,
            payload: self.payload.clone(),
        }
    }
}

/// What a frame carries besides the update.
#[derive(Clone, Copy, Debug, PartialEq, Eq)]
pub struct AccountUpdateWireMeta {
    pub sender_created_at_unix_nanos: u64,
}

/// The fixed part of a frame.
pub open spec fn account_header(
    m: AccountModel,
    sender_created_at_unix_nanos: u64,
    flags: u8,
    wire_payload_len: nat,
) -> Seq<u8> {
    seq![WIRE_VERSION, UPDATE_TAG] + le_u64(sender_created_at_unix_nanos) + m.account_pubkey
        + m.account_owner + le_u64(m.lamports) + seq![if m.executable { 1u8 } else { 0u8 }]
        + le_u64(m.rent_epoch) + le_u64(m.slot) + le_u64(m.write_version) + seq![flags] + le_u32(
        m.payload.len() as u32,
    ) + le_u32(wire_payload_len as u32)
}

/// The flags and the payload bytes of a frame, given what compressing the
/// payload came to, where it was tried: the block goes out if it is shorter.
pub open spec fn wire_form(payload: Seq<u8>, block: Option<Seq<u8>>) -> (u8, Seq<u8>) {
    match block {
        Some(b) => if b.len() < payload.len() {
            (ACCOUNT_UPDATE_FLAG_LZ4, b)
        } else {
            (0u8, payload)
        },
        None => (0u8, payload),
    }
}

/// What compressing the payload comes to, where it is tried.
pub open spec fn attempted_block(payload: Seq<u8>) -> Option<Seq<u8>> {
    if attempts_lz4(payload) {
        Some(lz4_block(payload))
    } else {
        None
    }
}

/// The header and the payload bytes of the frame for `m`.
pub open spec fn account_parts(
    m: AccountModel,
    sender_created_at_unix_nanos: u64,
    block: Option<Seq<u8>>,
) -> (Seq<u8>, Seq<u8>) {
    let (flags, wire_payload) = wire_form(m.payload, block);
    (account_header(m, sender_created_at_unix_nanos, flags, wire_payload.len()), wire_payload)
}

/// The whole frame for `m`.
pub open spec fn account_frame(
    m: AccountModel,
    sender_created_at_unix_nanos: u64,
    block: Option<Seq<u8>>,
) -> Seq<u8> {
    let (header, wire_payload) = account_parts(m, sender_created_at_unix_nanos, block);
    header + wire_payload
}

/// The fixed part of a frame, taken apart.
pub struct AccountHead {
    pub sender_created_at_unix_nanos: u64,
    pub account_pubkey: Seq<u8>,
    pub account_owner: Seq<u8>,
    pub lamports: u64,
    pub executable: bool,
    pub rent_epoch: u64,
    pub slot: u64,
    pub write_version: u64,
    pub compressed: bool,
    pub raw_payload_len: nat,
    pub wire_payload_len: nat,
}

/// The fixed part of a frame, or what is wrong with it. The first of several
/// faults is the one that is reported.
pub open spec fn account_head(b: Seq<u8>) -> Result<AccountHead, ErrorModel> {
    if b.len() < ACCOUNT_UPDATE_FIXED_BYTES {
        Err(ErrorModel::MalformedPayload("account update frame shorter than fixed header"@))
    } else if wire_error(b[0], b[1], UPDATE_TAG) is Some {
        Err(wire_error(b[0], b[1], UPDATE_TAG)->0)
    } else if b[82] > 1 {
        Err(ErrorModel::MalformedPayload("account update executable flag must be 0 or 1"@))
    } else if b[107] > 1 {
        Err(ErrorModel::MalformedPayload("account update has unsupported compression flags"@))
    } else if le_u32_at(b, 108) > MAX_ACCOUNT_PAYLOAD_BYTES {
        Err(
            ErrorModel::PayloadTooLarge {
                found: le_u32_at(b, 108) as nat,
                max: MAX_ACCOUNT_PAYLOAD_BYTES as nat,
            },
        )
    } else if b.len() != ACCOUNT_UPDATE_FIXED_BYTES + le_u32_at(b, 112) {
        Err(ErrorModel::MalformedPayload("account update payload size mismatch"@))
    } else {
        Ok(
            AccountHead {
                sender_created_at_unix_nanos: le_u64_at(b, 2),
                account_pubkey: b.subrange(10, 42),
                account_owner: b.subrange(42, 74),
                lamports: le_u64_at(b, 74),
                executable: b[82] == 1,
                rent_epoch: le_u64_at(b, 83),
                slot: le_u64_at(b, 91),
                write_version: le_u64_at(b, 99),
                compressed: b[107] == 1,
                raw_payload_len: le_u32_at(b, 108) as nat,
                wire_payload_len: le_u32_at(b, 112) as nat,
            },
        )
    }
}

/// The payload of a frame whose fixed part is `head` and whose payload bytes
/// are `wire_payload`, given what decompressing those came to.
pub open spec fn account_payload(
    head: AccountHead,
    wire_payload: Seq<u8>,
    unblocked: Result<Seq<u8>, Seq<char>>,
) -> Result<Seq<u8>, ErrorModel> {
    if head.compressed {
        match unblocked {
            Err(words) => Err(ErrorModel::DecodeError("account update decompress: "@ + words)),
            Ok(payload) => if payload.len() != head.raw_payload_len {
                Err(
                    ErrorModel::MalformedPayload(
                        "account update decompressed payload size mismatch"@,
                    ),
                )
            } else {
                Ok(payload)
            },
        }
    } else if wire_payload.len() != head.raw_payload_len {
        Err(ErrorModel::MalformedPayload("account update uncompressed payload size mismatch"@))
    } else {
        Ok(wire_payload)
    }
}

/// The update and the metadata that a frame stands for, or what is wrong with it.
pub open spec fn decode_account(b: Seq<u8>) -> Result<
    (AccountModel, AccountUpdateWireMeta),
    ErrorModel,
> {
    match account_head(b) {
        Err(e) => Err(e),
        Ok(head) => {
            let wire_payload = b.skip(ACCOUNT_UPDATE_FIXED_BYTES as int);
            match account_payload(
                head,
                wire_payload,
                lz4_unblock(wire_payload, head.raw_payload_len),
            ) {
                Err(e) => Err(e),
                Ok(payload) => Ok(
                    (
                        AccountModel {
                            account_pubkey: head.account_pubkey,
                            account_owner: head.account_owner,
                            lamports: head.lamports,
                            executable: head.executable,
                            rent_epoch: head.rent_epoch,
                            slot: head.slot,
                            write_version: head.write_version,
                            payload,
                        },
                        AccountUpdateWireMeta {
                            sender_created_at_unix_nanos: head.sender_created_at_unix_nanos,
                        },
                    ),
                ),
            }
        },
    }
}

/// The header and the payload bytes are those of the frame for `m` created at
/// that time, and put together they decode to `m` and that time.
pub open spec fn encodes_account(
    header: Seq<u8>,
    payload: Seq<u8>,
    m: AccountModel,
    sender_created_at_unix_nanos: u64,
) -> bool {
    &&& (header, payload) == account_parts(
        m,
        sender_created_at_unix_nanos,
        attempted_block(m.payload),
    )
    &&& decode_account(header + payload) == Ok::<_, ErrorModel>(
        (m, AccountUpdateWireMeta { sender_created_at_unix_nanos }),
    )
}

/// A decoded update and its metadata, or an error, as a model.
pub open spec fn decoded_account_view(
    r: Result<(AccountUpdate, AccountUpdateWireMeta), QlasterError>,
) -> Result<(AccountModel, AccountUpdateWireMeta), ErrorModel> {
    match r {
        Ok((update, meta)) => Ok((update@, meta)),
        Err(e) => Err(e@),
    }
}

/// A frame is decoded to the update and the creation time that it was encoded
/// from, whether or not its payload was compressed, if compressed payloads
/// decompress to what they were.
pub proof fn law_account_frame_read_back(
    m: AccountModel,
    sender_created_at_unix_nanos: u64,
    block: Option<Seq<u8>>,
)
    requires
        m.valid(),
        block matches Some(b) ==> unblocks_to(b, m.payload.len(), m.payload),
    ensures
        decode_account(account_frame(m, sender_created_at_unix_nanos, block)) == Ok::<
            _,
            ErrorModel,
        >((m, AccountUpdateWireMeta { sender_created_at_unix_nanos })),
{
    let (flags, wire_payload) = wire_form(m.payload, block);
    let ts = sender_created_at_unix_nanos;
    let f = account_frame(m, ts, block);
    let executable = if m.executable { 1u8 } else { 0u8 };
    lemma_account_layout(
        seq![WIRE_VERSION, UPDATE_TAG],
        le_u64(ts),
        m.account_pubkey,
        m.account_owner,
        le_u64(m.lamports),
        seq![executable],
        le_u64(m.rent_epoch),
        le_u64(m.slot),
        le_u64(m.write_version),
        seq![flags],
        le_u32(m.payload.len() as u32),
        le_u32(wire_payload.len() as u32),
        wire_payload,
    );
    assert(f[0] == f.subrange(0, 2)[0] && f[1] == f.subrange(0, 2)[1]);
    assert(f[82] == f.subrange(82, 83)[0]);
    assert(f[107] == f.subrange(107, 108)[0]);
    lemma_u64_read_back(f, 2, ts);
    lemma_u64_read_back(f, 74, m.lamports);
    lemma_u64_read_back(f, 83, m.rent_epoch);
    lemma_u64_read_back(f, 91, m.slot);
    lemma_u64_read_back(f, 99, m.write_version);
    lemma_u32_read_back(f, 108, m.payload.len() as u32);
    lemma_u32_read_back(f, 112, wire_payload.len() as u32);
}

/// A payload goes out compressed only if it is large, its first bytes compress
/// well, and the whole got shorter; otherwise it goes out as it is.
pub proof fn law_compressed_only_where_it_pays(payload: Seq<u8>)
    ensures
        ({
            let (flags, wire_payload) = wire_form(payload, attempted_block(payload));
            &&& flags == 0 || flags == ACCOUNT_UPDATE_FLAG_LZ4
            &&& flags == 0 ==> wire_payload == payload
            &&& flags == ACCOUNT_UPDATE_FLAG_LZ4 ==> {
                &&& payload.len() >= ACCOUNT_UPDATE_COMPRESSION_THRESHOLD_BYTES
                &&& attempts_lz4(payload)
                &&& wire_payload == lz4_block(payload)
                &&& wire_payload.len() < payload.len()
            }
        }),
{
}

/// A header has its fixed size, and no payload grows on the wire.
proof fn lemma_account_parts_len(
    m: AccountModel,
    sender_created_at_unix_nanos: u64,
    block: Option<Seq<u8>>,
)
    requires
        m.valid(),
    ensures
        ({
            let (header, wire_payload) = account_parts(m, sender_created_at_unix_nanos, block);
            &&& header.len() == ACCOUNT_UPDATE_FIXED_BYTES
            &&& wire_payload.len() <= m.payload.len()
        }),
{
}

/// Where the fields stand in a frame.
proof fn lemma_account_layout(
    version_and_tag: Seq<u8>,
    created: Seq<u8>,
    pubkey: Seq<u8>,
    owner: Seq<u8>,
    lamports: Seq<u8>,
    executable: Seq<u8>,
    rent_epoch: Seq<u8>,
    slot: Seq<u8>,
    write_version: Seq<u8>,
    flags: Seq<u8>,
    raw_len: Seq<u8>,
    wire_len: Seq<u8>,
    payload: Seq<u8>,
)
    requires
        version_and_tag.len() == 2,
        created.len() == 8,
        pubkey.len() == 32,
        owner.len() == 32,
        lamports.len() == 8,
        executable.len() == 1,
        rent_epoch.len() == 8,
        slot.len() == 8,
        write_version.len() == 8,
        flags.len() == 1,
        raw_len.len() == 4,
        wire_len.len() == 4,
    ensures
        ({
            let f = version_and_tag + created + pubkey + owner + lamports + executable + rent_epoch
                + slot + write_version + flags + raw_len + wire_len + payload;
            &&& f.len() == 116 + payload.len()
            &&& f.subrange(0, 2) == version_and_tag
            &&& f.subrange(2, 10) == created
            &&& f.subrange(10, 42) == pubkey
            &&& f.subrange(42, 74) == owner
            &&& f.subrange(74, 82) == lamports
            &&& f.subrange(82, 83) == executable
            &&& f.subrange(83, 91) == rent_epoch
            &&& f.subrange(91, 99) == slot
            &&& f.subrange(99, 107) == write_version
            &&& f.subrange(107, 108) == flags
            &&& f.subrange(108, 112) == raw_len
            &&& f.subrange(112, 116) == wire_len
            &&& f.skip(116) == payload
        }),
{
    let f = version_and_tag + created + pubkey + owner + lamports + executable + rent_epoch + slot
        + write_version + flags + raw_len + wire_len + payload;
    assert(f.subrange(0, 2) =~= version_and_tag);
    assert(f.subrange(2, 10) =~= created);
    assert(f.subrange(10, 42) =~= pubkey);
    assert(f.subrange(42, 74) =~= owner);
    assert(f.subrange(74, 82) =~= lamports);
    assert(f.subrange(82, 83) =~= executable);
    assert(f.subrange(83, 91) =~= rent_epoch);
    assert(f.subrange(91, 99) =~= slot);
    assert(f.subrange(99, 107) =~= write_version);
    assert(f.subrange(107, 108) =~= flags);
    assert(f.subrange(108, 112) =~= raw_len);
    assert(f.subrange(112, 116) =~= wire_len);
    assert(f.skip(116) =~= payload);
}

/// The fixed part of a frame, taken apart, and where its payload bytes stand.
#[derive(Clone, Copy, Debug)]
pub struct DecodedAccountUpdate {
    pub sender_created_at_unix_nanos: u64,
    pub account_pubkey: [u8; 32],
    pub account_owner: [u8; 32],
    pub lamports: u64,
    pub executable: bool,
    pub rent_epoch: u64,
    pub slot: u64,
    pub write_version: u64,
    pub compressed: bool,
    pub raw_payload_len: usize,
    pub payload_offset: usize,
    pub wire_payload_len: usize,
}

impl View for DecodedAccountUpdate {
    type V = AccountHead;

    open spec fn view(&self) -> AccountHead {
        AccountHead {
            sender_created_at_unix_nanos: self.sender_created_at_unix_nanos,
            account_pubkey: self.account_pubkey@,
            account_owner: self.account_owner@,
            lamports: self.lamports,
            executable: self.executable,
            rent_epoch: self.rent_epoch,
            slot: self.slot,
            write_version: self.write_version,
            compressed: self.compressed,
            raw_payload_len: self.raw_payload_len as nat,
            wire_payload_len: self.wire_payload_len as nat,
        }
    }
}

/// Only the flag of LZ4 is known.
proof fn lemma_known_flags(flags: u8)
    ensures
        (flags & !ACCOUNT_UPDATE_FLAG_LZ4 != 0) == (flags > 1),
        (flags & ACCOUNT_UPDATE_FLAG_LZ4 != 0) == (flags % 2 == 1),
{
    assert((flags & !1u8 != 0) == (flags > 1)) by (bit_vector);
    assert((flags & 1u8 != 0) == (flags % 2 == 1)) by (bit_vector);
}

impl DecodedAccountUpdate {
    /// Takes the fixed part of a frame apart.
    pub fn parse(bytes: &[u8]) -> (r: Result<DecodedAccountUpdate, QlasterError>)
        ensures
            match r {
                Ok(decoded) => {
                    &&& account_head(bytes@) == Ok::<_, ErrorModel>(decoded@)
                    &&& decoded.payload_offset == ACCOUNT_UPDATE_FIXED_BYTES
                    &&& decoded.payload_offset + decoded.wire_payload_len == bytes@.len()
                    &&& decoded.wire_payload_len <= u32::MAX
                    &&& decoded.raw_payload_len <= MAX_ACCOUNT_PAYLOAD_BYTES
                },
                Err(e) => account_head(bytes@) == Err::<AccountHead, _>(e@),
            },
    {
        if bytes.len() < ACCOUNT_UPDATE_FIXED_BYTES {
            return Err(
                QlasterError::MalformedPayload("account update frame shorter than fixed header"),
            );
        }
        match ensure_wire(bytes[0], bytes[1], UPDATE_TAG) {
            Ok(_) => {},
            Err(e) => {
                return Err(e);
            },
        }
        let mut cursor: usize = 2;
        let sender_created_at_unix_nanos: u64 = take_u64_le(bytes, &mut cursor)?;
        let account_pubkey = take_array_32(bytes, &mut cursor)?;
        let account_owner = take_array_32(bytes, &mut cursor)?;
        let lamports: u64 = take_u64_le(bytes, &mut cursor)?;
        let executable_flag: u8 = take_u8(bytes, &mut cursor)?;
        if executable_flag > 1 {
            return Err(
                QlasterError::MalformedPayload("account update executable flag must be 0 or 1"),
            );
        }
        let rent_epoch: u64 = take_u64_le(bytes, &mut cursor)?;
        let slot: u64 = take_u64_le(bytes, &mut cursor)?;
        let write_version: u64 = take_u64_le(bytes, &mut cursor)?;
        let flags: u8 = take_u8(bytes, &mut cursor)?;
        proof {
            lemma_known_flags(flags);
        }
        if flags & !ACCOUNT_UPDATE_FLAG_LZ4 != 0 {
            return Err(
                QlasterError::MalformedPayload("account update has unsupported compression flags"),
            );
        }
        let raw_payload_len: usize = take_u32_le(bytes, &mut cursor)? as usize;
        if raw_payload_len > MAX_ACCOUNT_PAYLOAD_BYTES {
            return Err(
                QlasterError::PayloadTooLarge {
                    found: raw_payload_len,
                    max: MAX_ACCOUNT_PAYLOAD_BYTES,
                },
            );
        }
        let wire_payload_len: usize = take_u32_le(bytes, &mut cursor)? as usize;
        if bytes.len() - cursor != wire_payload_len {
            return Err(QlasterError::MalformedPayload("account update payload size mismatch"));
        }
        Ok(
            DecodedAccountUpdate {
                sender_created_at_unix_nanos,
                account_pubkey,
                account_owner,
                lamports,
                executable: executable_flag == 1,
                rent_epoch,
                slot,
                write_version,
                compressed: flags & ACCOUNT_UPDATE_FLAG_LZ4 != 0,
                raw_payload_len,
                payload_offset: cursor,
                wire_payload_len,
            },
        )
    }

    /// The payload of a compressed frame, given what decompressing came to.
    pub fn accept_decompressed(&self, outcome: Result<Vec<u8>, String>) -> (r: Result<
        Bytes,
        QlasterError,
    >)
        requires
            self.compressed,
        ensures
            forall|wire_payload: Seq<u8>|
                match r {
                    Ok(payload) => #[trigger] account_payload(
                        self@,
                        wire_payload,
                        outcome_view(outcome),
                    ) == Ok::<_, ErrorModel>(bytes_view(payload)),
                    Err(e) => account_payload(self@, wire_payload, outcome_view(outcome)) == Err::<
                        Seq<u8>,
                        _,
                    >(e@),
                },
    {
        match outcome {
            Err(words) => Err(
                QlasterError::DecodeError(
                    String::from_str("account update decompress: ").concat(words.as_str()),
                ),
            ),
            Ok(payload) => if payload.len() != self.raw_payload_len {
                Err(
                    QlasterError::MalformedPayload(
                        "account update decompressed payload size mismatch",
                    ),
                )
            } else {
                Ok(bytes_from_vec(payload))
            },
        }
    }

    /// Whether the payload bytes of a plain frame are as many as it says.
    pub fn check_plain(&self) -> (r: Result<(), QlasterError>)
        requires
            !self.compressed,
        ensures
            forall|wire_payload: Seq<u8>, unblocked: Result<Seq<u8>, Seq<char>>|
                wire_payload.len() == self.wire_payload_len ==> match r {
                    Ok(_) => #[trigger] account_payload(self@, wire_payload, unblocked) == Ok::<
                        _,
                        ErrorModel,
                    >(wire_payload),
                    Err(e) => account_payload(self@, wire_payload, unblocked) == Err::<Seq<u8>, _>(
                        e@,
                    ),
                },
    {
        if self.wire_payload_len != self.raw_payload_len {
            return Err(
                QlasterError::MalformedPayload("account update uncompressed payload size mismatch"),
            );
        }
        Ok(())
    }
}

impl AccountUpdate {
    /// An update in slot 0 with write version 0, unless the payload is too large.
    pub fn new(
        account_pubkey: Pubkey,
        account_owner: Pubkey,
        lamports: u64,
        executable: bool,
        rent_epoch: u64,
        payload: Bytes,
    ) -> (r: Result<AccountUpdate, QlasterError>)
        ensures
            match r {
                Ok(update) => {
                    &&& bytes_view(payload).len() <= MAX_ACCOUNT_PAYLOAD_BYTES
                    &&& update@ == (AccountModel {
                        account_pubkey: account_pubkey@,
                        account_owner: account_owner@,
                        lamports,
                        executable,
                        rent_epoch,
                        slot: 0,
                        write_version: 0,
                        payload: bytes_view(payload),
                    })
                },
                Err(e) => {
                    &&& bytes_view(payload).len() > MAX_ACCOUNT_PAYLOAD_BYTES
                    &&& e@ == (ErrorModel::PayloadTooLarge {
                        found: bytes_view(payload).len(),
                        max: MAX_ACCOUNT_PAYLOAD_BYTES as nat,
                    })
                },
            },
    {
        match AccountPayload::new(payload) {
            Ok(payload) => Ok(
                AccountUpdate {
                    account_pubkey,
                    account_owner,
                    lamports,
                    executable,
                    rent_epoch,
                    slot: 0,
                    write_version: 0,
                    payload,
                },
            ),
            Err(e) => Err(e),
        }
    }

    /// The same update in another slot and with another write version.
    pub fn with_slot_write_version(self, slot: u64, write_version: u64) -> (r: AccountUpdate)
        ensures
            r@ == (AccountModel { slot, write_version, ..self@ }),
    {
        AccountUpdate { slot, write_version, ..self }
    }

    /// The header and the payload bytes of the frame for this update, given
    /// what compressing its payload came to, where it was tried.
    pub fn encode_parts_with(
        &self,
        sender_created_at_unix_nanos: u64,
        block: Option<Vec<u8>>,
    ) -> (parts: (Bytes, Bytes))
        ensures
            ({
                let block_view = match block {
                    Some(b) => Some(b@),
                    None => None,
                };
                (bytes_view(parts.0), bytes_view(parts.1)) == account_parts(
                    self@,
                    sender_created_at_unix_nanos,
                    block_view,
                )
            }),
    {
        let raw_payload_len: usize = self.payload.len();
        let mut flags: u8 = 0;
        let mut wire_payload = self.payload.clone_bytes();
        if let Some(compressed) = block {
            if compressed.len() < raw_payload_len {
                flags = ACCOUNT_UPDATE_FLAG_LZ4;
                wire_payload = bytes_from_vec(compressed);
            }
        }
        let wire_payload_len: usize = bytes_len(&wire_payload);
        let mut header: Vec<u8> = Vec::with_capacity(ACCOUNT_UPDATE_FIXED_BYTES);
        header.push(WIRE_VERSION);
        header.push(UPDATE_TAG);
        assert(header@ =~= seq![WIRE_VERSION, UPDATE_TAG]);
        put_u64_le(&mut header, sender_created_at_unix_nanos);
        put_bytes(&mut header, self.account_pubkey.as_slice());
        put_bytes(&mut header, self.account_owner.as_slice());
        put_u64_le(&mut header, self.lamports);
        let executable: u8 = if self.executable {
            1
        } else {
            0
        };
        put_bytes(&mut header, [executable].as_slice());
        put_u64_le(&mut header, self.rent_epoch);
        put_u64_le(&mut header, self.slot);
        put_u64_le(&mut header, self.write_version);
        put_bytes(&mut header, [flags].as_slice());
        put_u32_le(&mut header, raw_payload_len as u32);
        put_u32_le(&mut header, wire_payload_len as u32);
        (bytes_from_vec(header), wire_payload)
    }

    /// The header and the payload bytes of the frame for this update, created
    /// at the given time. Put together they decode to this update and that time.
    pub fn encode_parts_at(&self, sender_created_at_unix_nanos: u64) -> (r: Result<
        (Bytes, Bytes),
        QlasterError,
    >)
        ensures
            r matches Ok((header, payload)) && {
                &&& encodes_account(
                    bytes_view(header),
                    bytes_view(payload),
                    self@,
                    sender_created_at_unix_nanos,
                )
                &&& bytes_view(header).len() == ACCOUNT_UPDATE_FIXED_BYTES
                &&& bytes_view(payload).len() <= MAX_ACCOUNT_PAYLOAD_BYTES
            },
    {
        let payload = self.payload.as_slice();
        let block = if should_attempt_lz4(payload) {
            Some(lz4_compress(payload))
        } else {
            None
        };
        proof {
            lemma_pubkey_len(self.account_pubkey);
            lemma_pubkey_len(self.account_owner);
            let block = attempted_block(self@.payload);
            law_account_frame_read_back(self@, sender_created_at_unix_nanos, block);
            lemma_account_parts_len(self@, sender_created_at_unix_nanos, block);
        }
        Ok(self.encode_parts_with(sender_created_at_unix_nanos, block))
    }

    /// The header and the payload bytes of a frame created now.
    pub fn encode_parts(&self) -> (r: Result<(Bytes, Bytes), QlasterError>)
        ensures
            r matches Ok((header, payload)) && exists|now: u64|
                {
                    &&& is_unix_nanos(now)
                    &&& #[trigger] encodes_account(
                        bytes_view(header),
                        bytes_view(payload),
                        self@,
                        now,
                    )
                },
    {
        self.encode_parts_at(unix_time_nanos())
    }

    /// A whole frame created now.
    pub fn encode(&self) -> (r: Result<Vec<u8>, QlasterError>)
        ensures
            r matches Ok(frame) && exists|now: u64|
                {
                    &&& is_unix_nanos(now)
                    &&& frame@ == #[trigger] account_frame(
                        self@,
                        now,
                        attempted_block(self@.payload),
                    )
                    &&& decode_account(frame@) == Ok::<_, ErrorModel>(
                        (self@, AccountUpdateWireMeta { sender_created_at_unix_nanos: now }),
                    )
                },
    {
        match self.encode_parts() {
            Ok((header, payload)) => {
                let mut out: Vec<u8> = Vec::new();
                put_bytes(&mut out, bytes_as_slice(&header));
                put_bytes(&mut out, bytes_as_slice(&payload));
                proof {
                    let now = choose|now: u64|
                        {
                            &&& is_unix_nanos(now)
                            &&& #[trigger] encodes_account(
                                bytes_view(header),
                                bytes_view(payload),
                                self@,
                                now,
                            )
                        };
                    assert(out@ =~= bytes_view(header) + bytes_view(payload));
                    assert(out@ == account_frame(self@, now, attempted_block(self@.payload)));
                }
                Ok(out)
            },
            Err(e) => Err(e),
        }
    }

    /// The update with the decoded fixed part and the given payload.
    fn from_decoded(decoded: DecodedAccountUpdate, payload: Bytes) -> (r: Result<
        (AccountUpdate, AccountUpdateWireMeta),
        QlasterError,
    >)
        requires
            bytes_view(payload).len() <= MAX_ACCOUNT_PAYLOAD_BYTES,
        ensures
            r matches Ok((update, meta)) && {
                &&& update@ == (AccountModel {
                    account_pubkey: decoded.account_pubkey@,
                    account_owner: decoded.account_owner@,
                    lamports: decoded.lamports,
                    executable: decoded.executable,
                    rent_epoch: decoded.rent_epoch,
                    slot: decoded.slot,
                    write_version: decoded.write_version,
                    payload: bytes_view(payload),
                })
                &&& meta.sender_created_at_unix_nanos == decoded.sender_created_at_unix_nanos
            },
    {
        match AccountPayload::from_bytes(payload) {
            Ok(payload) => Ok(
                (
                    AccountUpdate {
                        account_pubkey: Pubkey::new_from_array(decoded.account_pubkey),
                        account_owner: Pubkey::new_from_array(decoded.account_owner),
                        lamports: decoded.lamports,
                        executable: decoded.executable,
                        rent_epoch: decoded.rent_epoch,
                        slot: decoded.slot,
                        write_version: decoded.write_version,
                        payload,
                    },
                    AccountUpdateWireMeta {
                        sender_created_at_unix_nanos: decoded.sender_created_at_unix_nanos,
                    },
                ),
            ),
            Err(e) => Err(e),
        }
    }

    /// The update and the metadata of a frame. The payload is copied.
    pub fn decode_with_meta(bytes: &[u8]) -> (r: Result<
        (AccountUpdate, AccountUpdateWireMeta),
        QlasterError,
    >)
        ensures
            decoded_account_view(r) == decode_account(bytes@),
    {
        let decoded = match DecodedAccountUpdate::parse(bytes) {
            Ok(decoded) => decoded,
            Err(e) => {
                return Err(e);
            },
        };
        let wire_payload = vstd::slice::slice_subrange(bytes, decoded.payload_offset, bytes.len());
        assert(wire_payload@ =~= bytes@.skip(ACCOUNT_UPDATE_FIXED_BYTES as int));
        let payload = if decoded.compressed {
            let outcome = lz4_decompress(wire_payload, decoded.raw_payload_len);
            match decoded.accept_decompressed(outcome) {
                Ok(payload) => {
                    assert(account_payload(decoded@, wire_payload@, outcome_view(outcome)) is Ok);
                    payload
                },
                Err(e) => {
                    assert(account_payload(decoded@, wire_payload@, outcome_view(outcome)) is Err);
                    return Err(e);
                },
            }
        } else {
            match decoded.check_plain() {
                Ok(_) => bytes_copy(wire_payload),
                Err(e) => {
                    return Err(e);
                },
            }
        };
        AccountUpdate::from_decoded(decoded, payload)
    }

    /// The update of a frame.
    pub fn decode(bytes: &[u8]) -> (r: Result<AccountUpdate, QlasterError>)
        ensures
            match r {
                Ok(update) => decode_account(bytes@) matches Ok((m, _)) && m == update@,
                Err(e) => decode_account(bytes@) matches Err(fault) && fault == e@,
            },
    {
        match AccountUpdate::decode_with_meta(bytes) {
            Ok((update, _)) => Ok(update),
            Err(e) => Err(e),
        }
    }

    /// The update and the metadata of a frame. A plain payload is shared with
    /// the frame's buffer.
    pub fn decode_owned_with_meta(bytes: Vec<u8>) -> (r: Result<
        (AccountUpdate, AccountUpdateWireMeta),
        QlasterError,
    >)
        ensures
            decoded_account_view(r) == decode_account(bytes@),
    {
        let ghost frame = bytes@;
        let buffer = bytes_from_vec(bytes);
        let decoded = match DecodedAccountUpdate::parse(bytes_as_slice(&buffer)) {
            Ok(decoded) => decoded,
            Err(e) => {
                return Err(e);
            },
        };
        let wire_payload = bytes_slice(
            &buffer,
            decoded.payload_offset,
            bytes_len(&buffer),
        );
        assert(bytes_view(wire_payload) =~= frame.skip(ACCOUNT_UPDATE_FIXED_BYTES as int));
        let payload = if decoded.compressed {
            let outcome = lz4_decompress(bytes_as_slice(&wire_payload), decoded.raw_payload_len);
            let ghost wire = bytes_view(wire_payload);
            match decoded.accept_decompressed(outcome) {
                Ok(payload) => {
                    assert(account_payload(decoded@, wire, outcome_view(outcome)) is Ok);
                    payload
                },
                Err(e) => {
                    assert(account_payload(decoded@, wire, outcome_view(outcome)) is Err);
                    return Err(e);
                },
            }
        } else {
            match decoded.check_plain() {
                Ok(_) => wire_payload,
                Err(e) => {
                    return Err(e);
                },
            }
        };
        AccountUpdate::from_decoded(decoded, payload)
    }

    /// The update of a frame.
    pub fn decode_owned(bytes: Vec<u8>) -> (r: Result<AccountUpdate, QlasterError>)
        ensures
            match r {
                Ok(update) => decode_account(bytes@) matches Ok((m, _)) && m == update@,
                Err(e) => decode_account(bytes@) matches Err(fault) && fault == e@,
            },
    {
        match AccountUpdate::decode_owned_with_meta(bytes) {
            Ok((update, _)) => Ok(update),
            Err(e) => Err(e),
        }
    }
}

/// A buffer of up to 10 MiB is a payload with its bytes; a longer one is refused with
/// its length and the limit.
pub proof fn law_account_payloads_are_bounded(value: Bytes, len: usize)
    requires
        len == bytes_view(value).len(),
    ensures
        ({
            let r = <AccountPayload as vstd::std_specs::convert::TryFromSpec<Bytes>>::try_from_spec(
                value,
            );
            &&& len <= 10_485_760 ==> r is Ok && r->Ok_0@ == bytes_view(value)
            &&& len > 10_485_760 ==> r == Err::<AccountPayload, _>(
                QlasterError::PayloadTooLarge { found: len, max: 10_485_760 },
            )
        }),
{
}

} // verus!
