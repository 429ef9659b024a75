//! Transaction updates and their binary frames.

use crate::buffer::{bytes_as_slice, bytes_copy, bytes_from_vec, bytes_len, bytes_slice, bytes_view};
use crate::clock::is_unix_nanos;
use crate::error::{ErrorModel, QlasterError};
use crate::le::{
    le_u32, le_u32_at, le_u64, le_u64_at, lemma_u32_read_back, lemma_u64_read_back, put_u32_le,
    put_u64_le,
};
use crate::metrics::unix_time_nanos;
use crate::types::account::AccountUpdateWireMeta;
use crate::types::header::{
    ensure_wire, put_bytes, take_array_64, take_u32_le, take_u64_le, take_u8, wire_error,
    TRANSACTION_UPDATE_TAG, WIRE_VERSION,
};
use bytes::Bytes;
use vstd::prelude::*;

verus! {

/// The most bytes that an encoded transaction can have.
pub const MAX_TRANSACTION_PAYLOAD_BYTES: usize = 10 * 1024 * 1024;

/// The size of a frame without its payload.
pub const TRANSACTION_UPDATE_FIXED_BYTES: usize = 91;

/// The encoded transaction, at most [`MAX_TRANSACTION_PAYLOAD_BYTES`] of it.
#[derive(Debug, PartialEq, Eq)]
pub struct TransactionPayload(Bytes);

impl View for TransactionPayload {
    type V = Seq<u8>;

    closed spec fn view(&self) -> Seq<u8> {
        bytes_view(self.0)
    }
}

impl Clone for TransactionPayload {
    fn clone(&self) -> (r: TransactionPayload)
        ensures
            r@ == self@,
    {
        proof {
            use_type_invariant(self);
        }
        TransactionPayload(self.0.clone())
    }
}

impl TransactionPayload {
    #[verifier::type_invariant]
    closed spec fn inv(self) -> bool {
        bytes_view(self.0).len() <= MAX_TRANSACTION_PAYLOAD_BYTES
    }

    /// The payload with the given bytes, unless there are too many.
    pub fn new(payload: Bytes) -> (r: Result<TransactionPayload, QlasterError>)
        ensures
            match r {
                Ok(p) => bytes_view(payload).len() <= MAX_TRANSACTION_PAYLOAD_BYTES && p@ == bytes_view(
                    payload,
                ),
                Err(e) => bytes_view(payload).len() > MAX_TRANSACTION_PAYLOAD_BYTES && e@
                    == (ErrorModel::PayloadTooLarge {
                    found: bytes_view(payload).len(),
                    max: MAX_TRANSACTION_PAYLOAD_BYTES as nat,
                }),
            },
    {
        let len: usize = bytes_len(&payload);
        if len > MAX_TRANSACTION_PAYLOAD_BYTES {
            return Err(
                QlasterError::PayloadTooLarge { found: len, max: MAX_TRANSACTION_PAYLOAD_BYTES },
            );
        }
        Ok(TransactionPayload(payload))
    }

    /// The payload with a copy of the given bytes, unless there are too many.
    pub fn from_slice(payload: &[u8]) -> (r: Result<TransactionPayload, QlasterError>)
        ensures
            match r {
                Ok(p) => payload@.len() <= MAX_TRANSACTION_PAYLOAD_BYTES && p@ == payload@,
                Err(e) => payload@.len() > MAX_TRANSACTION_PAYLOAD_BYTES && e@
                    == (ErrorModel::PayloadTooLarge {
                    found: payload@.len(),
                    max: MAX_TRANSACTION_PAYLOAD_BYTES as nat,
                }),
            },
    {
        TransactionPayload::new(bytes_copy(payload))
    }

    /// The payload with the given bytes, unless there are too many.
    pub fn from_bytes(payload: Bytes) -> (r: Result<TransactionPayload, QlasterError>)
        ensures
            match r {
                Ok(p) => bytes_view(payload).len() <= MAX_TRANSACTION_PAYLOAD_BYTES && p@ == bytes_view(
                    payload,
                ),
                Err(e) => bytes_view(payload).len() > MAX_TRANSACTION_PAYLOAD_BYTES && e@
                    == (ErrorModel::PayloadTooLarge {
                    found: bytes_view(payload).len(),
                    max: MAX_TRANSACTION_PAYLOAD_BYTES as nat,
                }),
            },
    {
        TransactionPayload::new(payload)
    }

    /// The bytes.
    pub fn as_slice(&self) -> (s: &[u8])
        ensures
            s@ == self@,
            s@.len() <= MAX_TRANSACTION_PAYLOAD_BYTES,
    {
        proof {
            use_type_invariant(self);
        }
        bytes_as_slice(&self.0)
    }

    /// How many bytes there are.
    pub fn len(&self) -> (n: usize)
        ensures
            n == self@.len(),
            n <= MAX_TRANSACTION_PAYLOAD_BYTES,
    {
        proof {
            use_type_invariant(self);
        }
        bytes_len(&self.0)
    }

    /// Whether there are none.
    pub fn is_empty(&self) -> (r: bool)
        ensures
            r == (self@.len() == 0),
    {
        bytes_len(&self.0) == 0
    }

    /// Another handle on the buffer.
    pub fn clone_bytes(&self) -> (b: Bytes)
        ensures
            bytes_view(b) == self@,
    {
        self.0.clone()
    }
}

impl TryFrom<Bytes> for TransactionPayload {
    type Error = QlasterError;

    fn try_from(value: Bytes) -> (r: Result<TransactionPayload, QlasterError>)
        ensures
            match r {
                Ok(p) => bytes_view(value).len() <= MAX_TRANSACTION_PAYLOAD_BYTES && p@ == bytes_view(
                    value,
                ),
                Err(e) => bytes_view(value).len() > MAX_TRANSACTION_PAYLOAD_BYTES && e@
                    == (ErrorModel::PayloadTooLarge {
                    found: bytes_view(value).len(),
                    max: MAX_TRANSACTION_PAYLOAD_BYTES as nat,
                }),
            },
    {
        let len: usize = bytes_len(&value);
        if len > MAX_TRANSACTION_PAYLOAD_BYTES {
            return Err(
                QlasterError::PayloadTooLarge { found: len, max: MAX_TRANSACTION_PAYLOAD_BYTES },
            );
        }
        Ok(TransactionPayload(value))
    }
}

impl vstd::std_specs::convert::TryFromSpecImpl<Bytes> for TransactionPayload {
    open spec fn obeys_try_from_spec() -> bool {
        true
    }

    closed spec fn try_from_spec(value: Bytes) -> Result<TransactionPayload, QlasterError> {
        if bytes_view(value).len() > MAX_TRANSACTION_PAYLOAD_BYTES {
            Err(
                QlasterError::PayloadTooLarge {
                    found: bytes_view(value).len() as usize,
                    max: MAX_TRANSACTION_PAYLOAD_BYTES,
                },
            )
        } else {
            Ok(TransactionPayload(value))
        }
    }
}

impl AsRef<[u8]> for TransactionPayload {
    fn as_ref(&self) -> (s: &[u8])
        ensures
            s@ == self@,
    {
        self.as_slice()
    }
}

/// One transaction of a slot.
#[derive(Debug, PartialEq, Eq)]
pub struct TransactionUpdate {
    pub slot: u64,
    pub index: u32,
    pub signature: [u8; 64],
    pub is_vote: bool,
    pub payload: TransactionPayload,
}

/// A [`TransactionUpdate`] with its signature and its payload as byte sequences.
pub struct TransactionModel {
    pub slot: u64,
    pub index: u32,
    pub signature: Seq<u8>,
    pub is_vote: bool,
    pub payload: Seq<u8>,
}

impl TransactionModel {
    /// Signature and payload have the sizes that those of an update have.
    pub open spec fn valid(self) -> bool {
        &&& self.signature.len() == 64
        &&& self.payload.len() <= MAX_TRANSACTION_PAYLOAD_BYTES
    }
}

impl View for TransactionUpdate {
    type V = TransactionModel;

    open spec fn view(&self) -> TransactionModel {
        TransactionModel {
            slot: self.slot,
            index: self.index,
            signature: self.signature@,
            is_vote: self.is_vote,
            payload: self.payload@,
        }
    }
}

impl Clone for TransactionUpdate {
    fn clone(&self) -> (r: TransactionUpdate)
        ensures
            r@ == self@,
    {
        TransactionUpdate {
            slot: self.slot,
            index: self.index,
            signature: self.signature,
            is_vote: self.is_vote,
            payload: self.payload.clone(),
        }
    }
}

/// The fixed part of a frame.
pub open spec fn transaction_header(m: TransactionModel, sender_created_at_unix_nanos: u64) -> Seq<
    u8,
> {
    seq![WIRE_VERSION, TRANSACTION_UPDATE_TAG] + le_u64(sender_created_at_unix_nanos) + le_u64(
        m.slot,
    ) + le_u32(m.index) + seq![if m.is_vote { 1u8 } else { 0u8 }] + m.signature + le_u32(
        m.payload.len() as u32,
    )
}

/// The whole frame for `m`.
pub open spec fn transaction_frame(m: TransactionModel, sender_created_at_unix_nanos: u64) -> Seq<
    u8,
> {
    transaction_header(m, sender_created_at_unix_nanos) + m.payload
}

/// The update and the metadata that a frame stands for, or what is wrong with
/// it. The first of several faults is the one that is reported.
pub open spec fn decode_transaction(b: Seq<u8>) -> Result<
    (TransactionModel, AccountUpdateWireMeta),
    ErrorModel,
> {
    if b.len() < TRANSACTION_UPDATE_FIXED_BYTES {
        Err(ErrorModel::MalformedPayload("transaction update frame shorter than fixed header"@))
    } else if wire_error(b[0], b[1], TRANSACTION_UPDATE_TAG) is Some {
        Err(wire_error(b[0], b[1], TRANSACTION_UPDATE_TAG)->0)
    } else if b[22] > 1 {
        Err(ErrorModel::MalformedPayload("transaction update vote flag must be 0 or 1"@))
    } else if le_u32_at(b, 87) > MAX_TRANSACTION_PAYLOAD_BYTES {
        Err(
            ErrorModel::PayloadTooLarge {
                found: le_u32_at(b, 87) as nat,
                max: MAX_TRANSACTION_PAYLOAD_BYTES as nat,
            },
        )
    } else if b.len() != TRANSACTION_UPDATE_FIXED_BYTES + le_u32_at(b, 87) {
        Err(ErrorModel::MalformedPayload("transaction update payload size mismatch"@))
    } else {
        Ok(
            (
                TransactionModel {
                    slot: le_u64_at(b, 10),
                    index: le_u32_at(b, 18),
                    signature: b.subrange(23, 87),
                    is_vote: b[22] == 1,
                    payload: b.skip(TRANSACTION_UPDATE_FIXED_BYTES as int),
                },
                AccountUpdateWireMeta { sender_created_at_unix_nanos: le_u64_at(b, 2) },
            ),
        )
    }
}

/// A decoded update and its metadata, or an error, as a model.
pub open spec fn decoded_transaction_view(
    r: Result<(TransactionUpdate, AccountUpdateWireMeta), QlasterError>,
) -> Result<(TransactionModel, AccountUpdateWireMeta), ErrorModel> {
    match r {
        Ok((update, meta)) => Ok((update@, meta)),
        Err(e) => Err(e@),
    }
}

/// A frame is decoded to the update and the creation time that it was encoded from.
pub proof fn law_transaction_frame_read_back(m: TransactionModel, sender_created_at_unix_nanos: u64)
    requires
        m.valid(),
    ensures
        decode_transaction(transaction_frame(m, sender_created_at_unix_nanos)) == Ok::<
            _,
            ErrorModel,
        >((m, AccountUpdateWireMeta { sender_created_at_unix_nanos })),
{
    let ts = sender_created_at_unix_nanos;
    let f = transaction_frame(m, ts);
    let is_vote = if m.is_vote { 1u8 } else { 0u8 };
    lemma_transaction_layout(
        seq![WIRE_VERSION, TRANSACTION_UPDATE_TAG],
        le_u64(ts),
        le_u64(m.slot),
        le_u32(m.index),
        seq![is_vote],
        m.signature,
        le_u32(m.payload.len() as u32),
        m.payload,
    );
    assert(f[0] == f.subrange(0, 2)[0] && f[1] == f.subrange(0, 2)[1]);
    assert(f[22] == f.subrange(22, 23)[0]);
    lemma_u64_read_back(f, 2, ts);
    lemma_u64_read_back(f, 10, m.slot);
    lemma_u32_read_back(f, 18, m.index);
    lemma_u32_read_back(f, 87, m.payload.len() as u32);
}

/// Where the fields stand in a frame.
proof fn lemma_transaction_layout(
    version_and_tag: Seq<u8>,
    created: Seq<u8>,
    slot: Seq<u8>,
    index: Seq<u8>,
    is_vote: Seq<u8>,
    signature: Seq<u8>,
    len: Seq<u8>,
    payload: Seq<u8>,
)
    requires
        version_and_tag.len() == 2,
        created.len() == 8,
        slot.len() == 8,
        index.len() == 4,
        is_vote.len() == 1,
        signature.len() == 64,
        len.len() == 4,
    ensures
        ({
            let f = version_and_tag + created + slot + index + is_vote + signature + len + payload;
            &&& f.len() == 91 + payload.len()
            &&& f.subrange(0, 2) == version_and_tag
            &&& f.subrange(2, 10) == created
            &&& f.subrange(10, 18) == slot
            &&& f.subrange(18, 22) == index
            &&& f.subrange(22, 23) == is_vote
            &&& f.subrange(23, 87) == signature
            &&& f.subrange(87, 91) == len
            &&& f.skip(91) == payload
        }),
{
    let f = version_and_tag + created + slot + index + is_vote + signature + len + payload;
    assert(f.subrange(0, 2) =~= version_and_tag);
    assert(f.subrange(2, 10) =~= created);
    assert(f.subrange(10, 18) =~= slot);
    assert(f.subrange(18, 22) =~= index);
    assert(f.subrange(22, 23) =~= is_vote);
    assert(f.subrange(23, 87) =~= signature);
    assert(f.subrange(87, 91) =~= len);
    assert(f.skip(91) =~= payload);
}

/// The fixed part of a frame, taken apart, and where its payload stands.
#[derive(Clone, Copy, Debug)]
pub struct DecodedTransactionUpdate {
    pub sender_created_at_unix_nanos: u64,
    pub slot: u64,
    pub index: u32,
    pub is_vote: bool,
    pub signature: [u8; 64],
    pub payload_offset: usize,
    pub payload_len: usize,
}

impl DecodedTransactionUpdate {
    /// Takes the fixed part of a frame apart.
    pub fn parse(bytes: &[u8]) -> (r: Result<DecodedTransactionUpdate, QlasterError>)
        ensures
            match r {
                Ok(decoded) => {
                    &&& decode_transaction(bytes@) == Ok::<_, ErrorModel>(
                        (
                            TransactionModel {
                                slot: decoded.slot,
                                index: decoded.index,
                                signature: decoded.signature@,
                                is_vote: decoded.is_vote,
                                payload: bytes@.skip(decoded.payload_offset as int),
                            },
                            AccountUpdateWireMeta {
                                sender_created_at_unix_nanos: decoded.sender_created_at_unix_nanos,
                            },
                        ),
                    )
                    &&& decoded.payload_offset == TRANSACTION_UPDATE_FIXED_BYTES
                    &&& decoded.payload_offset + decoded.payload_len == bytes@.len()
                    &&& decoded.payload_len <= MAX_TRANSACTION_PAYLOAD_BYTES
                },
                Err(e) => decode_transaction(bytes@) matches Err(fault) && fault == e@,
            },
    {
        if bytes.len() < TRANSACTION_UPDATE_FIXED_BYTES {
            return Err(
                QlasterError::MalformedPayload("transaction update frame shorter than fixed header"),
            );
        }
        match ensure_wire(bytes[0], bytes[1], TRANSACTION_UPDATE_TAG) {
            Ok(_) => {},
            Err(e) => {
                return Err(e);
            },
        }
        let mut cursor: usize = 2;
        let sender_created_at_unix_nanos: u64 = take_u64_le(bytes, &mut cursor)?;
        let slot: u64 = take_u64_le(bytes, &mut cursor)?;
        let index: u32 = take_u32_le(bytes, &mut cursor)?;
        let vote_flag: u8 = take_u8(bytes, &mut cursor)?;
        if vote_flag > 1 {
            return Err(
                QlasterError::MalformedPayload("transaction update vote flag must be 0 or 1"),
            );
        }
        let signature = take_array_64(bytes, &mut cursor)?;
        let payload_len: usize = take_u32_le(bytes, &mut cursor)? as usize;
        if payload_len > MAX_TRANSACTION_PAYLOAD_BYTES {
            return Err(
                QlasterError::PayloadTooLarge {
                    found: payload_len,
                    max: MAX_TRANSACTION_PAYLOAD_BYTES,
                },
            );
        }
        if bytes.len() - cursor != payload_len {
            return Err(QlasterError::MalformedPayload("transaction update payload size mismatch"));
        }
        Ok(
            DecodedTransactionUpdate {
                sender_created_at_unix_nanos,
                slot,
                index,
                is_vote: vote_flag == 1,
                signature,
                payload_offset: cursor,
                payload_len,
            },
        )
    }
}

impl TransactionUpdate {
    /// An update, unless the payload is too large.
    pub fn new(slot: u64, index: u32, signature: [u8; 64], is_vote: bool, payload: Bytes) -> (r:
        Result<TransactionUpdate, QlasterError>)
        ensures
            match r {
                Ok(update) => {
                    &&& bytes_view(payload).len() <= MAX_TRANSACTION_PAYLOAD_BYTES
                    &&& update@ == (TransactionModel {
                        slot,
                        index,
                        signature: signature@,
                        is_vote,
                        payload: bytes_view(payload),
                    })
                },
                Err(e) => {
                    &&& bytes_view(payload).len() > MAX_TRANSACTION_PAYLOAD_BYTES
                    &&& e@ == (ErrorModel::PayloadTooLarge {
                        found: bytes_view(payload).len(),
                        max: MAX_TRANSACTION_PAYLOAD_BYTES as nat,
                    })
                },
            },
    {
        match TransactionPayload::new(payload) {
            Ok(payload) => Ok(TransactionUpdate { slot, index, signature, is_vote, payload }),
            Err(e) => Err(e),
        }
    }

    /// The header and the payload of the frame for this update, created at the
    /// given time. Put together they decode to this update and that time.
    pub fn encode_parts_at(&self, sender_created_at_unix_nanos: u64) -> (r: Result<
        (Bytes, Bytes),
        QlasterError,
    >)
        ensures
            r matches Ok((header, payload)) && {
                &&& bytes_view(header) == transaction_header(self@, sender_created_at_unix_nanos)
                &&& bytes_view(payload) == self@.payload
                &&& decode_transaction(bytes_view(header) + bytes_view(payload)) == Ok::<
                    _,
                    ErrorModel,
                >((self@, AccountUpdateWireMeta { sender_created_at_unix_nanos }))
                &&& bytes_view(header).len() == TRANSACTION_UPDATE_FIXED_BYTES
                &&& bytes_view(payload).len() <= MAX_TRANSACTION_PAYLOAD_BYTES
            },
    {
        let payload = self.payload.clone_bytes();
        let payload_len: usize = self.payload.len();
        let mut header: Vec<u8> = Vec::with_capacity(TRANSACTION_UPDATE_FIXED_BYTES);
        header.push(WIRE_VERSION);
        header.push(TRANSACTION_UPDATE_TAG);
        assert(header@ =~= seq![WIRE_VERSION, TRANSACTION_UPDATE_TAG]);
        put_u64_le(&mut header, sender_created_at_unix_nanos);
        put_u64_le(&mut header, self.slot);
        put_u32_le(&mut header, self.index);
        let is_vote: u8 = if self.is_vote {
            1
        } else {
            0
        };
        put_bytes(&mut header, [is_vote].as_slice());
        put_bytes(&mut header, self.signature.as_slice());
        put_u32_le(&mut header, payload_len as u32);
        proof {
            assert([is_vote]@ =~= seq![is_vote]);
            law_transaction_frame_read_back(self@, sender_created_at_unix_nanos);
        }
        Ok((bytes_from_vec(header), payload))
    }

    /// The header and the payload of a frame created now.
    pub fn encode_parts(&self) -> (r: Result<(Bytes, Bytes), QlasterError>)
        ensures
            r matches Ok((header, payload)) && {
                &&& exists|now: u64|
                    {
                        &&& is_unix_nanos(now)
                        &&& bytes_view(header) == #[trigger] transaction_header(self@, now)
                    }
                &&& bytes_view(payload) == self@.payload
            },
    {
        self.encode_parts_at(unix_time_nanos())
    }

    /// A whole frame created now.
    pub fn encode(&self) -> (r: Result<Vec<u8>, QlasterError>)
        ensures
            r matches Ok(frame) && exists|now: u64|
                {
                    &&& is_unix_nanos(now)
                    &&& frame@ == #[trigger] transaction_frame(self@, now)
                    &&& decode_transaction(frame@) == Ok::<_, ErrorModel>(
                        (self@, AccountUpdateWireMeta { sender_created_at_unix_nanos: now }),
                    )
                },
    {
        let now: u64 = unix_time_nanos();
        match self.encode_parts_at(now) {
            Ok((header, payload)) => {
                let mut out: Vec<u8> = Vec::new();
                put_bytes(&mut out, bytes_as_slice(&header));
                put_bytes(&mut out, bytes_as_slice(&payload));
                proof {
                    assert(out@ =~= bytes_view(header) + bytes_view(payload));
                    assert(out@ == transaction_frame(self@, now));
                }
                Ok(out)
            },
            Err(e) => Err(e),
        }
    }

    /// The update with the decoded fixed part and the given payload.
    fn from_decoded(decoded: DecodedTransactionUpdate, payload: Bytes) -> (r: Result<
        (TransactionUpdate, AccountUpdateWireMeta),
        QlasterError,
    >)
        requires
            bytes_view(payload).len() <= MAX_TRANSACTION_PAYLOAD_BYTES,
        ensures
            r matches Ok((update, meta)) && {
                &&& update@ == (TransactionModel {
                    slot: decoded.slot,
                    index: decoded.index,
                    signature: decoded.signature@,
                    is_vote: decoded.is_vote,
                    payload: bytes_view(payload),
                })
                &&& meta.sender_created_at_unix_nanos == decoded.sender_created_at_unix_nanos
            },
    {
        match TransactionPayload::from_bytes(payload) {
            Ok(payload) => Ok(
                (
                    TransactionUpdate {
                        slot: decoded.slot,
                        index: decoded.index,
                        signature: decoded.signature,
                        is_vote: decoded.is_vote,
                        payload,
                    },
                    AccountUpdateWireMeta {
                        sender_created_at_unix_nanos: decoded.sender_created_at_unix_nanos,
                    },
                ),
            ),
            Err(e) => Err(e),
        }
    }

    /// The update and the metadata of a frame. The payload is copied.
    pub fn decode_with_meta(bytes: &[u8]) -> (r: Result<
        (TransactionUpdate, AccountUpdateWireMeta),
        QlasterError,
    >)
        ensures
            decoded_transaction_view(r) == decode_transaction(bytes@),
    {
        let decoded = match DecodedTransactionUpdate::parse(bytes) {
            Ok(decoded) => decoded,
            Err(e) => {
                return Err(e);
            },
        };
        let part = vstd::slice::slice_subrange(bytes, decoded.payload_offset, bytes.len());
        assert(part@ =~= bytes@.skip(decoded.payload_offset as int));
        TransactionUpdate::from_decoded(decoded, bytes_copy(part))
    }

    /// The update of a frame.
    pub fn decode(bytes: &[u8]) -> (r: Result<TransactionUpdate, QlasterError>)
        ensures
            match r {
                Ok(update) => decode_transaction(bytes@) matches Ok((m, _)) && m == update@,
                Err(e) => decode_transaction(bytes@) matches Err(fault) && fault == e@,
            },
    {
        match TransactionUpdate::decode_with_meta(bytes) {
            Ok((update, _)) => Ok(update),
            Err(e) => Err(e),
        }
    }

    /// The update and the metadata of a frame. The payload is shared with the
    /// frame's buffer.
    pub fn decode_owned_with_meta(bytes: Vec<u8>) -> (r: Result<
        (TransactionUpdate, AccountUpdateWireMeta),
        QlasterError,
    >)
        ensures
            decoded_transaction_view(r) == decode_transaction(bytes@),
    {
        let ghost frame = bytes@;
        let buffer = bytes_from_vec(bytes);
        let decoded = match DecodedTransactionUpdate::parse(bytes_as_slice(&buffer)) {
            Ok(decoded) => decoded,
            Err(e) => {
                return Err(e);
            },
        };
        let payload = bytes_slice(&buffer, decoded.payload_offset, bytes_len(&buffer));
        assert(bytes_view(payload) =~= frame.skip(decoded.payload_offset as int));
        TransactionUpdate::from_decoded(decoded, payload)
    }

    /// The update of a frame.
    pub fn decode_owned(bytes: Vec<u8>) -> (r: Result<TransactionUpdate, QlasterError>)
        ensures
            match r {
                Ok(update) => decode_transaction(bytes@) matches Ok((m, _)) && m == update@,
                Err(e) => decode_transaction(bytes@) matches Err(fault) && fault == e@,
            },
    {
        match TransactionUpdate::decode_owned_with_meta(bytes) {
            Ok((update, _)) => Ok(update),
            Err(e) => Err(e),
        }
    }
}

/// A buffer of up to 10 MiB is a payload with its bytes; a longer one is refused with
/// its length and the limit.
pub proof fn law_transaction_payloads_are_bounded(value: Bytes, len: usize)
    requires
        len == bytes_view(value).len(),
    ensures
        ({
            let r = <TransactionPayload as vstd::std_specs::convert::TryFromSpec<Bytes>>::try_from_spec(
                value,
            );
            &&& len <= 10_485_760 ==> r is Ok && r->Ok_0@ == bytes_view(value)
            &&& len > 10_485_760 ==> r == Err::<TransactionPayload, _>(
                QlasterError::PayloadTooLarge { found: len, max: 10_485_760 },
            )
        }),
{
}

} // verus!
