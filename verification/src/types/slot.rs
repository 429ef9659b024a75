//! Slot updates and their binary frames.

use crate::buffer::{bytes_as_slice, bytes_empty, bytes_from_vec, bytes_view};
use crate::clock::is_unix_nanos;
use crate::error::{ErrorModel, QlasterError};
use crate::le::{le_u64, le_u64_at, lemma_u64_read_back, put_u64_le};
use crate::metrics::unix_time_nanos;
use crate::types::account::AccountUpdateWireMeta;
use crate::types::header::{
    ensure_wire, put_bytes, take_u64_le, wire_error, SLOT_UPDATE_TAG, WIRE_VERSION,
};
use bytes::Bytes;
use vstd::prelude::*;

verus! {

/// The size of a frame.
pub const SLOT_UPDATE_FIXED_BYTES: usize = 18;

/// A Solana slot.
#[derive(Clone, Copy, Debug, PartialEq, Eq)]
pub struct SlotUpdate {
    pub slot: u64,
}

/// The whole frame for a slot.
pub open spec fn slot_frame(slot: u64, sender_created_at_unix_nanos: u64) -> Seq<u8> {
    seq![WIRE_VERSION, SLOT_UPDATE_TAG] + le_u64(sender_created_at_unix_nanos) + le_u64(slot)
}

/// The update and the metadata that a frame stands for, or what is wrong with
/// it. The first of several faults is the one that is reported.
pub open spec fn decode_slot(b: Seq<u8>) -> Result<
    (SlotUpdate, AccountUpdateWireMeta),
    ErrorModel,
> {
    if b.len() < SLOT_UPDATE_FIXED_BYTES {
        Err(ErrorModel::MalformedPayload("slot update frame shorter than fixed header"@))
    } else if wire_error(b[0], b[1], SLOT_UPDATE_TAG) is Some {
        Err(wire_error(b[0], b[1], SLOT_UPDATE_TAG)->0)
    } else if b.len() != SLOT_UPDATE_FIXED_BYTES {
        Err(ErrorModel::MalformedPayload("slot update payload size mismatch"@))
    } else {
        Ok(
            (
                SlotUpdate { slot: le_u64_at(b, 10) },
                AccountUpdateWireMeta { sender_created_at_unix_nanos: le_u64_at(b, 2) },
            ),
        )
    }
}

/// A decoded update and its metadata, or an error, as a model.
pub open spec fn decoded_slot_view(
    r: Result<(SlotUpdate, AccountUpdateWireMeta), QlasterError>,
) -> Result<(SlotUpdate, AccountUpdateWireMeta), ErrorModel> {
    match r {
        Ok(decoded) => Ok(decoded),
        Err(e) => Err(e@),
    }
}

/// A frame is decoded to the slot and the creation time that it was encoded from.
pub proof fn law_slot_frame_read_back(slot: u64, sender_created_at_unix_nanos: u64)
    ensures
        decode_slot(slot_frame(slot, sender_created_at_unix_nanos)) == Ok::<_, ErrorModel>(
            (SlotUpdate { slot }, AccountUpdateWireMeta { sender_created_at_unix_nanos }),
        ),
{
    let f = slot_frame(slot, sender_created_at_unix_nanos);
    assert(f.subrange(2, 10) =~= le_u64(sender_created_at_unix_nanos));
    assert(f.subrange(10, 18) =~= le_u64(slot));
    lemma_u64_read_back(f, 2, sender_created_at_unix_nanos);
    lemma_u64_read_back(f, 10, slot);
}

/// The fields of a frame.
#[derive(Clone, Copy, Debug)]
pub struct DecodedSlotUpdate {
    pub sender_created_at_unix_nanos: u64,
    pub slot: u64,
}

impl DecodedSlotUpdate {
    /// Takes a frame apart.
    pub fn parse(bytes: &[u8]) -> (r: Result<DecodedSlotUpdate, QlasterError>)
        ensures
            match r {
                Ok(decoded) => decode_slot(bytes@) == Ok::<_, ErrorModel>(
                    (
                        SlotUpdate { slot: decoded.slot },
                        AccountUpdateWireMeta {
                            sender_created_at_unix_nanos: decoded.sender_created_at_unix_nanos,
                        },
                    ),
                ),
                Err(e) => decode_slot(bytes@) matches Err(fault) && fault == e@,
            },
    {
        if bytes.len() < SLOT_UPDATE_FIXED_BYTES {
            return Err(
                QlasterError::MalformedPayload("slot update frame shorter than fixed header"),
            );
        }
        match ensure_wire(bytes[0], bytes[1], SLOT_UPDATE_TAG) {
            Ok(_) => {},
            Err(e) => {
                return Err(e);
            },
        }
        let mut cursor: usize = 2;
        let sender_created_at_unix_nanos: u64 = take_u64_le(bytes, &mut cursor)?;
        let slot: u64 = take_u64_le(bytes, &mut cursor)?;
        if bytes.len() != cursor {
            return Err(QlasterError::MalformedPayload("slot update payload size mismatch"));
        }
        Ok(DecodedSlotUpdate { sender_created_at_unix_nanos, slot })
    }
}

impl SlotUpdate {
    /// The update for a slot.
    pub fn new(slot: u64) -> (r: SlotUpdate)
        ensures
            r.slot == slot,
    {
        SlotUpdate { slot }
    }

    /// The header and the empty payload of the frame for this update, created
    /// at the given time. The header decodes to this update and that time.
    pub fn encode_parts_at(&self, sender_created_at_unix_nanos: u64) -> (r: Result<
        (Bytes, Bytes),
        QlasterError,
    >)
        ensures
            r matches Ok((header, payload)) && {
                &&& bytes_view(header) == slot_frame(self.slot, sender_created_at_unix_nanos)
                &&& bytes_view(payload).len() == 0
                &&& decode_slot(bytes_view(header) + bytes_view(payload)) == Ok::<_, ErrorModel>(
                    (*self, AccountUpdateWireMeta { sender_created_at_unix_nanos }),
                )
            },
    {
        let mut header: Vec<u8> = Vec::with_capacity(SLOT_UPDATE_FIXED_BYTES);
        header.push(WIRE_VERSION);
        header.push(SLOT_UPDATE_TAG);
        assert(header@ =~= seq![WIRE_VERSION, SLOT_UPDATE_TAG]);
        put_u64_le(&mut header, sender_created_at_unix_nanos);
        put_u64_le(&mut header, self.slot);
        proof {
            law_slot_frame_read_back(self.slot, sender_created_at_unix_nanos);
            assert(header@ + Seq::<u8>::empty() =~= header@);
        }
        Ok((bytes_from_vec(header), bytes_empty()))
    }

    /// The header and the empty payload of a frame created now.
    pub fn encode_parts(&self) -> (r: Result<(Bytes, Bytes), QlasterError>)
        ensures
            r matches Ok((header, payload)) && {
                &&& exists|now: u64|
                    {
                        &&& is_unix_nanos(now)
                        &&& bytes_view(header) == #[trigger] slot_frame(self.slot, now)
                    }
                &&& bytes_view(payload).len() == 0
            },
    {
        self.encode_parts_at(unix_time_nanos())
    }

    /// A whole frame created now.
    pub fn encode(&self) -> (r: Result<Vec<u8>, QlasterError>)
        ensures
            r matches Ok(frame) && exists|now: u64|
                {
                    &&& is_unix_nanos(now)
                    &&& frame@ == #[trigger] slot_frame(self.slot, now)
                    &&& decode_slot(frame@) == Ok::<_, ErrorModel>(
                        (*self, AccountUpdateWireMeta { sender_created_at_unix_nanos: now }),
                    )
                },
    {
        let now: u64 = unix_time_nanos();
        match self.encode_parts_at(now) {
            Ok((header, payload)) => {
                let mut out: Vec<u8> = Vec::new();
                put_bytes(&mut out, bytes_as_slice(&header));
                put_bytes(&mut out, bytes_as_slice(&payload));
                proof {
                    assert(out@ =~= bytes_view(header) + bytes_view(payload));
                    assert(out@ =~= slot_frame(self.slot, now));
                }
                Ok(out)
            },
            Err(e) => Err(e),
        }
    }

    /// The update and the metadata of a frame.
    pub fn decode_with_meta(bytes: &[u8]) -> (r: Result<
        (SlotUpdate, AccountUpdateWireMeta),
        QlasterError,
    >)
        ensures
            decoded_slot_view(r) == decode_slot(bytes@),
    {
        match DecodedSlotUpdate::parse(bytes) {
            Ok(decoded) => Ok(
                (
                    SlotUpdate { slot: decoded.slot },
                    AccountUpdateWireMeta {
                        sender_created_at_unix_nanos: decoded.sender_created_at_unix_nanos,
                    },
                ),
            ),
            Err(e) => Err(e),
        }
    }

    /// The update of a frame.
    pub fn decode(bytes: &[u8]) -> (r: Result<SlotUpdate, QlasterError>)
        ensures
            match r {
                Ok(update) => decode_slot(bytes@) matches Ok((m, _)) && m == update,
                Err(e) => decode_slot(bytes@) matches Err(fault) && fault == e@,
            },
    {
        match SlotUpdate::decode_with_meta(bytes) {
            Ok((update, _)) => Ok(update),
            Err(e) => Err(e),
        }
    }

    /// The update and the metadata of a frame.
    pub fn decode_owned_with_meta(bytes: Vec<u8>) -> (r: Result<
        (SlotUpdate, AccountUpdateWireMeta),
        QlasterError,
    >)
        ensures
            decoded_slot_view(r) == decode_slot(bytes@),
    {
        SlotUpdate::decode_with_meta(bytes.as_slice())
    }

    /// The update of a frame.
    pub fn decode_owned(bytes: Vec<u8>) -> (r: Result<SlotUpdate, QlasterError>)
        ensures
            match r {
                Ok(update) => decode_slot(bytes@) matches Ok((m, _)) && m == update,
                Err(e) => decode_slot(bytes@) matches Err(fault) && fault == e@,
            },
    {
        match SlotUpdate::decode_owned_with_meta(bytes) {
            Ok((update, _)) => Ok(update),
            Err(e) => Err(e),
        }
    }
}

} // verus!
