//! What all frames begin with, and a cursor over fixed-width fields.

use crate::error::{ErrorModel, QlasterError};
use crate::le::{
    get_u32_le, get_u64_le, le_u32_at, le_u64_at, lemma_u32_at_part, lemma_u64_at_part,
};
use vstd::prelude::*;

verus! {

/// Client to sender: a subscription or a change of one.
pub const REQUEST_SUBSCRIBE_TAG: u8 = 1;

/// Sender to client: an account update.
pub const UPDATE_TAG: u8 = 2;

/// Sender to client: the assigned slot token.
pub const READY_TAG: u8 = 3;

/// Client to sender: a keepalive ping.
pub const REQUEST_PING_TAG: u8 = 4;

/// Sender to client: the shared-memory handshake, on the control socket only.
pub const READY_SHM_TAG: u8 = 5;

/// Sender to client: a transaction update.
pub const TRANSACTION_UPDATE_TAG: u8 = 6;

/// Sender to client: a Solana slot update.
pub const SLOT_UPDATE_TAG: u8 = 7;

/// The version of the protocol; frames of another version are refused.
pub const WIRE_VERSION: u8 = 9;

/// The slot index that stands for no slot token.
pub const UNSET_SLOT_INDEX: u8 = 255;

/// The error for a frame with this version and tag where `expected_tag` is
/// expected, if there is one. The version is looked at first.
pub open spec fn wire_error(wire_version: u8, message_tag: u8, expected_tag: u8) -> Option<
    ErrorModel,
> {
    if wire_version != WIRE_VERSION {
        Some(ErrorModel::InvalidWireVersion { found: wire_version, expected: WIRE_VERSION })
    } else if message_tag != expected_tag {
        Some(ErrorModel::InvalidMessageTag { found: message_tag, expected: expected_tag })
    } else {
        None
    }
}

/// Checks the version and the tag of a frame.
pub fn ensure_wire(wire_version: u8, message_tag: u8, expected_tag: u8) -> (r: Result<
    (),
    QlasterError,
>)
    ensures
        match r {
            Ok(_) => wire_error(wire_version, message_tag, expected_tag) is None,
            Err(e) => wire_error(wire_version, message_tag, expected_tag) == Some(e@),
        },
{
    if wire_version != WIRE_VERSION {
        return Err(
            QlasterError::InvalidWireVersion { found: wire_version, expected: WIRE_VERSION },
        );
    }
    if message_tag != expected_tag {
        return Err(
            QlasterError::InvalidMessageTag { found: message_tag, expected: expected_tag },
        );
    }
    Ok(())
}

/// Takes `len` bytes from the cursor on and moves it past them. With fewer
/// bytes left, the cursor stays and the error carries `context`.
pub fn take_exact<'a>(
    bytes: &'a [u8],
    cursor: &mut usize,
    len: usize,
    context: &'static str,
) -> (r: Result<&'a [u8], QlasterError>)
    ensures
        match r {
            Ok(part) => {
                &&& *old(cursor) + len <= bytes@.len()
                &&& part@ == bytes@.subrange(*old(cursor) as int, *old(cursor) + len)
                &&& *final(cursor) == *old(cursor) + len
            },
            Err(e) => {
                &&& *old(cursor) + len > bytes@.len()
                &&& e@ == ErrorModel::MalformedPayload(context@)
                &&& *final(cursor) == *old(cursor)
            },
        },
{
    assert(bytes@.len() == bytes.len());
    let start: usize = *cursor;
    match start.checked_add(len) {
        None => Err(QlasterError::MalformedPayload(context)),
        Some(end) => if end <= bytes.len() {
            *cursor = end;
            Ok(vstd::slice::slice_subrange(bytes, start, end))
        } else {
            Err(QlasterError::MalformedPayload(context))
        },
    }
}

/// Takes one byte.
pub fn take_u8(bytes: &[u8], cursor: &mut usize) -> (r: Result<u8, QlasterError>)
    ensures
        match r {
            Ok(x) => {
                &&& *old(cursor) < bytes@.len()
                &&& x == bytes@[*old(cursor) as int]
                &&& *final(cursor) == *old(cursor) + 1
            },
            Err(e) => {
                &&& *old(cursor) >= bytes@.len()
                &&& e@ == ErrorModel::MalformedPayload("account update u8 out of bounds"@)
                &&& *final(cursor) == *old(cursor)
            },
        },
{
    match take_exact(bytes, cursor, 1, "account update u8 out of bounds") {
        Ok(raw) => Ok(raw[0]),
        Err(e) => Err(e),
    }
}

/// Takes a little-endian `u32`.
pub fn take_u32_le(bytes: &[u8], cursor: &mut usize) -> (r: Result<u32, QlasterError>)
    ensures
        match r {
            Ok(x) => {
                &&& *old(cursor) + 4 <= bytes@.len()
                &&& x == le_u32_at(bytes@, *old(cursor) as int)
                &&& *final(cursor) == *old(cursor) + 4
            },
            Err(e) => {
                &&& *old(cursor) + 4 > bytes@.len()
                &&& e@ == ErrorModel::MalformedPayload("account update u32 out of bounds"@)
                &&& *final(cursor) == *old(cursor)
            },
        },
{
    match take_exact(bytes, cursor, 4, "account update u32 out of bounds") {
        Ok(raw) => {
            proof {
                lemma_u32_at_part(bytes@, *old(cursor) as int, *old(cursor) + 4, 0);
            }
            Ok(get_u32_le(raw, 0))
        },
        Err(e) => Err(e),
    }
}

/// Takes a little-endian `u64`.
pub fn take_u64_le(bytes: &[u8], cursor: &mut usize) -> (r: Result<u64, QlasterError>)
    ensures
        match r {
            Ok(x) => {
                &&& *old(cursor) + 8 <= bytes@.len()
                &&& x == le_u64_at(bytes@, *old(cursor) as int)
                &&& *final(cursor) == *old(cursor) + 8
            },
            Err(e) => {
                &&& *old(cursor) + 8 > bytes@.len()
                &&& e@ == ErrorModel::MalformedPayload("account update u64 out of bounds"@)
                &&& *final(cursor) == *old(cursor)
            },
        },
{
    match take_exact(bytes, cursor, 8, "account update u64 out of bounds") {
        Ok(raw) => {
            proof {
                lemma_u64_at_part(bytes@, *old(cursor) as int, *old(cursor) + 8, 0);
            }
            Ok(get_u64_le(raw, 0))
        },
        Err(e) => Err(e),
    }
}

/// Takes 32 bytes.
pub fn take_array_32(bytes: &[u8], cursor: &mut usize) -> (r: Result<[u8; 32], QlasterError>)
    ensures
        match r {
            Ok(x) => {
                &&& *old(cursor) + 32 <= bytes@.len()
                &&& x@ == bytes@.subrange(*old(cursor) as int, *old(cursor) + 32)
                &&& *final(cursor) == *old(cursor) + 32
            },
            Err(e) => {
                &&& *old(cursor) + 32 > bytes@.len()
                &&& e@ == ErrorModel::MalformedPayload("account update [u8;32] out of bounds"@)
                &&& *final(cursor) == *old(cursor)
            },
        },
{
    match take_exact(bytes, cursor, 32, "account update [u8;32] out of bounds") {
        Ok(raw) => {
            let mut x: [u8; 32] = [0u8;32];
            let mut i: usize = 0;
            while i < 32
                invariant
                    i <= 32,
                    x@.len() == 32,
                    raw@.len() == 32,
                    forall|j: int| 0 <= j < i ==> x@[j] == raw@[j],
                decreases 32 - i,
            {
                x[i] = raw[i];
                i += 1;
            }
            assert(x@ =~= raw@);
            Ok(x)
        },
        Err(e) => Err(e),
    }
}

/// Takes 64 bytes.
pub fn take_array_64(bytes: &[u8], cursor: &mut usize) -> (r: Result<[u8; 64], QlasterError>)
    ensures
        match r {
            Ok(x) => {
                &&& *old(cursor) + 64 <= bytes@.len()
                &&& x@ == bytes@.subrange(*old(cursor) as int, *old(cursor) + 64)
                &&& *final(cursor) == *old(cursor) + 64
            },
            Err(e) => {
                &&& *old(cursor) + 64 > bytes@.len()
                &&& e@ == ErrorModel::MalformedPayload("transaction update [u8;64] out of bounds"@)
                &&& *final(cursor) == *old(cursor)
            },
        },
{
    match take_exact(bytes, cursor, 64, "transaction update [u8;64] out of bounds") {
        Ok(raw) => {
            let mut x: [u8; 64] = [0u8;64];
            let mut i: usize = 0;
            while i < 64
                invariant
                    i <= 64,
                    x@.len() == 64,
                    raw@.len() == 64,
                    forall|j: int| 0 <= j < i ==> x@[j] == raw@[j],
                decreases 64 - i,
            {
                x[i] = raw[i];
                i += 1;
            }
            assert(x@ =~= raw@);
            Ok(x)
        },
        Err(e) => Err(e),
    }
}

/// Appends a slice.
pub fn put_bytes(out: &mut Vec<u8>, part: &[u8])
    ensures
        final(out)@ == old(out)@ + part@,
{
    out.extend_from_slice(part);
    assert(out@ =~= old(out)@ + part@);
}

} // verus!
