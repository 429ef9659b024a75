//! Length-prefixed frames on a byte stream.

use crate::error::{ErrorModel, QlasterError};
use crate::le::{
    get_u32_le, law_least_significant_byte_first, le_u32, le_u32_at, lemma_u32_read_back, put_u32_le,
};
use crate::types::header::put_bytes;
use vstd::prelude::*;

verus! {

/// The longest frame that is read from a stream.
pub const MAX_FRAME_SIZE: usize = 16 * 1024 * 1024;

/// The size of the length in front of a frame.
pub const FRAME_PREFIX_BYTES: usize = 4;

/// What is written to a stream for a payload: its length, then itself; or why
/// nothing is.
pub open spec fn framed_bytes(payload: Seq<u8>) -> Result<Seq<u8>, ErrorModel> {
    if payload.len() > u32::MAX {
        Err(ErrorModel::FrameTooLarge(payload.len()))
    } else {
        Ok(le_u32(payload.len() as u32) + payload)
    }
}

/// How long the payload behind a prefix is, or why it is not read.
pub open spec fn payload_len(prefix: Seq<u8>) -> Result<nat, ErrorModel> {
    if le_u32_at(prefix, 0) > MAX_FRAME_SIZE {
        Err(ErrorModel::FrameTooLarge(le_u32_at(prefix, 0) as nat))
    } else {
        Ok(le_u32_at(prefix, 0) as nat)
    }
}

/// What is written to a stream for a payload.
pub fn frame_payload(payload: &[u8]) -> (r: Result<Vec<u8>, QlasterError>)
    ensures
        match r {
            Ok(bytes) => framed_bytes(payload@) == Ok::<_, ErrorModel>(bytes@),
            Err(e) => framed_bytes(payload@) == Err::<Seq<u8>, _>(e@),
        },
{
    let size: usize = payload.len();
    if size as u64 > u32::MAX as u64 {
        return Err(QlasterError::FrameTooLarge(size));
    }
    let mut bytes: Vec<u8> = Vec::new();
    put_u32_le(&mut bytes, size as u32);
    put_bytes(&mut bytes, payload);
    assert(bytes@ =~= le_u32(size as u32) + payload@);
    Ok(bytes)
}

/// How long the payload behind a prefix is.
pub fn read_payload_len(prefix: &[u8]) -> (r: Result<usize, QlasterError>)
    requires
        prefix@.len() == FRAME_PREFIX_BYTES,
    ensures
        match r {
            Ok(n) => payload_len(prefix@) == Ok::<_, ErrorModel>(n as nat),
            Err(e) => payload_len(prefix@) == Err::<nat, _>(e@),
        },
{
    let size: usize = get_u32_le(prefix, 0) as usize;
    if size > MAX_FRAME_SIZE {
        return Err(QlasterError::FrameTooLarge(size));
    }
    Ok(size)
}

/// What was written for a payload is read back, whatever follows on the
/// stream, unless the payload is longer than is read.
pub proof fn law_frame_is_read_back(payload: Seq<u8>, rest: Seq<u8>)
    requires
        payload.len() <= MAX_FRAME_SIZE,
    ensures
        framed_bytes(payload) is Ok,
        ({
            let stream = framed_bytes(payload)->Ok_0 + rest;
            let n = payload.len() as int;
            &&& payload_len(stream.take(4)) == Ok::<_, ErrorModel>(payload.len())
            &&& stream.subrange(4, 4 + n) == payload
            &&& stream.skip(4 + n) == rest
        }),
{
    let stream = framed_bytes(payload)->Ok_0 + rest;
    let n = payload.len() as int;
    assert(stream.take(4).subrange(0, 4) =~= le_u32(n as u32));
    lemma_u32_read_back(stream.take(4), 0, n as u32);
    assert(stream.subrange(4, 4 + n) =~= payload);
    assert(stream.skip(4 + n) =~= rest);
}

/// A payload of up to 2^32 - 1 bytes goes out behind its length, in four bytes with
/// the least significant one first; a longer one does not go out. A length of up to
/// 16 MiB is accepted from a peer; a longer one is refused.
pub proof fn law_stream_frames_by_length(payload: Seq<u8>, prefix: Seq<u8>)
    requires
        prefix.len() == 4,
    ensures
        payload.len() <= 0xFFFF_FFFF ==> (framed_bytes(payload) matches Ok(f) && {
            &&& f.len() == 4 + payload.len()
            &&& f[0] + 0x100 * f[1] + 0x1_0000 * f[2] + 0x100_0000 * f[3] == payload.len()
            &&& f.skip(4) == payload
        }),
        payload.len() > 0xFFFF_FFFF ==> framed_bytes(payload) == Err::<Seq<u8>, _>(
            ErrorModel::FrameTooLarge(payload.len()),
        ),
        ({
            let n = prefix[0] + 0x100 * prefix[1] + 0x1_0000 * prefix[2] + 0x100_0000 * prefix[3];
            &&& n <= 0x100_0000 ==> payload_len(prefix) == Ok::<_, ErrorModel>(n as nat)
            &&& n > 0x100_0000 ==> payload_len(prefix) == Err::<nat, _>(
                ErrorModel::FrameTooLarge(n as nat),
            )
        }),
{
    law_least_significant_byte_first(payload.len() as u32, 0, prefix, 0);
    if payload.len() <= 0xFFFF_FFFF {
        assert(framed_bytes(payload)->Ok_0.skip(4) =~= payload);
    }
}

} // verus!
