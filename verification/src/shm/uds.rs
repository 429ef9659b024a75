//! Frames with a descriptor attached, on the control socket.

use crate::error::{text_with_number, ErrorModel, QlasterError};
use crate::le::{get_u32_le, le_u32, le_u32_at, lemma_u32_read_back};
use crate::text::{decimal, put_decimal};
use crate::wire::{frame_payload, framed_bytes};
use vstd::prelude::*;
use vstd::string::*;

verus! {

/// How much is received at once with a descriptor.
pub const ANCILLARY_RECV_BUF: usize = 1024;

/// The payload in what was received, or what is wrong with it. What follows
/// the payload is ignored.
pub open spec fn received_payload(received: Seq<u8>) -> Result<Seq<u8>, ErrorModel> {
    let n = received.len();
    let len = le_u32_at(received, 0);
    if n == 0 {
        Err(ErrorModel::UdsError("peer closed UDS before sending ready frame"@))
    } else if n < 4 {
        Err(ErrorModel::UdsError("short recvmsg ("@ + decimal(n) + " bytes)"@))
    } else if 4 + len > n {
        Err(
            ErrorModel::UdsError(
                "ancillary frame larger than buffer ("@ + decimal((4 + len) as nat) + " > "@
                    + decimal(n) + ")"@,
            ),
        )
    } else {
        Ok(received.subrange(4, 4 + len))
    }
}

/// What is sent with a descriptor for a payload.
pub fn frame_for_fd(payload: &[u8]) -> (r: Result<Vec<u8>, QlasterError>)
    ensures
        match r {
            Ok(bytes) => framed_bytes(payload@) == Ok::<_, ErrorModel>(bytes@),
            Err(e) => framed_bytes(payload@) == Err::<Seq<u8>, _>(e@),
        },
{
    frame_payload(payload)
}

/// The payload in what was received.
pub fn payload_of_received(received: &[u8]) -> (r: Result<Vec<u8>, QlasterError>)
    ensures
        match r {
            Ok(payload) => received_payload(received@) == Ok::<_, ErrorModel>(payload@),
            Err(e) => received_payload(received@) == Err::<Seq<u8>, _>(e@),
        },
{
    let n: usize = received.len();
    if n == 0 {
        return Err(
            QlasterError::UdsError(String::from_str("peer closed UDS before sending ready frame")),
        );
    }
    if n < 4 {
        return Err(QlasterError::UdsError(text_with_number("short recvmsg (", n, " bytes)")));
    }
    let len: u32 = get_u32_le(received, 0);
    let needed: u64 = 4 + len as u64;
    if needed > n as u64 {
        let mut words = String::from_str("ancillary frame larger than buffer (");
        put_decimal(&mut words, needed);
        words.append(" > ");
        put_decimal(&mut words, n as u64);
        words.append(")");
        return Err(QlasterError::UdsError(words));
    }
    let part = vstd::slice::slice_subrange(received, 4, 4 + len as usize);
    let mut payload: Vec<u8> = Vec::new();
    crate::types::header::put_bytes(&mut payload, part);
    assert(payload@ =~= part@);
    Ok(payload)
}

/// What came of sending a frame.
pub enum Sent {
    /// The system call failed.
    Failed,
    /// Only some of the bytes went out; the words say how many.
    Partial(String),
    /// All went out.
    Complete,
}

/// What came of sending `total` bytes, given what the system call returned.
pub fn judge_sent(returned: i64, total: usize) -> (r: Sent)
    ensures
        match r {
            Sent::Failed => returned < 0,
            Sent::Partial(words) => {
                &&& returned >= 0
                &&& returned != total
                &&& words@ == "partial sendmsg: "@ + decimal(returned as nat) + " of "@ + decimal(
                    total as nat,
                ) + " bytes"@
            },
            Sent::Complete => returned == total,
        },
{
    if returned < 0 {
        return Sent::Failed;
    }
    if returned as u64 != total as u64 {
        let mut words = String::from_str("partial sendmsg: ");
        put_decimal(&mut words, returned as u64);
        words.append(" of ");
        put_decimal(&mut words, total as u64);
        words.append(" bytes");
        return Sent::Partial(words);
    }
    Sent::Complete
}

/// The descriptors that came with a frame.
pub struct ReceivedFds {
    /// The one that was waited for.
    pub kept: Option<i32>,
    /// Those that are too many, and are to be closed so that they do not leak.
    pub extra: Vec<i32>,
}

/// Tells the descriptor to keep from those to close: the first that came is kept.
pub fn keep_first(fds: &[i32]) -> (r: ReceivedFds)
    ensures
        fds@.len() == 0 ==> r.kept is None && r.extra@.len() == 0,
        fds@.len() > 0 ==> r.kept == Some(fds@[0]) && r.extra@ == fds@.skip(1),
{
    let mut extra: Vec<i32> = Vec::new();
    if fds.len() == 0 {
        return ReceivedFds { kept: None, extra };
    }
    let mut k: usize = 1;
    while k < fds.len()
        invariant
            1 <= k <= fds@.len(),
            extra@ == fds@.subrange(1, k as int),
        decreases fds@.len() - k,
    {
        extra.push(fds[k]);
        k += 1;
        assert(extra@ =~= fds@.subrange(1, k as int));
    }
    assert(extra@ =~= fds@.skip(1));
    ReceivedFds { kept: Some(fds[0]), extra }
}

/// A frame that was sent with a descriptor and received whole gives its payload.
pub proof fn law_sent_frame_is_received(payload: Seq<u8>)
    requires
        payload.len() <= u32::MAX,
    ensures
        framed_bytes(payload) is Ok,
        received_payload(framed_bytes(payload)->Ok_0) == Ok::<_, ErrorModel>(payload),
{
    let n = payload.len() as u32;
    let bytes = framed_bytes(payload)->Ok_0;
    assert(bytes.subrange(0, 4) =~= le_u32(n));
    lemma_u32_read_back(bytes, 0, n);
    assert(bytes.subrange(4, 4 + n) =~= payload);
}

} // verus!
