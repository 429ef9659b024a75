//! What pushes, pops and closes of a ring do, byte by byte.

use crate::error::{ErrorModel, QlasterError};
use crate::le::{law_least_significant_byte_first, le_u32};
use crate::shm::ring::{
    after_length, asks_for, body_view, concat_parts, framed, is_pow2, is_pow2_ceiling, pop_frame,
    popped, popped_part, pushed, ring_frame, unit_view, went_in, AfterLength, ConsumerModel,
    ProducerModel, CLOSE_SENTINEL, MIN_RING_CAPACITY,
};
use crate::shm::uds::received_payload;
use crate::text::decimal;
use crate::transport::admitted;
use vstd::arithmetic::power2::{lemma_pow2_unfold, pow2};
use vstd::prelude::*;
use vstd::string::*;

verus! {

/// A body of less than 2^32 bytes whose frame fits into the ring is framed: its
/// length in four bytes with the least significant one first, then itself. A longer
/// body is refused for its length, and a frame that does not fit for its size, and
/// no other.
pub proof fn law_bodies_that_fit_are_framed(body: Seq<u8>, capacity: nat, closed: bool)
    ensures
        body.len() <= 0xFFFF_FFFF && 4 + body.len() <= capacity ==> {
            &&& framed(body, capacity) == Ok::<_, ErrorModel>(le_u32(body.len() as u32) + body)
            &&& framed(body, capacity) matches Ok(f) && {
                &&& f.len() == 4 + body.len()
                &&& f[0] + 0x100 * f[1] + 0x1_0000 * f[2] + 0x100_0000 * f[3] == body.len()
                &&& f.skip(4) == body
                &&& admitted(body, capacity, closed) == (if closed {
                    None
                } else {
                    Some(f)
                })
            }
        },
        body.len() > 0xFFFF_FFFF ==> framed(body, capacity) == Err::<Seq<u8>, _>(
            ErrorModel::PayloadTooLarge { found: body.len(), max: 0xFFFF_FFFF },
        ),
        body.len() <= 0xFFFF_FFFF && 4 + body.len() > capacity ==> framed(body, capacity) == Err::<
            Seq<u8>,
            _,
        >(
            ErrorModel::ShmError(
                "frame "@ + decimal(4 + body.len()) + " > ring capacity "@ + decimal(capacity),
            ),
        ),
        !(body.len() <= 0xFFFF_FFFF && 4 + body.len() <= capacity) ==> admitted(
            body,
            capacity,
            closed,
        ) is None,
{
    law_least_significant_byte_first(body.len() as u32, 0, body, 0);
    if body.len() <= 0xFFFF_FFFF {
        assert((le_u32(body.len() as u32) + body).skip(4) =~= body);
    }
}

/// The parts of a body go out one behind the other.
pub proof fn law_parts_are_put_together(parts: Seq<&[u8]>, part: &[u8])
    ensures
        concat_parts(Seq::empty()) == Seq::<u8>::empty(),
        concat_parts(parts.push(part)) == concat_parts(parts) + part@,
{
    assert(parts.push(part).drop_last() =~= parts);
}

/// A push offers the frame of the body to the ring, once, if it fits: the answer is
/// the ring's, and a frame that found no room is counted. A body that does not fit
/// is refused and the ring is left alone.
pub proof fn law_push_offers_the_frame(
    before: ProducerModel,
    after: ProducerModel,
    body: Seq<u8>,
    r: Result<(), ErrorModel>,
)
    requires
        pushed(before, after, body, r),
    ensures
        body.len() <= 0xFFFF_FFFF && 4 + body.len() <= before.capacity ==> {
            &&& after.capacity == before.capacity
            &&& after.offers == before.offers.push((le_u32(body.len() as u32) + body, r is Ok))
            &&& r is Ok ==> after.dropped_frames == before.dropped_frames
            &&& r is Err ==> {
                &&& r == Err::<(), _>(ErrorModel::ShmFull)
                &&& after.dropped_frames == (before.dropped_frames + 1) % 0x1_0000_0000_0000_0000
            }
        },
        !(body.len() <= 0xFFFF_FFFF && 4 + body.len() <= before.capacity) ==> {
            &&& after == before
            &&& r is Err
            &&& r != Err::<(), _>(ErrorModel::ShmFull)
        },
{
}

/// What is offered is noted, with the ring's answer, behind all that was offered
/// before; what went in is what was taken of it, in order. A dropped frame is counted
/// and changes nothing else. The close is four bytes of 255.
pub proof fn law_offers_are_noted(p: ProducerModel, bytes: Seq<u8>, accepted: bool)
    ensures
        p.offer(bytes, accepted).offers == p.offers.push((bytes, accepted)),
        p.offer(bytes, accepted).capacity == p.capacity,
        p.offer(bytes, accepted).dropped_frames == p.dropped_frames,
        went_in(p.offer(bytes, accepted).offers) == (if accepted {
            went_in(p.offers) + bytes
        } else {
            went_in(p.offers)
        }),
        went_in(Seq::empty()) == Seq::<u8>::empty(),
        p.drop_one().offers == p.offers,
        p.drop_one().capacity == p.capacity,
        p.dropped_frames < 0xFFFF_FFFF_FFFF_FFFF ==> p.drop_one().dropped_frames
            == p.dropped_frames + 1,
        p.dropped_frames == 0xFFFF_FFFF_FFFF_FFFF ==> p.drop_one().dropped_frames == 0,
        le_u32(CLOSE_SENTINEL) == seq![255u8, 255u8, 255u8, 255u8],
{
    assert(p.offers.push((bytes, accepted)).drop_last() =~= p.offers);
    assert(le_u32(CLOSE_SENTINEL) =~= seq![255u8, 255u8, 255u8, 255u8]);
}

/// A reader makes of bytes what stands there: a length in four bytes with the least
/// significant one first, and as many bytes behind it; four bytes of 255 are the
/// close; less than that is nothing.
pub proof fn law_bytes_are_read_as_they_stand(stream: Seq<u8>)
    ensures
        stream.len() < 4 ==> pop_frame(stream) == (None::<Seq<u8>>, false),
        stream.len() >= 4 ==> {
            let n = stream[0] + 0x100 * stream[1] + 0x1_0000 * stream[2] + 0x100_0000 * stream[3];
            &&& n == 0xFFFF_FFFF ==> pop_frame(stream) == (None::<Seq<u8>>, true)
            &&& n < 0xFFFF_FFFF && stream.len() < 4 + n ==> pop_frame(stream) == (
                None::<Seq<u8>>,
                false,
            )
            &&& n < 0xFFFF_FFFF && stream.len() >= 4 + n ==> pop_frame(stream) == (
                Some(stream.subrange(4, 4 + n)),
                false,
            )
        },
{
    if stream.len() >= 4 {
        law_least_significant_byte_first(0, 0, stream.take(4), 0);
    }
}

/// A pop that gives a body took its frame from the ring and nothing else; one that
/// gives none took the close, which is noted, or a cut-off frame or nothing, and
/// nothing is noted. A closed ring stays closed.
pub proof fn law_pop_takes_one_frame(
    before: ConsumerModel,
    after: ConsumerModel,
    body: Option<Seq<u8>>,
)
    requires
        popped(before, after, body),
    ensures
        after.capacity == before.capacity,
        before.closed ==> after.closed,
        body matches Some(b) ==> {
            &&& b.len() < 0xFFFF_FFFF
            &&& after.taken == before.taken + le_u32(b.len() as u32) + b
            &&& after.closed == before.closed
            &&& after.asked == before.asked + (if b.len() == 0 {
                seq![4nat]
            } else {
                seq![4nat, b.len()]
            })
        },
        body is None && after.closed && !before.closed ==> {
            &&& after.taken == before.taken + seq![255u8, 255u8, 255u8, 255u8]
            &&& after.asked == before.asked.push(4)
        },
        body is None && after.closed == before.closed && !before.closed ==> exists|part: Seq<u8>|
            {
                &&& after.taken == #[trigger] (before.taken + part)
                &&& part.len() >= 4 ==> part.len() < 4 + part[0] + 0x100 * part[1] + 0x1_0000
                    * part[2] + 0x100_0000 * part[3]
            },
{
    let part = choose|part: Seq<u8>| popped_part(before, after, body, part);
    law_bytes_are_read_as_they_stand(part);
    if part.len() >= 4 {
        law_least_significant_byte_first(0, 0, part.take(4), 0);
    }
    match body {
        Some(b) => {
            law_least_significant_byte_first(b.len() as u32, 0, b, 0);
            assert(before.taken + ring_frame(b) =~= before.taken + le_u32(b.len() as u32) + b);
            if b.len() > 0 {
                assert(seq![4nat].push(b.len()) =~= seq![4nat, b.len()]);
            }
        },
        None => {
            if after.closed && !before.closed {
                assert(part =~= seq![255u8, 255u8, 255u8, 255u8]);
                assert(before.asked + seq![4nat] =~= before.asked.push(4));
            } else {
                assert(after.taken == before.taken + part);
            }
        },
    }
}

/// A pop asks for four bytes, and then for as many as they say, if they say any and
/// are not the close.
pub proof fn law_pop_asks_for_what_is_said(part: Seq<u8>)
    ensures
        part.len() < 4 ==> asks_for(part) == seq![4nat],
        part.len() >= 4 ==> {
            let n = part[0] + 0x100 * part[1] + 0x1_0000 * part[2] + 0x100_0000 * part[3];
            asks_for(part) == (if n == 0 || n == 0xFFFF_FFFF {
                seq![4nat]
            } else {
                seq![4nat, n as nat]
            })
        },
{
    if part.len() >= 4 {
        law_least_significant_byte_first(0, 0, part.take(4), 0);
        let n = part[0] + 0x100 * part[1] + 0x1_0000 * part[2] + 0x100_0000 * part[3];
        assert(seq![4nat].push(n as nat) =~= seq![4nat, n as nat]);
    }
}

/// What a length says: the close, or how long the body is.
pub proof fn law_lengths_say_what_follows(b: Seq<u8>)
    requires
        b.len() == 4,
    ensures
        ({
            let n = b[0] + 0x100 * b[1] + 0x1_0000 * b[2] + 0x100_0000 * b[3];
            after_length(b) == (if n == 0xFFFF_FFFF {
                AfterLength::Closed
            } else {
                AfterLength::Body(n as u32)
            })
        }),
{
    law_least_significant_byte_first(0, 0, b, 0);
}

/// The powers of two are one and the doubles of powers of two; no other number is
/// one. The ceiling of a number is the only power of two that is not below it and
/// less than twice it, and that of zero is one.
pub proof fn law_powers_of_two(n: nat, p: nat)
    ensures
        is_pow2(1),
        !is_pow2(0),
        is_pow2(2 * n) == is_pow2(n),
        n % 2 == 1 && n > 1 ==> !is_pow2(n),
        is_pow2_ceiling(p, n) && n > 0 ==> is_pow2(p) && n <= p < 2 * n,
        is_pow2_ceiling(p, 0) ==> p == 1,
        MIN_RING_CAPACITY == 64,
{
    vstd::arithmetic::power2::lemma2_to64();
    assert(pow2(0) == 1);
    assert forall|k: nat| #[trigger] pow2(k) > 0 by {
        vstd::arithmetic::power2::lemma_pow2_pos(k);
    }
    if is_pow2(n) {
        let k = choose|k: nat| n == #[trigger] pow2(k);
        lemma_pow2_unfold(k + 1);
        assert(2 * n == pow2(k + 1));
        if k > 0 {
            lemma_pow2_unfold(k);
        }
    }
    if is_pow2(2 * n) {
        let k = choose|k: nat| 2 * n == #[trigger] pow2(k);
        if k > 0 {
            lemma_pow2_unfold(k);
            assert(n == pow2((k - 1) as nat));
        }
    }
    if is_pow2_ceiling(p, 0) {
        assert(is_pow2(1));
        let k = choose|k: nat| p == #[trigger] pow2(k);
        assert(pow2(k) > 0);
    }
    if is_pow2_ceiling(p, n) && n > 0 && p >= 2 * n {
        let k = choose|k: nat| p == #[trigger] pow2(k);
        lemma_pow2_unfold(k);
        assert(is_pow2(pow2((k - 1) as nat)));
    }
}

/// What came with a descriptor is a length in four bytes, with the least significant
/// one first, and as many bytes behind it; what follows is left alone. Fewer bytes
/// than that are refused, each time for another reason.
pub proof fn law_payload_stands_behind_its_length(received: Seq<u8>)
    ensures
        received.len() == 0 ==> received_payload(received) == Err::<Seq<u8>, _>(
            ErrorModel::UdsError("peer closed UDS before sending ready frame"@),
        ),
        0 < received.len() < 4 ==> received_payload(received) == Err::<Seq<u8>, _>(
            ErrorModel::UdsError("short recvmsg ("@ + decimal(received.len()) + " bytes)"@),
        ),
        received.len() >= 4 ==> {
            let n = received[0] + 0x100 * received[1] + 0x1_0000 * received[2] + 0x100_0000
                * received[3];
            &&& 4 + n <= received.len() ==> received_payload(received) == Ok::<_, ErrorModel>(
                received.subrange(4, 4 + n),
            )
            &&& 4 + n > received.len() ==> received_payload(received) == Err::<Seq<u8>, _>(
                ErrorModel::UdsError(
                    "ancillary frame larger than buffer ("@ + decimal((4 + n) as nat) + " > "@
                        + decimal(received.len()) + ")"@,
                ),
            )
        },
{
    if received.len() >= 4 {
        law_least_significant_byte_first(0, 0, received, 0);
    }
}

/// What a push or a pop gave is told as it was.
pub proof fn law_outcomes_are_told_as_they_were(bytes: Vec<u8>, e: QlasterError)
    ensures
        unit_view(Ok(())) == Ok::<(), ErrorModel>(()),
        unit_view(Err(e)) == Err::<(), _>(e@),
        body_view(Some(bytes)) == Some(bytes@),
        body_view(None) == None::<Seq<u8>>,
{
}

} // verus!
