//! The byte ring between a sender and one consumer: frames in a queue of the
//! `shaq` crate, each behind its length.

use crate::error::{text_with_number, ErrorModel, QlasterError};
use crate::le::{
    get_u32_le, le_u32, le_u32_at, lemma_u32_read_back, lemma_u32_write_back, put_u32_le,
};
use crate::text::{decimal, put_decimal};
use crate::types::header::put_bytes;
use shaq::mpmc;
use std::num::NonZeroUsize;
use vstd::arithmetic::power2::{lemma_pow2_unfold, pow2};
use vstd::prelude::*;
use vstd::string::*;

verus! {

/// The bytes of a ring file that are neither queue nor queue header.
pub const RING_HEADER_SIZE: usize = 0;

/// The size of the length in front of a frame.
pub const FRAME_LEN_BYTES: usize = 4;

/// The length that says that no frame follows and the ring is closed.
pub const CLOSE_SENTINEL: u32 = u32::MAX;

/// The least capacity of a ring.
pub const MIN_RING_CAPACITY: usize = 64;

/// `shaq::mpmc::Producer`, the writing end of a queue in shared memory.
#[verifier::external_type_specification]
#[verifier::external_body]
#[verifier::reject_recursive_types(T)]
pub struct ExProducer<T>(shaq::mpmc::Producer<T>);

/// `shaq::mpmc::Consumer`, the reading end of a queue in shared memory.
#[verifier::external_type_specification]
#[verifier::external_body]
#[verifier::reject_recursive_types(T)]
pub struct ExConsumer<T>(shaq::mpmc::Consumer<T>);

/// The slices that were offered to a queue through a writing end so far, in
/// order, and of each whether it went in.
pub uninterp spec fn ring_offers(producer: mpmc::Producer<u8>) -> Seq<(Seq<u8>, bool)>;

/// The bytes that a reading end has taken from its queue so far, in order.
pub uninterp spec fn ring_taken(consumer: mpmc::Consumer<u8>) -> Seq<u8>;

/// How many bytes a queue was asked for through a reading end, each time so far,
/// in order, whether or not it had them.
pub uninterp spec fn ring_asked(consumer: mpmc::Consumer<u8>) -> Seq<nat>;

/// What `shaq::mpmc::minimum_file_size::<u8>` says for a capacity.
pub uninterp spec fn ring_file_size(capacity: nat) -> nat;

/// `shaq::mpmc::minimum_file_size::<u8>`: a function of the capacity, never
/// less than it. It overflows only where no power of two that fits in `usize` is
/// as large as the capacity.
#[verifier::external_body]
fn minimum_file_size(capacity: usize) -> (size: usize)
    requires
        capacity <= usize::MAX / 2 + 1,
    ensures
        size == ring_file_size(capacity as nat),
        size >= capacity,
{
    mpmc::minimum_file_size::<u8>(capacity)
}

/// `Producer::try_write_slice`: the bytes are offered to the queue, and go in,
/// all or none of them. Whether there is room rests with the process at the
/// other end; for no bytes there is.
#[verifier::external_body]
fn ring_write(producer: &mut mpmc::Producer<u8>, bytes: &[u8]) -> (accepted: bool)
    ensures
        bytes@.len() == 0 ==> accepted,
        ring_offers(*final(producer)) == ring_offers(*old(producer)).push((bytes@, accepted)),
{
    producer.try_write_slice(bytes)
}

/// The bytes of a batch, none where there is no batch.
pub open spec fn batch_bytes(batch: Option<Vec<u8>>) -> Seq<u8> {
    match batch {
        Some(bytes) => bytes@,
        None => Seq::empty(),
    }
}

/// `Consumer::try_reserve_read_batch`, copied out: the queue is asked for `max`
/// bytes, and at least one and at most that many are taken from it, or nothing.
/// Which bytes there are rests with the process at the other end.
#[verifier::external_body]
fn ring_read(consumer: &mut mpmc::Consumer<u8>, max: usize) -> (batch: Option<Vec<u8>>)
    requires
        max > 0,
    ensures
        batch matches Some(bytes) ==> 0 < bytes@.len() <= max,
        ring_asked(*final(consumer)) == ring_asked(*old(consumer)).push(max as nat),
        ring_taken(*final(consumer)) == ring_taken(*old(consumer)) + batch_bytes(batch),
{
    let batch = consumer.try_reserve_read_batch(NonZeroUsize::new(max)?)?;
    Some(batch.iter().copied().collect())
}

/// Whether `n` is a power of two.
pub open spec fn is_pow2(n: nat) -> bool {
    exists|k: nat| n == #[trigger] pow2(k)
}

/// Whether `p` is the least power of two that is not below `n`.
pub open spec fn is_pow2_ceiling(p: nat, n: nat) -> bool {
    &&& is_pow2(p)
    &&& n <= p
    &&& forall|q: nat| is_pow2(q) && n <= q ==> p <= q
}

/// Powers of two double from each to the next.
proof fn lemma_pow2_step(k: nat)
    ensures
        pow2(k + 1) == 2 * pow2(k),
        pow2(k) >= 1,
    decreases k,
{
    lemma_pow2_unfold(k + 1);
    if k == 0 {
        vstd::arithmetic::power2::lemma2_to64();
    } else {
        lemma_pow2_step((k - 1) as nat);
    }
}

/// A larger exponent gives a larger power.
proof fn lemma_pow2_grows(j: nat, k: nat)
    requires
        j < k,
    ensures
        2 * pow2(j) <= pow2(k),
    decreases k,
{
    lemma_pow2_step((k - 1) as nat);
    if j < k - 1 {
        lemma_pow2_grows(j, (k - 1) as nat);
    }
}

/// Whether `n` is a power of two.
pub fn is_power_of_two(n: usize) -> (r: bool)
    ensures
        r == is_pow2(n as nat),
{
    if n == 0 {
        proof {
            assert forall|k: nat| 0 != #[trigger] pow2(k) by {
                lemma_pow2_step(k);
            }
        }
        return false;
    }
    let mut m: usize = n;
    while m % 2 == 0
        invariant
            m > 0,
            is_pow2(n as nat) == is_pow2(m as nat),
        decreases m,
    {
        proof {
            let half = (m / 2) as nat;
            if is_pow2(m as nat) {
                let k = choose|k: nat| m as nat == #[trigger] pow2(k);
                if k == 0 {
                    vstd::arithmetic::power2::lemma2_to64();
                } else {
                    lemma_pow2_step((k - 1) as nat);
                    assert(half == pow2((k - 1) as nat));
                }
            }
            if is_pow2(half) {
                let k = choose|k: nat| half == #[trigger] pow2(k);
                lemma_pow2_step(k);
                assert(m as nat == pow2(k + 1));
            }
        }
        m = m / 2;
    }
    proof {
        vstd::arithmetic::power2::lemma2_to64();
        assert(pow2(0) == 1);
        if is_pow2(m as nat) {
            let k = choose|k: nat| m as nat == #[trigger] pow2(k);
            if k > 0 {
                lemma_pow2_step((k - 1) as nat);
            }
        }
    }
    m == 1
}

/// The least power of two that is not below `n`.
pub fn next_power_of_two(n: usize) -> (p: usize)
    requires
        n <= usize::MAX / 2 + 1,
    ensures
        is_pow2_ceiling(p as nat, n as nat),
        n > 1 ==> p < 2 * n,
        n <= 1 ==> p == 1,
{
    let mut p: usize = 1;
    let ghost mut k: nat = 0;
    proof {
        vstd::arithmetic::power2::lemma2_to64();
    }
    while p < n
        invariant
            n <= usize::MAX / 2 + 1,
            p == pow2(k),
            p >= 1,
            p == 1 || p < 2 * n,
            forall|j: nat| j < k ==> #[trigger] pow2(j) < n,
        decreases 2 * n - p,
    {
        proof {
            lemma_pow2_step(k);
            k = k + 1;
        }
        p = p * 2;
    }
    proof {
        assert forall|q: nat| is_pow2(q) && n <= q implies p <= q by {
            let j = choose|j: nat| q == #[trigger] pow2(j);
            if j < k {
                assert(pow2(j) < n);
            } else if j > k {
                lemma_pow2_grows(k, j);
            }
        }
    }
    p
}

/// The largest power of two that fits in `usize`.
proof fn lemma_half_of_usize()
    ensures
        is_pow2((usize::MAX / 2 + 1) as nat),
{
    vstd::arithmetic::power2::lemma2_to64();
    vstd::arithmetic::power2::lemma2_to64_rest();
    assert(usize::MAX / 2 + 1 == pow2(31) || usize::MAX / 2 + 1 == pow2(63));
}

/// How a ring file is laid out.
pub struct RingPlan {
    pub capacity: usize,
    pub file_size: usize,
}

/// The layout of the file of a ring with at least the given capacity: the
/// capacity is rounded up to a power of two.
pub fn plan_ring(capacity: usize) -> (r: Result<RingPlan, QlasterError>)
    requires
        capacity <= usize::MAX / 2 + 1,
    ensures
        match r {
            Ok(plan) => {
                &&& capacity >= MIN_RING_CAPACITY
                &&& is_pow2_ceiling(plan.capacity as nat, capacity as nat)
                &&& plan.file_size == ring_file_size(plan.capacity as nat)
            },
            Err(e) => {
                &&& capacity < MIN_RING_CAPACITY
                &&& e@ == ErrorModel::ShmError(
                    "capacity "@ + decimal(capacity as nat) + " too small (min 64)"@,
                )
            },
        },
{
    if capacity < MIN_RING_CAPACITY {
        return Err(
            QlasterError::ShmError(text_with_number("capacity ", capacity, " too small (min 64)")),
        );
    }
    let normalized: usize = next_power_of_two(capacity);
    proof {
        lemma_half_of_usize();
    }
    Ok(RingPlan { capacity: normalized, file_size: minimum_file_size(normalized) })
}

/// The parts one behind the other.
pub open spec fn concat_parts(parts: Seq<&[u8]>) -> Seq<u8>
    decreases parts.len(),
{
    if parts.len() == 0 {
        Seq::empty()
    } else {
        concat_parts(parts.drop_last()) + parts.last()@
    }
}

/// A body behind its length, as it goes into the ring.
pub open spec fn ring_frame(body: Seq<u8>) -> Seq<u8> {
    le_u32(body.len() as u32) + body
}

/// What goes into a ring of the given capacity for a body, or why nothing does.
pub open spec fn framed(body: Seq<u8>, capacity: nat) -> Result<Seq<u8>, ErrorModel> {
    if body.len() > u32::MAX {
        Err(ErrorModel::PayloadTooLarge { found: body.len(), max: u32::MAX as nat })
    } else if FRAME_LEN_BYTES + body.len() > capacity {
        Err(
            ErrorModel::ShmError(
                "frame "@ + decimal(FRAME_LEN_BYTES as nat + body.len()) + " > ring capacity "@
                    + decimal(capacity),
            ),
        )
    } else {
        Ok(ring_frame(body))
    }
}

/// How many bytes the parts have together.
fn parts_len(parts: &[&[u8]]) -> (n: usize)
    requires
        concat_parts(parts@).len() <= usize::MAX,
    ensures
        n == concat_parts(parts@).len(),
{
    let mut n: usize = 0;
    let mut k: usize = 0;
    while k < parts.len()
        invariant
            k <= parts@.len(),
            n == concat_parts(parts@.take(k as int)).len(),
            concat_parts(parts@).len() <= usize::MAX,
        decreases parts@.len() - k,
    {
        proof {
            lemma_parts_prefix(parts@, k as int + 1);
            assert(parts@.take(k as int + 1).drop_last() =~= parts@.take(k as int));
        }
        n = n + parts[k].len();
        k += 1;
    }
    assert(parts@.take(k as int) =~= parts@);
    n
}

/// The first parts have no more bytes than all.
proof fn lemma_parts_prefix(parts: Seq<&[u8]>, k: int)
    requires
        0 <= k <= parts.len(),
    ensures
        concat_parts(parts.take(k)).len() <= concat_parts(parts).len(),
    decreases parts.len() - k,
{
    if k == parts.len() {
        assert(parts.take(k) =~= parts);
    } else {
        assert(parts.take(k + 1).drop_last() =~= parts.take(k));
        lemma_parts_prefix(parts, k + 1);
    }
}

/// What goes into a ring of the given capacity for a body in parts.
pub fn build_frame(parts: &[&[u8]], capacity: usize) -> (r: Result<Vec<u8>, QlasterError>)
    requires
        concat_parts(parts@).len() <= usize::MAX,
    ensures
        match r {
            Ok(frame) => framed(concat_parts(parts@), capacity as nat) == Ok::<_, ErrorModel>(
                frame@,
            ),
            Err(e) => framed(concat_parts(parts@), capacity as nat) == Err::<Seq<u8>, _>(e@),
        },
{
    let body_len: usize = parts_len(parts);
    if body_len as u64 > u32::MAX as u64 {
        return Err(QlasterError::PayloadTooLarge { found: body_len, max: u32::MAX as usize });
    }
    let frame_size: u64 = FRAME_LEN_BYTES as u64 + body_len as u64;
    if frame_size > capacity as u64 {
        let mut words = String::from_str("frame ");
        put_decimal(&mut words, frame_size);
        words.append(" > ring capacity ");
        put_decimal(&mut words, capacity as u64);
        return Err(QlasterError::ShmError(words));
    }
    let mut frame: Vec<u8> = Vec::with_capacity(frame_size as usize);
    put_u32_le(&mut frame, body_len as u32);
    let ghost head = frame@;
    let mut k: usize = 0;
    assert(frame@ =~= head + concat_parts(parts@.take(0)));
    while k < parts.len()
        invariant
            k <= parts@.len(),
            frame@ == head + concat_parts(parts@.take(k as int)),
        decreases parts@.len() - k,
    {
        proof {
            assert(parts@.take(k as int + 1).drop_last() =~= parts@.take(k as int));
        }
        put_bytes(&mut frame, parts[k]);
        k += 1;
        assert(frame@ =~= head + concat_parts(parts@.take(k as int)));
    }
    proof {
        assert(parts@.take(k as int) =~= parts@);
        assert(head =~= le_u32(body_len as u32));
    }
    Ok(frame)
}

/// What closes a ring.
pub fn close_frame() -> (bytes: Vec<u8>)
    ensures
        bytes@ == le_u32(CLOSE_SENTINEL),
{
    let mut bytes: Vec<u8> = Vec::new();
    put_u32_le(&mut bytes, CLOSE_SENTINEL);
    assert(bytes@ =~= le_u32(CLOSE_SENTINEL));
    bytes
}

/// The writing end of a ring.
pub struct ShmRingProducer {
    producer: mpmc::Producer<u8>,
    capacity: usize,
    dropped_frames: u64,
}

/// The state of a [`ShmRingProducer`] on this side of the ring.
#[verifier::ext_equal]
pub struct ProducerModel {
    pub capacity: nat,
    pub dropped_frames: u64,
    /// What was offered to the ring so far, and of each whether it went in.
    pub offers: Seq<(Seq<u8>, bool)>,
}

/// What went in of what was offered, one behind the other.
pub open spec fn went_in(offers: Seq<(Seq<u8>, bool)>) -> Seq<u8>
    decreases offers.len(),
{
    if offers.len() == 0 {
        Seq::empty()
    } else if offers.last().1 {
        went_in(offers.drop_last()) + offers.last().0
    } else {
        went_in(offers.drop_last())
    }
}

impl ProducerModel {
    /// One more frame found no room; the count wraps around.
    pub open spec fn drop_one(self) -> ProducerModel {
        ProducerModel {
            dropped_frames: ((self.dropped_frames + 1) % 0x1_0000_0000_0000_0000) as u64,
            ..self
        }
    }

    /// Bytes were offered to the ring, and went in or found no room.
    pub open spec fn offer(self, bytes: Seq<u8>, accepted: bool) -> ProducerModel {
        ProducerModel { offers: self.offers.push((bytes, accepted)), ..self }
    }

    /// A frame was offered to the ring; one that found no room is counted.
    pub open spec fn push(self, frame: Seq<u8>, accepted: bool) -> ProducerModel {
        if accepted {
            self.offer(frame, true)
        } else {
            self.offer(frame, false).drop_one()
        }
    }
}

/// An outcome with its error as a model.
pub open spec fn unit_view(r: Result<(), QlasterError>) -> Result<(), ErrorModel> {
    match r {
        Ok(_) => Ok(()),
        Err(e) => Err(e@),
    }
}

/// What a push does: a body that is too large is refused before the ring sees
/// it; the frame of any other is offered to the ring, and counted where it finds
/// no room.
pub open spec fn pushed(
    before: ProducerModel,
    after: ProducerModel,
    body: Seq<u8>,
    r: Result<(), ErrorModel>,
) -> bool {
    match framed(body, before.capacity) {
        Err(fault) => r == Err::<(), _>(fault) && after == before,
        Ok(frame) => match r {
            Ok(_) => after == before.push(frame, true),
            Err(e) => e == ErrorModel::ShmFull && after == before.push(frame, false),
        },
    }
}

impl View for ShmRingProducer {
    type V = ProducerModel;

    closed spec fn view(&self) -> ProducerModel {
        ProducerModel {
            capacity: self.capacity as nat,
            dropped_frames: self.dropped_frames,
            offers: ring_offers(self.producer),
        }
    }
}

impl ShmRingProducer {
    /// The writing end of a queue of the given capacity.
    pub fn from_queue(producer: mpmc::Producer<u8>, capacity: usize) -> (r: ShmRingProducer)
        ensures
            r@ == (ProducerModel {
                capacity: capacity as nat,
                dropped_frames: 0,
                offers: ring_offers(producer),
            }),
    {
        ShmRingProducer { producer, capacity, dropped_frames: 0 }
    }

    /// How many bytes the ring holds.
    pub fn capacity(&self) -> (n: usize)
        ensures
            n == self@.capacity,
    {
        self.capacity
    }

    /// How many frames found no room.
    pub fn dropped_frames(&self) -> (n: u64)
        ensures
            n == self@.dropped_frames,
    {
        self.dropped_frames
    }

    /// What comes of a frame that was offered to the ring.
    pub fn settle_write(&mut self, accepted: bool) -> (r: Result<(), QlasterError>)
        ensures
            accepted ==> r is Ok && final(self)@ == old(self)@,
            !accepted ==> {
                &&& r matches Err(e) && e@ == ErrorModel::ShmFull
                &&& final(self)@ == old(self)@.drop_one()
            },
    {
        if accepted {
            Ok(())
        } else {
            self.dropped_frames = self.dropped_frames.wrapping_add(1);
            Err(QlasterError::ShmFull)
        }
    }

    /// Pushes a frame with the body in parts: the length and the parts are
    /// offered to the ring together. A body that is too large is refused before
    /// the ring sees it; one that finds no room is counted.
    pub fn try_push(&mut self, parts: &[&[u8]]) -> (r: Result<(), QlasterError>)
        requires
            concat_parts(parts@).len() <= usize::MAX,
        ensures
            pushed(old(self)@, final(self)@, concat_parts(parts@), unit_view(r)),
    {
        match build_frame(parts, self.capacity) {
            Ok(frame) => {
                let accepted = ring_write(&mut self.producer, frame.as_slice());
                self.settle_write(accepted)
            },
            Err(e) => Err(e),
        }
    }

    /// Tells the consumer that nothing more will come, if there is room to: the
    /// close is offered to the ring, once.
    pub fn close(&mut self)
        ensures
            exists|accepted: bool|
                final(self)@ == #[trigger] old(self)@.offer(le_u32(CLOSE_SENTINEL), accepted),
    {
        let bytes = close_frame();
        let accepted = ring_write(&mut self.producer, bytes.as_slice());
        assert(self@ == old(self)@.offer(le_u32(CLOSE_SENTINEL), accepted));
    }
}

/// What the length of a frame asks for next.
pub enum AfterLength {
    /// The ring is closed.
    Closed,
    /// The body has that many bytes, maybe none.
    Body(u32),
}

/// What the length of a frame asks for next.
pub open spec fn after_length(len_bytes: Seq<u8>) -> AfterLength {
    if le_u32_at(len_bytes, 0) == CLOSE_SENTINEL {
        AfterLength::Closed
    } else {
        AfterLength::Body(le_u32_at(len_bytes, 0))
    }
}

/// What the length of a frame asks for next.
pub fn interpret_length(len_bytes: &[u8]) -> (r: AfterLength)
    requires
        len_bytes@.len() == FRAME_LEN_BYTES,
    ensures
        r == after_length(len_bytes@),
{
    let frame_len: u32 = get_u32_le(len_bytes, 0);
    if frame_len == CLOSE_SENTINEL {
        AfterLength::Closed
    } else {
        AfterLength::Body(frame_len)
    }
}

/// What was read, if it is as long as was asked for.
pub fn whole_batch(batch: Option<Vec<u8>>, len: usize) -> (r: Option<Vec<u8>>)
    ensures
        r == (match batch {
            Some(bytes) => if bytes@.len() == len {
                Some(bytes)
            } else {
                None
            },
            None => None,
        }),
{
    match batch {
        Some(bytes) => if bytes.len() == len {
            Some(bytes)
        } else {
            None
        },
        None => None,
    }
}

/// What a reader makes of bytes from a ring: the body of the frame that they
/// begin with, if it is whole, and whether they begin with a close.
pub open spec fn pop_frame(stream: Seq<u8>) -> (Option<Seq<u8>>, bool) {
    if stream.len() < FRAME_LEN_BYTES {
        (None, false)
    } else {
        match after_length(stream.take(FRAME_LEN_BYTES as int)) {
            AfterLength::Closed => (None, true),
            AfterLength::Body(n) => if stream.len() < FRAME_LEN_BYTES + n {
                (None, false)
            } else {
                (
                    Some(
                        stream.subrange(FRAME_LEN_BYTES as int, FRAME_LEN_BYTES + n),
                    ),
                    false,
                )
            },
        }
    }
}

/// What was pushed is popped: of the bytes that a frame put into the ring, with
/// anything behind them, a reader makes the body again.
pub proof fn law_pushed_frame_is_popped(body: Seq<u8>, capacity: nat, rest: Seq<u8>)
    requires
        framed(body, capacity) is Ok,
        body.len() < CLOSE_SENTINEL,
    ensures
        pop_frame(framed(body, capacity)->Ok_0 + rest) == (Some(body), false),
{
    let n = body.len() as u32;
    let stream = ring_frame(body) + rest;
    assert(stream.take(4).subrange(0, 4) =~= le_u32(n));
    lemma_u32_read_back(stream.take(4), 0, n);
    assert(stream.subrange(4, 4 + n) =~= body);
}

/// What closes a ring is read as its close, and as no frame.
pub proof fn law_close_is_read_as_close(rest: Seq<u8>)
    ensures
        pop_frame(le_u32(CLOSE_SENTINEL) + rest) == (None::<Seq<u8>>, true),
{
    let stream = le_u32(CLOSE_SENTINEL) + rest;
    assert(stream.take(4).subrange(0, 4) =~= le_u32(CLOSE_SENTINEL));
    lemma_u32_read_back(stream.take(4), 0, CLOSE_SENTINEL);
}

/// The reading end of a ring.
pub struct ShmRingConsumer {
    consumer: mpmc::Consumer<u8>,
    capacity: usize,
    closed: bool,
}

/// The state of a [`ShmRingConsumer`] on this side of the ring.
pub struct ConsumerModel {
    pub capacity: nat,
    pub closed: bool,
    /// How many bytes the ring was asked for so far, each time.
    pub asked: Seq<nat>,
    /// What was taken from the ring so far.
    pub taken: Seq<u8>,
}

impl View for ShmRingConsumer {
    type V = ConsumerModel;

    closed spec fn view(&self) -> ConsumerModel {
        ConsumerModel {
            capacity: self.capacity as nat,
            closed: self.closed,
            asked: ring_asked(self.consumer),
            taken: ring_taken(self.consumer),
        }
    }
}

impl ShmRingConsumer {
    /// The reading end of a queue in a file of the given size.
    pub fn from_queue(consumer: mpmc::Consumer<u8>, capacity: usize) -> (r: ShmRingConsumer)
        ensures
            r@ == (ConsumerModel {
                capacity: capacity as nat,
                closed: false,
                asked: ring_asked(consumer),
                taken: ring_taken(consumer),
            }),
    {
        ShmRingConsumer { consumer, capacity, closed: false }
    }

    /// The size of the ring's file.
    pub fn capacity(&self) -> (n: usize)
        ensures
            n == self@.capacity,
    {
        self.capacity
    }

    /// Whether the sender closed the ring, or its file is gone.
    pub fn is_closed(&self, file_exists: bool) -> (r: bool)
        ensures
            r == (self@.closed || !file_exists),
    {
        self.closed || !file_exists
    }

    /// How many bytes the body of the next frame has, given what was read for
    /// its length. There is no next frame where that is not whole, and where
    /// it says that the ring is closed, which is noted.
    pub fn begin_pop(&mut self, batch: Option<Vec<u8>>) -> (r: Option<u32>)
        ensures
            match batch {
                Some(len_bytes) => if len_bytes@.len() != FRAME_LEN_BYTES {
                    r is None && final(self)@ == old(self)@
                } else {
                    match after_length(len_bytes@) {
                        AfterLength::Closed => r is None && final(self)@ == (ConsumerModel {
                            closed: true,
                            ..old(self)@
                        }),
                        AfterLength::Body(n) => r == Some(n) && final(self)@ == old(self)@,
                    }
                },
                None => r is None && final(self)@ == old(self)@,
            },
    {
        match whole_batch(batch, FRAME_LEN_BYTES) {
            Some(len_bytes) => match interpret_length(len_bytes.as_slice()) {
                AfterLength::Closed => {
                    self.closed = true;
                    None
                },
                AfterLength::Body(n) => Some(n),
            },
            None => None,
        }
    }

    /// Pops one frame and returns its body. There is none where the ring is
    /// empty, where the next thing in it was its close, and where the frame was
    /// cut off, which is lost then.
    pub fn try_pop(&mut self) -> (r: Option<Vec<u8>>)
        ensures
            popped(old(self)@, final(self)@, body_view(r)),
    {
        let ghost taken0 = ring_taken(self.consumer);
        let ghost asked0 = ring_asked(self.consumer);
        let len_batch = ring_read(&mut self.consumer, FRAME_LEN_BYTES);
        let ghost head = batch_bytes(len_batch);
        assert(ring_taken(self.consumer) =~= taken0 + head);
        assert(ring_asked(self.consumer) =~= asked0 + seq![FRAME_LEN_BYTES as nat]);
        assert(head.len() >= 4 ==> head.take(4) =~= head);
        let r = match self.begin_pop(len_batch) {
            None => {
                assert(popped_part(old(self)@, self@, None, head));
                None
            },
            Some(0) => {
                let body: Vec<u8> = Vec::new();
                proof {
                    lemma_whole_frame(head, body@);
                    assert(head + body@ =~= head);
                    assert(popped_part(old(self)@, self@, Some(body@), head));
                }
                Some(body)
            },
            Some(n) => {
                let batch = ring_read(&mut self.consumer, n as usize);
                let ghost tail = batch_bytes(batch);
                assert(ring_taken(self.consumer) =~= taken0 + (head + tail));
                assert(ring_asked(self.consumer) =~= asked0 + seq![FRAME_LEN_BYTES as nat].push(
                    n as nat,
                ));
                assert((head + tail).take(4) =~= head);
                let r = whole_batch(batch, n as usize);
                proof {
                    if tail.len() == n {
                        lemma_whole_frame(head, tail);
                    }
                    assert(popped_part(old(self)@, self@, body_view(r), head + tail));
                }
                r
            },
        };
        r
    }
}

/// The body as a sequence.
pub open spec fn body_view(body: Option<Vec<u8>>) -> Option<Seq<u8>> {
    match body {
        Some(bytes) => Some(bytes@),
        None => None,
    }
}

/// How many bytes a reader asks for, each time, to get this part: those of a
/// length, and then as many as the length says, if it was whole and says any.
pub open spec fn asks_for(part: Seq<u8>) -> Seq<nat> {
    let head = seq![FRAME_LEN_BYTES as nat];
    if part.len() < FRAME_LEN_BYTES {
        head
    } else {
        match after_length(part.take(FRAME_LEN_BYTES as int)) {
            AfterLength::Closed => head,
            AfterLength::Body(n) => if n == 0 {
                head
            } else {
                head.push(n as nat)
            },
        }
    }
}

/// The part was asked for and taken from the ring, the body is what a reader
/// makes of it, and a close in it is noted. With a body, nothing but its frame
/// was taken; never more than was asked for.
pub open spec fn popped_part(
    before: ConsumerModel,
    after: ConsumerModel,
    body: Option<Seq<u8>>,
    part: Seq<u8>,
) -> bool {
    &&& after.asked == before.asked + asks_for(part)
    &&& after.taken == before.taken + part
    &&& after.capacity == before.capacity
    &&& pop_frame(part).0 == body
    &&& after.closed == (before.closed || pop_frame(part).1)
    &&& body matches Some(b) ==> part == ring_frame(b) && b.len() < CLOSE_SENTINEL
    &&& part.len() > FRAME_LEN_BYTES ==> (after_length(
        part.take(FRAME_LEN_BYTES as int),
    ) matches AfterLength::Body(n) && part.len() <= FRAME_LEN_BYTES + n)
}

/// What a pop does: it asks the ring for a frame, takes some part from it, and
/// gives what a reader makes of that.
pub open spec fn popped(before: ConsumerModel, after: ConsumerModel, body: Option<Seq<u8>>) -> bool {
    exists|part: Seq<u8>| popped_part(before, after, body, part)
}

/// A length and as many bytes as it says are a whole frame.
proof fn lemma_whole_frame(head: Seq<u8>, body: Seq<u8>)
    requires
        head.len() == FRAME_LEN_BYTES,
        le_u32_at(head, 0) == body.len(),
        body.len() < CLOSE_SENTINEL,
    ensures
        head + body == ring_frame(body),
        pop_frame(head + body) == (Some(body), false),
{
    lemma_u32_write_back(head, 0);
    assert(head.subrange(0, 4) =~= head);
    assert((head + body).take(4) =~= head);
    assert((head + body).subrange(4, 4 + body.len() as int) =~= body);
}

/// The frames of the bodies, one behind the other.
pub open spec fn ring_frames(bodies: Seq<Seq<u8>>) -> Seq<u8>
    decreases bodies.len(),
{
    if bodies.len() == 0 {
        Seq::empty()
    } else {
        ring_frame(bodies[0]) + ring_frames(bodies.drop_first())
    }
}

/// Frames come out of a ring as they went in: if the bytes that a reader took
/// are the first of those that a writer put in, the bodies that it popped are
/// the first of those that were pushed.
pub proof fn law_popped_bodies_are_the_pushed_ones(pushed: Seq<Seq<u8>>, popped: Seq<Seq<u8>>)
    requires
        forall|i: int| 0 <= i < pushed.len() ==> (#[trigger] pushed[i]).len() < CLOSE_SENTINEL,
        forall|i: int| 0 <= i < popped.len() ==> (#[trigger] popped[i]).len() < CLOSE_SENTINEL,
        ring_frames(popped).is_prefix_of(ring_frames(pushed)),
    ensures
        popped.is_prefix_of(pushed),
    decreases popped.len(),
{
    if popped.len() > 0 {
        let taken = ring_frames(popped);
        let written = ring_frames(pushed);
        let b = popped[0];
        let rest_taken = ring_frames(popped.drop_first());
        assert(taken == ring_frame(b) + rest_taken);
        assert(taken.len() >= 4);
        assert(pushed.len() > 0);
        let a = pushed[0];
        let rest_written = ring_frames(pushed.drop_first());
        assert(written == ring_frame(a) + rest_written);
        assert(written.subrange(0, taken.len() as int) == taken);
        assert(written.subrange(0, 4) =~= le_u32(a.len() as u32));
        assert(written.subrange(0, 4) =~= taken.subrange(0, 4));
        assert(taken.subrange(0, 4) =~= le_u32(b.len() as u32));
        lemma_u32_read_back(written, 0, a.len() as u32);
        lemma_u32_read_back(written, 0, b.len() as u32);
        assert(a.len() == b.len());
        assert(written.subrange(4, 4 + a.len() as int) =~= a);
        assert(taken.subrange(4, 4 + b.len() as int) =~= b);
        assert(written.subrange(4, 4 + a.len() as int) =~= taken.subrange(4, 4 + b.len() as int));
        assert(a == b);
        let n = 4 + a.len() as int;
        assert(rest_taken =~= taken.skip(n));
        assert(rest_written =~= written.skip(n));
        assert(rest_written.subrange(0, rest_taken.len() as int) =~= rest_taken);
        assert forall|i: int| 0 <= i < pushed.len() - 1 implies (
        #[trigger] pushed.drop_first()[i]).len() < CLOSE_SENTINEL by {
            assert(pushed.drop_first()[i] == pushed[i + 1]);
        }
        assert forall|i: int| 0 <= i < popped.len() - 1 implies (
        #[trigger] popped.drop_first()[i]).len() < CLOSE_SENTINEL by {
            assert(popped.drop_first()[i] == popped[i + 1]);
        }
        law_popped_bodies_are_the_pushed_ones(pushed.drop_first(), popped.drop_first());
        let p = popped.drop_first();
        let q = pushed.drop_first();
        assert(q.subrange(0, p.len() as int) =~= p);
        assert forall|i: int| 0 <= i < popped.len() implies popped[i] == pushed[i] by {
            if i > 0 {
                assert(popped[i] == p[i - 1]);
                assert(q.subrange(0, p.len() as int)[i - 1] == q[i - 1]);
                assert(q[i - 1] == pushed[i]);
            }
        }
        assert(popped =~= pushed.subrange(0, popped.len() as int));
    }
}

} // verus!
