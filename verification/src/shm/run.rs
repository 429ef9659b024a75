//! What comes out of a ring over a whole run of pushes, pops and a close.

use crate::error::ErrorModel;
use crate::le::{le_u32, lemma_u32_read_back};
use crate::shm::ring::{
    after_length, asks_for, law_close_is_read_as_close, law_pushed_frame_is_popped, pop_frame,
    popped_part, pushed, ring_frame, ring_frames, went_in, AfterLength, ConsumerModel,
    ProducerModel, CLOSE_SENTINEL, FRAME_LEN_BYTES,
};
use vstd::prelude::*;

verus! {

/// One call on either end of a ring, and what came of it.
pub enum RingStep {
    /// A body was pushed.
    Push { body: Seq<u8>, r: Result<(), ErrorModel> },
    /// The ring was closed, and the close found room or not.
    Close { accepted: bool },
    /// A frame was popped.
    Pop { popped: Option<Seq<u8>> },
}

/// Both ends of a ring with one writer and one reader.
pub struct RingState {
    pub producer: ProducerModel,
    pub consumer: ConsumerModel,
}

impl RingState {
    /// What went in and was not taken yet.
    pub open spec fn pending(self) -> Seq<u8> {
        went_in(self.producer.offers).skip(self.consumer.taken.len() as int)
    }

    /// Nothing is in the ring, and no close was read.
    pub open spec fn is_fresh(self) -> bool {
        went_in(self.producer.offers) == self.consumer.taken && !self.consumer.closed
    }
}

/// The sum of the numbers.
pub open spec fn total(asks: Seq<nat>) -> nat
    decreases asks.len(),
{
    if asks.len() == 0 {
        0
    } else {
        total(asks.drop_last()) + asks.last()
    }
}

/// A queue serves a reader in order: the part is the first of what is pending,
/// as much of it as the reader asks for, or all.
pub open spec fn served(pending: Seq<u8>, part: Seq<u8>) -> bool {
    &&& part.len() <= pending.len()
    &&& part == pending.take(part.len() as int)
    &&& part.len() == pending.len() || part.len() == total(asks_for(part))
    &&& part.len() <= total(asks_for(part))
}

/// What the step does to the two ends.
pub open spec fn happens(before: RingState, step: RingStep, after: RingState) -> bool {
    match step {
        RingStep::Push { body, r } => {
            &&& pushed(before.producer, after.producer, body, r)
            &&& after.consumer == before.consumer
        },
        RingStep::Close { accepted } => {
            &&& after.producer == before.producer.offer(le_u32(CLOSE_SENTINEL), accepted)
            &&& after.consumer == before.consumer
        },
        RingStep::Pop { popped } => {
            &&& after.producer == before.producer
            &&& exists|part: Seq<u8>|
                {
                    &&& #[trigger] popped_part(before.consumer, after.consumer, popped, part)
                    &&& served(before.pending(), part)
                }
        },
    }
}

/// The steps lead from each state to the next.
pub open spec fn is_run(states: Seq<RingState>, steps: Seq<RingStep>) -> bool {
    &&& states.len() == steps.len() + 1
    &&& forall|k: int|
        0 <= k < steps.len() ==> happens(states[k], #[trigger] steps[k], states[k + 1])
}

/// The step put a body into the ring.
pub open spec fn is_pushed(step: RingStep) -> bool {
    step matches RingStep::Push { r, .. } && r is Ok
}

/// The step closed the ring.
pub open spec fn is_closed(step: RingStep) -> bool {
    step == (RingStep::Close { accepted: true })
}

/// No body is as long as the close says, and nothing goes in behind a close.
pub open spec fn is_orderly(steps: Seq<RingStep>) -> bool {
    &&& forall|k: int|
        0 <= k < steps.len() && is_pushed(#[trigger] steps[k]) ==> steps[k]->body.len()
            < CLOSE_SENTINEL
    &&& forall|j: int, k: int|
        0 <= j < k < steps.len() && is_closed(#[trigger] steps[j]) ==> !is_pushed(
            #[trigger] steps[k],
        ) && !is_closed(steps[k])
}

/// The bodies that were put into the ring, in order.
pub open spec fn bodies_in(steps: Seq<RingStep>) -> Seq<Seq<u8>>
    decreases steps.len(),
{
    if steps.len() == 0 {
        Seq::empty()
    } else if is_pushed(steps.last()) {
        bodies_in(steps.drop_last()).push(steps.last()->body)
    } else {
        bodies_in(steps.drop_last())
    }
}

/// The bodies that were popped, in order.
pub open spec fn bodies_out(steps: Seq<RingStep>) -> Seq<Seq<u8>>
    decreases steps.len(),
{
    if steps.len() == 0 {
        Seq::empty()
    } else {
        match steps.last() {
            RingStep::Pop { popped: Some(body) } => bodies_out(steps.drop_last()).push(body),
            _ => bodies_out(steps.drop_last()),
        }
    }
}

/// Whether a close went in.
pub open spec fn close_in(steps: Seq<RingStep>) -> bool {
    exists|k: int| 0 <= k < steps.len() && is_closed(#[trigger] steps[k])
}

/// What is in the ring after these steps, and how the two ends stand.
spec fn in_step(steps: Seq<RingStep>, s: RingState) -> bool {
    let ins = bodies_in(steps);
    let outs = bodies_out(steps);
    let close = if close_in(steps) && !s.consumer.closed {
        le_u32(CLOSE_SENTINEL)
    } else {
        Seq::empty()
    };
    &&& outs.len() <= ins.len()
    &&& outs == ins.take(outs.len() as int)
    &&& s.consumer.taken.len() <= went_in(s.producer.offers).len()
    &&& s.pending() == ring_frames(ins.skip(outs.len() as int)) + close
    &&& s.consumer.closed ==> close_in(steps) && outs.len() == ins.len()
    &&& forall|i: int| 0 <= i < ins.len() ==> (#[trigger] ins[i]).len() < CLOSE_SENTINEL
}

/// One more frame stands behind the others.
proof fn lemma_one_more_frame(bodies: Seq<Seq<u8>>, body: Seq<u8>)
    ensures
        ring_frames(bodies.push(body)) == ring_frames(bodies) + ring_frame(body),
    decreases bodies.len(),
{
    let more = bodies.push(body);
    if bodies.len() == 0 {
        reveal_with_fuel(ring_frames, 2);
        assert(more.drop_first() =~= Seq::empty());
        assert(ring_frames(more) =~= ring_frame(body));
        assert(ring_frames(bodies) + ring_frame(body) =~= ring_frame(body));
    } else {
        lemma_one_more_frame(bodies.drop_first(), body);
        assert(more.drop_first() =~= bodies.drop_first().push(body));
        assert(ring_frames(more) =~= ring_frames(bodies) + ring_frame(body));
    }
}

/// How many bytes a reader asks for in all: those of a length, and as many as
/// the length says.
proof fn lemma_total_asked(part: Seq<u8>)
    ensures
        total(asks_for(part)) == FRAME_LEN_BYTES + (if part.len() < FRAME_LEN_BYTES {
            0
        } else {
            match after_length(part.take(FRAME_LEN_BYTES as int)) {
                AfterLength::Closed => 0int,
                AfterLength::Body(n) => n as int,
            }
        }),
{
    reveal_with_fuel(total, 3);
    let head = seq![FRAME_LEN_BYTES as nat];
    assert(head.drop_last() =~= Seq::empty());
    if part.len() >= FRAME_LEN_BYTES {
        if let AfterLength::Body(n) = after_length(part.take(FRAME_LEN_BYTES as int)) {
            assert(head.push(n as nat).drop_last() =~= head);
        }
    }
}

/// What a pop gives where a whole frame is first in the ring.
proof fn lemma_pop_of_frame(pending: Seq<u8>, part: Seq<u8>, body: Seq<u8>, rest: Seq<u8>)
    requires
        pending == ring_frame(body) + rest,
        body.len() < CLOSE_SENTINEL,
        served(pending, part),
    ensures
        part == ring_frame(body),
        pop_frame(part) == (Some(body), false),
{
    lemma_total_asked(part);
    let n = body.len() as u32;
    assert(part.len() >= 4);
    assert(part.take(4) =~= le_u32(n));
    assert(part.take(4).subrange(0, 4) =~= le_u32(n));
    lemma_u32_read_back(part.take(4), 0, n);
    assert(part =~= ring_frame(body));
    law_pushed_frame_is_popped(body, 4 + body.len(), Seq::empty());
    assert(ring_frame(body) + Seq::empty() =~= ring_frame(body));
}

/// What a pop gives where the close is first in the ring.
proof fn lemma_pop_of_close(part: Seq<u8>)
    requires
        served(le_u32(CLOSE_SENTINEL), part),
    ensures
        part == le_u32(CLOSE_SENTINEL),
        pop_frame(part) == (None::<Seq<u8>>, true),
{
    let close = le_u32(CLOSE_SENTINEL);
    lemma_total_asked(part);
    assert(part =~= close);
    law_close_is_read_as_close(Seq::empty());
    assert(close + Seq::empty() =~= close);
}

/// What a pop does to what is in the ring.
proof fn lemma_pop_keeps_step(steps: Seq<RingStep>, s: RingState, step: RingStep, t: RingState)
    requires
        in_step(steps, s),
        step is Pop,
        happens(s, step, t),
    ensures
        in_step(steps.push(step), t),
        pop_result(steps, s, step, t),
{
    let more = steps.push(step);
    assert(more.drop_last() =~= steps);
    lemma_close_in(steps, step);
    let ins = bodies_in(steps);
    let outs = bodies_out(steps);
    let pending = s.pending();
    let part = choose|part: Seq<u8>|
        {
            &&& #[trigger] popped_part(s.consumer, t.consumer, step->popped, part)
            &&& served(pending, part)
        };
    assert(t.pending() =~= pending.skip(part.len() as int));
    let left = ins.skip(outs.len() as int);
    if left.len() > 0 {
        let close = if close_in(steps) {
            le_u32(CLOSE_SENTINEL)
        } else {
            Seq::empty()
        };
        let rest = ring_frames(left.drop_first()) + close;
        assert(left[0] == ins[outs.len() as int]);
        assert(pending =~= ring_frame(left[0]) + rest);
        lemma_pop_of_frame(pending, part, left[0], rest);
        assert(ins.skip(outs.len() as int + 1) =~= left.drop_first());
        assert(t.pending() =~= rest);
        assert(outs.push(left[0]) =~= ins.take(outs.len() as int + 1));
    } else if close_in(steps) && !s.consumer.closed {
        assert(pending =~= le_u32(CLOSE_SENTINEL));
        lemma_pop_of_close(part);
        assert(t.pending() =~= Seq::empty());
    } else {
        assert(pending =~= Seq::empty());
        assert(part =~= Seq::empty());
        assert(t.pending() =~= Seq::empty());
    }
}

/// Whether a close went in, with one more step.
proof fn lemma_close_in(steps: Seq<RingStep>, step: RingStep)
    ensures
        close_in(steps.push(step)) == (close_in(steps) || is_closed(step)),
{
    let more = steps.push(step);
    if close_in(steps) {
        let k = choose|k: int| 0 <= k < steps.len() && is_closed(#[trigger] steps[k]);
        assert(is_closed(more[k]));
    }
    if is_closed(step) {
        assert(is_closed(more[steps.len() as int]));
    }
    if close_in(more) {
        let k = choose|k: int| 0 <= k < more.len() && is_closed(#[trigger] more[k]);
        if k < steps.len() {
            assert(is_closed(steps[k]));
        }
    }
}

/// What a pop after these steps gives: the oldest body that is in the ring,
/// whole; or none. None comes with the close once all bodies are out.
pub open spec fn pop_result(
    steps: Seq<RingStep>,
    before: RingState,
    step: RingStep,
    after: RingState,
) -> bool {
    let ins = bodies_in(steps);
    let outs = bodies_out(steps);
    if outs.len() < ins.len() {
        &&& step == (RingStep::Pop { popped: Some(ins[outs.len() as int]) })
        &&& !after.consumer.closed
    } else {
        &&& step == (RingStep::Pop { popped: None })
        &&& after.consumer.closed == close_in(steps)
    }
}

/// What a push or a close does to what is in the ring.
proof fn lemma_write_keeps_step(steps: Seq<RingStep>, s: RingState, step: RingStep, t: RingState)
    requires
        in_step(steps, s),
        !(step is Pop),
        happens(s, step, t),
        is_orderly(steps.push(step)),
    ensures
        in_step(steps.push(step), t),
{
    let more = steps.push(step);
    assert(more.drop_last() =~= steps);
    lemma_close_in(steps, step);
    let ins = bodies_in(steps);
    let outs = bodies_out(steps);
    let left = ins.skip(outs.len() as int);
    let n = s.consumer.taken.len() as int;
    let all = went_in(s.producer.offers);
    assert(more.last() == step);
    assert(is_pushed(step) || is_closed(step) ==> !close_in(steps)) by {
        if close_in(steps) {
            let k = choose|k: int| 0 <= k < steps.len() && is_closed(#[trigger] steps[k]);
            assert(is_closed(more[k]));
            assert(!is_pushed(more[steps.len() as int]) && !is_closed(more[steps.len() as int]));
        }
    }
    if t.producer.offers != s.producer.offers {
        assert(t.producer.offers.drop_last() =~= s.producer.offers);
    }
    if is_pushed(step) {
        let body = step->body;
        lemma_one_more_frame(left, body);
        assert(more[steps.len() as int] == step);
        assert(ins.push(body).skip(outs.len() as int) =~= left.push(body));
        assert(ins.push(body).take(outs.len() as int) =~= ins.take(outs.len() as int));
        assert((all + ring_frame(body)).skip(n) =~= all.skip(n) + ring_frame(body));
        assert(t.pending() =~= ring_frames(left.push(body)) + Seq::empty());
    } else if is_closed(step) {
        let close = le_u32(CLOSE_SENTINEL);
        assert((all + close).skip(n) =~= all.skip(n) + close);
        assert(t.pending() =~= ring_frames(left) + close);
    }
}

/// Every run that begins with nothing in the ring stays in step.
proof fn lemma_run_in_step(states: Seq<RingState>, steps: Seq<RingStep>)
    requires
        is_run(states, steps),
        is_orderly(steps),
        states[0].is_fresh(),
    ensures
        in_step(steps, states.last()),
    decreases steps.len(),
{
    if steps.len() == 0 {
        assert(states.last().pending() =~= Seq::empty());
        assert(ring_frames(Seq::empty()) + Seq::<u8>::empty() =~= Seq::empty());
        assert(bodies_in(steps).skip(0) =~= Seq::empty());
    } else {
        let n = steps.len() - 1;
        let steps0 = steps.drop_last();
        let states0 = states.drop_last();
        assert(is_run(states0, steps0)) by {
            assert forall|k: int| 0 <= k < steps0.len() implies happens(
                states0[k],
                #[trigger] steps0[k],
                states0[k + 1],
            ) by {
                assert(happens(states[k], steps[k], states[k + 1]));
            }
        }
        assert(is_orderly(steps0)) by {
            assert(forall|k: int| 0 <= k < steps0.len() ==> steps0[k] == steps[k]);
        }
        lemma_run_in_step(states0, steps0);
        assert(steps =~= steps0.push(steps[n]));
        assert(happens(states[n], steps[n], states[n + 1]));
        if steps[n] is Pop {
            lemma_pop_keeps_step(steps0, states[n], steps[n], states[n + 1]);
        } else {
            lemma_write_keeps_step(steps0, states[n], steps[n], states[n + 1]);
        }
    }
}

/// A ring with one writer and one reader gives back what was put into it, over
/// any run of pushes and pops, with a close behind the last push: the bodies
/// come out in order and whole, as far as they were popped. Each pop gives the
/// oldest body that is in the ring. With none in it a pop gives nothing; if the
/// close went in, it is noted then, and stays so.
pub proof fn law_ring_gives_back_in_order(states: Seq<RingState>, steps: Seq<RingStep>, k: int)
    requires
        is_run(states, steps),
        is_orderly(steps),
        states[0].is_fresh(),
        0 <= k < steps.len(),
    ensures
        bodies_out(steps).len() <= bodies_in(steps).len(),
        bodies_out(steps) == bodies_in(steps).take(bodies_out(steps).len() as int),
        steps[k] is Pop ==> pop_result(steps.take(k), states[k], steps[k], states[k + 1]),
        states[k].consumer.closed ==> states[k + 1].consumer.closed,
{
    lemma_run_in_step(states, steps);
    let steps0 = steps.take(k);
    let states0 = states.take(k + 1);
    assert(is_run(states0, steps0)) by {
        assert forall|j: int| 0 <= j < steps0.len() implies happens(
            states0[j],
            #[trigger] steps0[j],
            states0[j + 1],
        ) by {
            assert(happens(states[j], steps[j], states[j + 1]));
        }
    }
    assert(is_orderly(steps0)) by {
        assert(forall|j: int| 0 <= j < steps0.len() ==> steps0[j] == steps[j]);
    }
    lemma_run_in_step(states0, steps0);
    assert(happens(states[k], steps[k], states[k + 1]));
    if steps[k] is Pop {
        lemma_pop_keeps_step(steps0, states[k], steps[k], states[k + 1]);
    }
}

} // verus!
