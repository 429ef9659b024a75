//! Frames on their way out, and the sink of one slot.

use crate::buffer::{bytes_as_slice, bytes_len, bytes_view};
use crate::le::le_u32;
use crate::shm::ring::{
    concat_parts, framed, ProducerModel, ShmRingProducer, CLOSE_SENTINEL,
};
use bytes::Bytes;
use std::time::Instant;
use vstd::prelude::*;

verus! {

/// A data frame before it goes into rings, in the two pieces that are put
/// together there.
#[derive(Debug)]
pub struct OutboundFrame {
    pub header: Bytes,
    pub payload: Bytes,
    /// When the frame was made.
    pub frame_start: Instant,
}

impl OutboundFrame {
    /// What becomes the body of the frame in a ring.
    pub open spec fn body(self) -> Seq<u8> {
        bytes_view(self.header) + bytes_view(self.payload)
    }

    /// The size of the two pieces together.
    pub fn total_len(&self) -> (n: usize)
        requires
            self.body().len() <= usize::MAX,
        ensures
            n == self.body().len(),
    {
        bytes_len(&self.header) + bytes_len(&self.payload)
    }
}

impl Clone for OutboundFrame {
    fn clone(&self) -> (r: OutboundFrame)
        ensures
            bytes_view(r.header) == bytes_view(self.header),
            bytes_view(r.payload) == bytes_view(self.payload),
            r.frame_start == self.frame_start,
    {
        OutboundFrame {
            header: self.header.clone(),
            payload: self.payload.clone(),
            frame_start: self.frame_start,
        }
    }
}

/// Where the frames of one slot go: a ring, and what wakes its reader.
pub struct SlotSink<W> {
    ring: ShmRingProducer,
    closed: bool,
    wakeup: W,
}

/// The state of a [`SlotSink`] but for what wakes the reader.
pub struct SinkModel {
    pub ring: ProducerModel,
    /// Whether the sink was closed.
    pub closed: bool,
}

/// What a sink with such a ring offers to it for the body of a frame: nothing
/// once it is closed, and for a body that is too large.
pub open spec fn admitted(body: Seq<u8>, capacity: nat, closed: bool) -> Option<Seq<u8>> {
    match framed(body, capacity) {
        Ok(bytes) => if closed {
            None
        } else {
            Some(bytes)
        },
        Err(_) => None,
    }
}

/// A sink that was closed offers nothing to its ring any more.
pub proof fn law_closed_sink_admits_nothing(body: Seq<u8>, capacity: nat)
    ensures
        admitted(body, capacity, true) is None,
{
}

impl<W> View for SlotSink<W> {
    type V = SinkModel;

    closed spec fn view(&self) -> SinkModel {
        SinkModel { ring: self.ring@, closed: self.closed }
    }
}

impl<W> SlotSink<W> {
    /// What wakes the reader.
    pub closed spec fn waker(self) -> W {
        self.wakeup
    }

    /// The sink with the given ring and wakeup.
    pub fn shm(ring: ShmRingProducer, wakeup: W) -> (r: SlotSink<W>)
        ensures
            r@ == (SinkModel { ring: ring@, closed: false }),
            r.waker() == wakeup,
    {
        SlotSink { ring, closed: false, wakeup }
    }

    /// What wakes the reader.
    pub fn wakeup(&self) -> (w: &W)
        ensures
            *w == self.waker(),
    {
        &self.wakeup
    }

    /// Pushes a frame into the ring; if it went in, the reader is to be woken.
    /// The frame comes back where the sink is closed, where it is too large for
    /// the ring, and where it finds no room.
    pub fn try_push(&mut self, frame: OutboundFrame) -> (r: Result<(), OutboundFrame>)
        requires
            frame.body().len() <= usize::MAX,
        ensures
            r matches Err(back) ==> back == frame,
            final(self).waker() == old(self).waker(),
            match admitted(frame.body(), old(self)@.ring.capacity, old(self)@.closed) {
                None => r is Err && final(self)@ == old(self)@,
                Some(bytes) => final(self)@ == (SinkModel {
                    ring: old(self)@.ring.push(bytes, r is Ok),
                    ..old(self)@
                }),
            },
    {
        if self.closed {
            return Err(frame);
        }
        let parts: [&[u8]; 2] = [bytes_as_slice(&frame.header), bytes_as_slice(&frame.payload)];
        proof {
            assert(parts@.drop_last() =~= seq![parts@[0]]);
            assert(parts@.drop_last().drop_last() =~= Seq::empty());
            reveal_with_fuel(concat_parts, 3);
            assert(concat_parts(parts@) =~= frame.body());
        }
        match self.ring.try_push(parts.as_slice()) {
            Ok(_) => Ok(()),
            Err(_) => Err(frame),
        }
    }

    /// Closes the sink: the close is offered to the ring, and no frame after it.
    /// The reader is to be woken.
    pub fn close(&mut self)
        ensures
            exists|accepted: bool|
                final(self)@ == (SinkModel {
                    ring: #[trigger] old(self)@.ring.offer(le_u32(CLOSE_SENTINEL), accepted),
                    closed: true,
                }),
            final(self).waker() == old(self).waker(),
    {
        self.ring.close();
        self.closed = true;
        proof {
            let close = le_u32(CLOSE_SENTINEL);
            let accepted = choose|accepted: bool|
                self.ring@ == #[trigger] old(self)@.ring.offer(close, accepted);
            assert(self@ == (SinkModel {
                ring: old(self)@.ring.offer(close, accepted),
                closed: true,
            }));
        }
    }
}

} // verus!
