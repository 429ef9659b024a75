//! Bounded queues of the `crossbeam-queue` crate, of updates for the consumer.

use crate::types::frame::ServerModel;
use crate::types::update::Update;
use crossbeam_queue::ArrayQueue;
use vstd::prelude::*;

verus! {

/// `crossbeam_queue::ArrayQueue`, a bounded queue.
#[verifier::external_type_specification]
#[verifier::external_body]
#[verifier::reject_recursive_types(T)]
pub struct ExArrayQueue<T>(crossbeam_queue::ArrayQueue<T>);

/// The updates in a queue, the oldest first.
pub uninterp spec fn queue_items(queue: ArrayQueue<Update>) -> Seq<ServerModel>;

/// How many updates a queue was made for.
pub uninterp spec fn queue_capacity(queue: ArrayQueue<Update>) -> nat;

/// The items of a queue once one more is forced into it: a full queue loses its
/// oldest item.
pub open spec fn forced<T>(items: Seq<T>, capacity: nat, item: T) -> Seq<T> {
    if items.len() < capacity {
        items.push(item)
    } else {
        items.drop_first().push(item)
    }
}

/// `ArrayQueue::new`, which panics on a capacity of zero and on one too large:
/// an empty queue of that capacity.
#[verifier::external_body]
pub(crate) fn queue_new(capacity: usize) -> (queue: ArrayQueue<Update>)
    requires
        0 < capacity <= 0x10_0000,
    ensures
        queue_items(queue) == Seq::<ServerModel>::empty(),
        queue_capacity(queue) == capacity,
{
    ArrayQueue::new(capacity)
}

/// `ArrayQueue::force_push`: the update becomes the newest, in place of the
/// oldest where the queue is full.
#[verifier::external_body]
pub(crate) fn queue_force_push(queue: &mut ArrayQueue<Update>, update: Update)
    ensures
        queue_items(*final(queue)) == forced(
            queue_items(*old(queue)),
            queue_capacity(*old(queue)),
            update@,
        ),
        queue_capacity(*final(queue)) == queue_capacity(*old(queue)),
{
    let _ = queue.force_push(update);
}

/// `ArrayQueue::pop`: the oldest update leaves; there is none where the queue
/// is empty.
#[verifier::external_body]
pub(crate) fn queue_pop(queue: &mut ArrayQueue<Update>) -> (r: Option<Update>)
    ensures
        r is Some == (queue_items(*old(queue)).len() > 0),
        r matches Some(update) ==> update@ == queue_items(*old(queue))[0],
        queue_items(*final(queue)) == (if r is Some {
            queue_items(*old(queue)).drop_first()
        } else {
            queue_items(*old(queue))
        }),
        queue_capacity(*final(queue)) == queue_capacity(*old(queue)),
{
    queue.pop()
}

} // verus!
