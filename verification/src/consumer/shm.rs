//! A consumer of one sender, on the near side of socket and ring.

use crate::clock::{elapsed_micros, instant_now, is_latency, is_micros_since, is_unix_nanos};
use crate::error::{ErrorModel, QlasterError};
use crate::metrics::{elapsed_since_unix_time_nanos_us, elapsed_us, QlasterConsumerMetrics};
use crate::pubkey::Pubkey;
use crate::queue::{forced, queue_capacity, queue_force_push, queue_items, queue_new, queue_pop};
use crate::sender::update::{carries, UPDATE_FRAME_BOUND};
use crate::shm::ring::{
    framed, law_pushed_frame_is_popped, pop_frame, popped, ShmRingConsumer,
};
use crate::transport::OutboundFrame;
use crate::types::account::{AccountUpdate, AccountUpdateWireMeta};
use crate::types::control::{
    keys_view, ping_frame, ConnectionReadyShm, PingRequest, SlotToken, SubscriptionModel,
    SubscriptionRequest,
};
use crate::types::frame::{
    decode_server, decode_server_frame, decode_server_frame_owned,
    decode_server_frame_owned_with_meta, ServerFrame, ServerFrameWithMeta, ServerModel,
};
use crate::types::header::UNSET_SLOT_INDEX;
use crate::types::slot::SlotUpdate;
use crate::types::transaction::TransactionUpdate;
use crate::types::update::Update;
use crossbeam_queue::ArrayQueue;
use std::time::Instant;
use vstd::prelude::*;
use vstd::string::*;

verus! {

/// How many updates of a stream wait for the caller; older ones are dropped.
pub const CONSUMER_UPDATE_QUEUE_CAPACITY: usize = 2048;

/// What the sender's answer to a first subscription came to.
pub enum HandshakeReply<F> {
    /// The slot and its ring, and the wakeup descriptor that came with it.
    Ready(ConnectionReadyShm, F),
    /// A frame of another kind.
    Unexpected(ServerFrame),
}

/// The request that opens a connection: nothing is asked for yet, and there is
/// no token.
pub fn bootstrap_request() -> (request: SubscriptionRequest)
    ensures
        request@.slot_token is None,
        request@.account_pubkeys.len() == 0,
        request@.account_owners.len() == 0,
        !request@.include_transactions,
        request@.fits(),
{
    SubscriptionRequest::new(Vec::new(), Vec::new())
}

/// Judges the sender's answer to a first subscription. It must be a handshake,
/// and its wakeup descriptor must have come with it.
pub fn accept_handshake<F>(reply: &[u8], fd: Option<F>) -> (r: Result<
    HandshakeReply<F>,
    QlasterError,
>)
    ensures
        match decode_server(reply@) {
            Err(fault) => r matches Err(e) && e@ == fault,
            Ok((ServerModel::ConnectionReadyShm(m), _)) => match fd {
                Some(fd) => r matches Ok(HandshakeReply::Ready(ready, kept)) && ready@ == m && kept
                    == fd,
                None => r matches Err(e) && e@ == ErrorModel::UdsError(
                    "ConnectionReadyShm missing eventfd"@,
                ),
            },
            Ok((m, _)) => r matches Ok(HandshakeReply::Unexpected(frame)) && frame@ == m,
        },
{
    match decode_server_frame(reply) {
        Err(e) => Err(e),
        Ok(ServerFrame::ConnectionReadyShm(ready)) => match fd {
            Some(fd) => Ok(HandshakeReply::Ready(ready, fd)),
            None => Err(
                QlasterError::UdsError(String::from_str("ConnectionReadyShm missing eventfd")),
            ),
        },
        Ok(frame) => Ok(HandshakeReply::Unexpected(frame)),
    }
}

/// The token that the sender's answer to a further subscription gives, or what
/// is wrong with it.
pub open spec fn resubscribe_token(reply: Seq<u8>) -> Result<SlotToken, ErrorModel> {
    match decode_server(reply) {
        Err(fault) => Err(fault),
        Ok((ServerModel::ConnectionReady(token), _)) => Ok(token),
        Ok((ServerModel::ConnectionReadyShm(_), _)) => Err(
            ErrorModel::UdsError("unexpected ConnectionReadyShm on re-subscribe"@),
        ),
        Ok((ServerModel::AccountUpdate(_), _)) => Err(
            ErrorModel::UdsError("AccountUpdate on UDS control channel"@),
        ),
        Ok((ServerModel::TransactionUpdate(_), _)) => Err(
            ErrorModel::UdsError("TransactionUpdate on UDS control channel"@),
        ),
        Ok((ServerModel::SlotUpdate(_), _)) => Err(
            ErrorModel::UdsError("SlotUpdate on UDS control channel"@),
        ),
    }
}

/// The token that the sender's answer to a further subscription gives.
pub fn accept_resubscribe_reply(reply: Vec<u8>) -> (r: Result<SlotToken, QlasterError>)
    ensures
        match r {
            Ok(token) => resubscribe_token(reply@) == Ok::<_, ErrorModel>(token),
            Err(e) => resubscribe_token(reply@) == Err::<SlotToken, _>(e@),
        },
{
    match decode_server_frame_owned(reply) {
        Err(e) => Err(e),
        Ok(ServerFrame::ConnectionReady(ready)) => Ok(ready.slot_token),
        Ok(ServerFrame::ConnectionReadyShm(_)) => Err(
            QlasterError::UdsError(
                String::from_str("unexpected ConnectionReadyShm on re-subscribe"),
            ),
        ),
        Ok(ServerFrame::AccountUpdate(_)) => Err(
            QlasterError::UdsError(String::from_str("AccountUpdate on UDS control channel")),
        ),
        Ok(ServerFrame::TransactionUpdate(_)) => Err(
            QlasterError::UdsError(String::from_str("TransactionUpdate on UDS control channel")),
        ),
        Ok(ServerFrame::SlotUpdate(_)) => Err(
            QlasterError::UdsError(String::from_str("SlotUpdate on UDS control channel")),
        ),
    }
}

/// The state of a [`QlasterShmConsumer`].
pub struct ShmConsumerModel {
    pub slot_token: Option<SlotToken>,
    pub updates: Seq<ServerModel>,
    pub transactions: Seq<ServerModel>,
    pub slots: Seq<ServerModel>,
}

impl ShmConsumerModel {
    /// One more update has come, and goes to the queue of its stream.
    pub open spec fn received(self, update: ServerModel) -> ShmConsumerModel {
        let n = CONSUMER_UPDATE_QUEUE_CAPACITY as nat;
        match update {
            ServerModel::AccountUpdate(_) => ShmConsumerModel {
                updates: forced(self.updates, n, update),
                ..self
            },
            ServerModel::TransactionUpdate(_) => ShmConsumerModel {
                transactions: forced(self.transactions, n, update),
                ..self
            },
            ServerModel::SlotUpdate(_) => ShmConsumerModel {
                slots: forced(self.slots, n, update),
                ..self
            },
            _ => self,
        }
    }

    /// Each queue holds updates of its stream, and not too many.
    pub open spec fn sorted(self) -> bool {
        &&& self.updates.len() <= CONSUMER_UPDATE_QUEUE_CAPACITY
        &&& self.transactions.len() <= CONSUMER_UPDATE_QUEUE_CAPACITY
        &&& self.slots.len() <= CONSUMER_UPDATE_QUEUE_CAPACITY
        &&& forall|i: int|
            0 <= i < self.updates.len() ==> (#[trigger] self.updates[i]) is AccountUpdate
        &&& forall|i: int|
            0 <= i < self.transactions.len() ==> (
            #[trigger] self.transactions[i]) is TransactionUpdate
        &&& forall|i: int| 0 <= i < self.slots.len() ==> (#[trigger] self.slots[i]) is SlotUpdate
    }
}

/// What came of a frame from the ring.
pub enum FrameOutcome {
    /// An update went to its queue.
    Enqueued,
    /// The frame was none of an update.
    NotAnUpdate(ServerFrameWithMeta),
    /// The frame could not be read.
    Failed(QlasterError),
}

/// What came of a look into the ring.
pub enum RingPoll {
    /// There was no frame.
    Empty,
    /// There was one.
    Frame(FrameOutcome),
}

/// A consumer of one sender.
pub struct QlasterShmConsumer {
    slot_token_index: u8,
    slot_token_generation: u64,
    updates: ArrayQueue<Update>,
    transactions: ArrayQueue<Update>,
    slots: ArrayQueue<Update>,
    metrics: QlasterConsumerMetrics,
}

impl View for QlasterShmConsumer {
    type V = ShmConsumerModel;

    closed spec fn view(&self) -> ShmConsumerModel {
        ShmConsumerModel {
            slot_token: if self.slot_token_index == UNSET_SLOT_INDEX {
                None
            } else {
                Some(
                    SlotToken {
                        slot_index: self.slot_token_index,
                        generation: self.slot_token_generation,
                    },
                )
            },
            updates: queue_items(self.updates),
            transactions: queue_items(self.transactions),
            slots: queue_items(self.slots),
        }
    }
}

/// What a consumer makes of the body of a frame: an update goes to the queue of
/// its stream; anything else changes nothing.
pub open spec fn frame_handled(
    body: Seq<u8>,
    before: ShmConsumerModel,
    after: ShmConsumerModel,
    outcome: FrameOutcome,
) -> bool {
    match decode_server(body) {
        Ok((update, Some(_))) => outcome is Enqueued && after == before.received(update),
        Ok((m, None)) => {
            &&& outcome matches FrameOutcome::NotAnUpdate(frame) && frame@ == (m, None::<
                AccountUpdateWireMeta,
            >)
            &&& after == before
        },
        Err(fault) => {
            &&& outcome matches FrameOutcome::Failed(e) && e@ == fault
            &&& after == before
        },
    }
}

/// What a consumer measures of a frame that took that long to read: an update
/// on every leg of its way, anything else not at all.
pub open spec fn frame_counted(
    body: Seq<u8>,
    before: QlasterConsumerMetrics,
    after: QlasterConsumerMetrics,
    read_us: u64,
) -> bool {
    match decode_server(body) {
        Ok((_, Some(meta))) => frame_measured(
            before,
            after,
            read_us,
            meta.sender_created_at_unix_nanos,
        ),
        _ => after == before,
    }
}

/// Every data-frame measurement has one more entry: that of reading is the given
/// one, those of decoding and of queueing are by the monotonic clock, and that of
/// the whole way by the wall clock.
pub open spec fn frame_measured(
    before: QlasterConsumerMetrics,
    after: QlasterConsumerMetrics,
    read_us: u64,
    created: u64,
) -> bool {
    &&& after.read@ == before.read@.record(read_us)
    &&& exists|us: u64| is_latency(us) && after.decode@ == #[trigger] before.decode@.record(us)
    &&& exists|us: u64| is_latency(us) && after.enqueue@ == #[trigger] before.enqueue@.record(us)
    &&& exists|now: u64|
        {
            &&& is_unix_nanos(now)
            &&& after.full_read@ == before.full_read@.record(#[trigger] elapsed_us(now, created))
        }
}

impl QlasterShmConsumer {
    /// The queues have their capacity, and hold what they should.
    pub closed spec fn wf(self) -> bool {
        &&& queue_capacity(self.updates) == CONSUMER_UPDATE_QUEUE_CAPACITY
        &&& queue_capacity(self.transactions) == CONSUMER_UPDATE_QUEUE_CAPACITY
        &&& queue_capacity(self.slots) == CONSUMER_UPDATE_QUEUE_CAPACITY
        &&& self@.sorted()
    }

    /// At every time each queue holds updates of its own stream, and no more
    /// than it has room for.
    pub proof fn law_queues_are_sorted(self)
        requires
            self.wf(),
        ensures
            self@.sorted(),
            self@.updates.len() <= 2048,
            self@.transactions.len() <= 2048,
            self@.slots.len() <= 2048,
            forall|i: int|
                0 <= i < self@.updates.len() ==> (#[trigger] self@.updates[i]) is AccountUpdate,
            forall|i: int|
                0 <= i < self@.transactions.len() ==> (
                #[trigger] self@.transactions[i]) is TransactionUpdate,
            forall|i: int| 0 <= i < self@.slots.len() ==> (#[trigger] self@.slots[i]) is SlotUpdate,
    {
    }

    /// What was measured.
    pub closed spec fn measured(self) -> QlasterConsumerMetrics {
        self.metrics
    }

    /// A consumer that has just been given its slot.
    pub fn new(slot_token: SlotToken, metrics: QlasterConsumerMetrics) -> (r: QlasterShmConsumer)
        ensures
            r.wf(),
            r@ == (ShmConsumerModel {
                slot_token: if slot_token.slot_index == UNSET_SLOT_INDEX {
                    None
                } else {
                    Some(slot_token)
                },
                updates: Seq::empty(),
                transactions: Seq::empty(),
                slots: Seq::empty(),
            }),
            r.measured() == metrics,
    {
        QlasterShmConsumer {
            slot_token_index: slot_token.slot_index,
            slot_token_generation: slot_token.generation,
            updates: queue_new(CONSUMER_UPDATE_QUEUE_CAPACITY),
            transactions: queue_new(CONSUMER_UPDATE_QUEUE_CAPACITY),
            slots: queue_new(CONSUMER_UPDATE_QUEUE_CAPACITY),
            metrics,
        }
    }

    /// The token of the slot, if there is one.
    pub fn slot_token(&self) -> (token: Option<SlotToken>)
        ensures
            token == self@.slot_token,
    {
        if self.slot_token_index == UNSET_SLOT_INDEX {
            return None;
        }
        Some(SlotToken::new(self.slot_token_index, self.slot_token_generation))
    }

    /// The request for accounts by key and by owner.
    pub fn subscribe_request(&self, account_pubkeys: Vec<Pubkey>, account_owners: Vec<Pubkey>) -> (r:
        SubscriptionRequest)
        ensures
            r@ == (SubscriptionModel {
                slot_token: self@.slot_token,
                account_pubkeys: keys_view(account_pubkeys@),
                account_owners: keys_view(account_owners@),
                include_transactions: false,
            }),
    {
        SubscriptionRequest::new(account_pubkeys, account_owners).with_slot_token(self.slot_token())
    }

    /// The request for transactions.
    pub fn subscribe_transactions_request(&self) -> (r: SubscriptionRequest)
        ensures
            r@ == (SubscriptionModel {
                slot_token: self@.slot_token,
                account_pubkeys: Seq::empty(),
                account_owners: Seq::empty(),
                include_transactions: true,
            }),
    {
        let r = SubscriptionRequest::transactions().with_slot_token(self.slot_token());
        assert(r@.account_pubkeys =~= Seq::empty());
        assert(r@.account_owners =~= Seq::empty());
        r
    }

    /// Takes the sender's answer to a further subscription: its token is the
    /// consumer's from now on.
    pub fn on_subscribe_reply(&mut self, reply: Vec<u8>) -> (r: Result<(), QlasterError>)
        requires
            old(self).wf(),
        ensures
            final(self).wf(),
            final(self).measured() == old(self).measured(),
            match resubscribe_token(reply@) {
                Ok(token) => r is Ok && final(self)@ == (ShmConsumerModel {
                    slot_token: if token.slot_index == UNSET_SLOT_INDEX {
                        None
                    } else {
                        Some(token)
                    },
                    ..old(self)@
                }),
                Err(fault) => (r matches Err(e) && e@ == fault) && final(self)@ == old(self)@,
            },
    {
        match accept_resubscribe_reply(reply) {
            Ok(token) => {
                self.slot_token_index = token.slot_index;
                self.slot_token_generation = token.generation;
                Ok(())
            },
            Err(e) => Err(e),
        }
    }

    /// The frame of a ping, which takes a slot.
    pub fn ping(&self) -> (r: Result<Vec<u8>, QlasterError>)
        ensures
            match self@.slot_token {
                Some(token) => r matches Ok(frame) && frame@ == ping_frame(token),
                None => r matches Err(e) && e@ == ErrorModel::MalformedPayload(
                    "cannot send ping before slot token is assigned"@,
                ),
            },
    {
        match self.slot_token() {
            Some(token) => Ok(PingRequest::new(token).encode()),
            None => Err(
                QlasterError::MalformedPayload("cannot send ping before slot token is assigned"),
            ),
        }
    }

    /// The oldest account update that waits.
    pub fn try_next_update(&mut self) -> (r: Option<AccountUpdate>)
        requires
            old(self).wf(),
        ensures
            final(self).wf(),
            final(self).measured() == old(self).measured(),
            match r {
                Some(update) => {
                    &&& old(self)@.updates.len() > 0
                    &&& old(self)@.updates[0] == ServerModel::AccountUpdate(update@)
                    &&& final(self)@ == (ShmConsumerModel {
                        updates: old(self)@.updates.drop_first(),
                        ..old(self)@
                    })
                },
                None => old(self)@.updates.len() == 0 && final(self)@ == old(self)@,
            },
    {
        match queue_pop(&mut self.updates) {
            Some(Update::Account(update)) => Some(update),
            _ => None,
        }
    }

    /// The oldest transaction update that waits.
    pub fn try_next_transaction(&mut self) -> (r: Option<TransactionUpdate>)
        requires
            old(self).wf(),
        ensures
            final(self).wf(),
            final(self).measured() == old(self).measured(),
            match r {
                Some(update) => {
                    &&& old(self)@.transactions.len() > 0
                    &&& old(self)@.transactions[0] == ServerModel::TransactionUpdate(update@)
                    &&& final(self)@ == (ShmConsumerModel {
                        transactions: old(self)@.transactions.drop_first(),
                        ..old(self)@
                    })
                },
                None => old(self)@.transactions.len() == 0 && final(self)@ == old(self)@,
            },
    {
        match queue_pop(&mut self.transactions) {
            Some(Update::Transaction(update)) => Some(update),
            _ => None,
        }
    }

    /// The oldest slot update that waits.
    pub fn try_next_slot(&mut self) -> (r: Option<SlotUpdate>)
        requires
            old(self).wf(),
        ensures
            final(self).wf(),
            final(self).measured() == old(self).measured(),
            match r {
                Some(update) => {
                    &&& old(self)@.slots.len() > 0
                    &&& old(self)@.slots[0] == ServerModel::SlotUpdate(update)
                    &&& final(self)@ == (ShmConsumerModel {
                        slots: old(self)@.slots.drop_first(),
                        ..old(self)@
                    })
                },
                None => old(self)@.slots.len() == 0 && final(self)@ == old(self)@,
            },
    {
        match queue_pop(&mut self.slots) {
            Some(Update::Slot(update)) => Some(update),
            _ => None,
        }
    }

    /// What was measured, to read and to flush.
    pub fn metrics(&mut self) -> (metrics: &mut QlasterConsumerMetrics)
        requires
            old(self).wf(),
        ensures
            *metrics == old(self).measured(),
            final(self).measured() == *final(metrics),
            final(self)@ == old(self)@,
            final(self).wf(),
    {
        &mut self.metrics
    }

    /// Puts an update into the queue of its stream.
    pub fn enqueue(&mut self, update: Update)
        requires
            old(self).wf(),
        ensures
            final(self).wf(),
            final(self)@ == old(self)@.received(update@),
            final(self).measured() == old(self).measured(),
    {
        match update {
            Update::Account(_) => queue_force_push(&mut self.updates, update),
            Update::Transaction(_) => queue_force_push(&mut self.transactions, update),
            Update::Slot(_) => queue_force_push(&mut self.slots, update),
        }
    }

    /// Puts a decoded update into its queue, and measures the way it came.
    pub fn record_decode_and_enqueue(
        &mut self,
        read_elapsed_us: u64,
        decode_start: Instant,
        sender_created_at_unix_nanos: u64,
        update: Update,
    )
        requires
            old(self).wf(),
        ensures
            final(self).wf(),
            final(self)@ == old(self)@.received(update@),
            frame_measured(
                old(self).measured(),
                final(self).measured(),
                read_elapsed_us,
                sender_created_at_unix_nanos,
            ),
            exists|us: u64|
                {
                    &&& is_micros_since(us, decode_start)
                    &&& final(self).measured().decode@ == #[trigger] old(
                        self,
                    ).measured().decode@.record(us)
                },
    {
        let decode_elapsed_us: u64 = elapsed_micros(&decode_start);
        self.metrics.read.record(read_elapsed_us);
        self.metrics.decode.record(decode_elapsed_us);
        let enqueue_start = instant_now();
        self.enqueue(update);
        self.metrics.enqueue.record(elapsed_micros(&enqueue_start));
        self.metrics.full_read.record(
            elapsed_since_unix_time_nanos_us(sender_created_at_unix_nanos),
        );
    }

    /// Takes the body of a frame from the ring, which took that long to read:
    /// an update goes to the queue of its stream and is measured; anything else
    /// changes nothing.
    pub fn on_frame(&mut self, bytes: Vec<u8>, read_elapsed_us: u64) -> (r: FrameOutcome)
        requires
            old(self).wf(),
        ensures
            final(self).wf(),
            frame_handled(bytes@, old(self)@, final(self)@, r),
            frame_counted(bytes@, old(self).measured(), final(self).measured(), read_elapsed_us),
    {
        let decode_start = instant_now();
        let (update, meta) = match decode_server_frame_owned_with_meta(bytes) {
            Ok(ServerFrameWithMeta::AccountUpdate { update, meta }) => (
                Update::Account(update),
                meta,
            ),
            Ok(ServerFrameWithMeta::TransactionUpdate { update, meta }) => (
                Update::Transaction(update),
                meta,
            ),
            Ok(ServerFrameWithMeta::SlotUpdate { update, meta }) => (Update::Slot(update), meta),
            Ok(other) => {
                return FrameOutcome::NotAnUpdate(other);
            },
            Err(e) => {
                return FrameOutcome::Failed(e);
            },
        };
        self.record_decode_and_enqueue(
            read_elapsed_us,
            decode_start,
            meta.sender_created_at_unix_nanos,
            update,
        );
        FrameOutcome::Enqueued
    }

    /// Takes one frame from the ring, if there is one.
    pub fn poll_ring(&mut self, ring: &mut ShmRingConsumer) -> (r: RingPoll)
        requires
            old(self).wf(),
        ensures
            final(self).wf(),
            match r {
                RingPoll::Empty => {
                    &&& popped(old(ring)@, final(ring)@, None)
                    &&& final(self)@ == old(self)@
                    &&& final(self).measured() == old(self).measured()
                },
                RingPoll::Frame(outcome) => exists|body: Seq<u8>, read_us: u64|
                    {
                        &&& is_latency(read_us)
                        &&& popped(old(ring)@, final(ring)@, Some(body))
                        &&& frame_handled(body, old(self)@, final(self)@, outcome)
                        &&& #[trigger] frame_counted(
                            body,
                            old(self).measured(),
                            final(self).measured(),
                            read_us,
                        )
                    },
            },
    {
        let read_start = instant_now();
        match ring.try_pop() {
            Some(bytes) => {
                let read_elapsed_us: u64 = elapsed_micros(&read_start);
                let ghost body = bytes@;
                let outcome = self.on_frame(bytes, read_elapsed_us);
                assert(frame_counted(
                    body,
                    old(self).measured(),
                    self.measured(),
                    read_elapsed_us,
                ));
                RingPoll::Frame(outcome)
            },
            None => RingPoll::Empty,
        }
    }
}

/// What is to be done once the ring is found empty.
pub enum AfterDrain {
    /// Nothing more will come.
    Stop,
    /// Wait for a wakeup.
    Wait,
}

/// What is to be done once the ring is found empty: a ring that is closed, or
/// whose file is gone, gives nothing more.
pub fn after_drain(ring: &ShmRingConsumer, file_exists: bool) -> (r: AfterDrain)
    ensures
        r == (if ring@.closed || !file_exists {
            AfterDrain::Stop
        } else {
            AfterDrain::Wait
        }),
{
    if ring.is_closed(file_exists) {
        AfterDrain::Stop
    } else {
        AfterDrain::Wait
    }
}

/// A queue keeps its order and drops only the oldest: what came last is last in
/// it, and the rest are the latest of those before.
pub proof fn law_queue_keeps_the_latest<T>(items: Seq<T>, capacity: nat, item: T)
    requires
        0 < capacity,
        items.len() <= capacity,
    ensures
        forced(items, capacity, item).len() <= capacity,
        forced(items, capacity, item).last() == item,
        forced(items, capacity, item).drop_last() == items.skip(
            if items.len() < capacity {
                0
            } else {
                1
            },
        ),
{
    assert(forced(items, capacity, item).drop_last() =~= items.skip(
        if items.len() < capacity {
            0
        } else {
            1
        },
    ));
}

/// A frame that a sender dispatched and a ring took is popped from the ring as
/// it was, and its update goes to the consumer's queue of that stream.
pub proof fn law_dispatched_update_is_delivered(
    frame: OutboundFrame,
    update: ServerModel,
    capacity: nat,
    rest: Seq<u8>,
    consumer: ShmConsumerModel,
)
    requires
        carries(frame, update),
        frame.body().len() <= UPDATE_FRAME_BOUND,
        framed(frame.body(), capacity) is Ok,
    ensures
        ({
            let (body, closed) = pop_frame(framed(frame.body(), capacity)->Ok_0 + rest);
            &&& !closed
            &&& body is Some
            &&& frame_handled(
                body->0,
                consumer,
                consumer.received(update),
                FrameOutcome::Enqueued,
            )
        }),
{
    law_pushed_frame_is_popped(frame.body(), capacity, rest);
}

} // verus!
