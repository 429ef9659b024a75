//! What a consumer makes of what it receives.

use crate::clock::is_unix_nanos;
use crate::consumer::shm::{
    frame_counted, frame_handled, resubscribe_token, FrameOutcome, ShmConsumerModel,
};
use crate::error::ErrorModel;
use crate::metrics::{elapsed_us, QlasterConsumerMetrics};
use crate::queue::forced;
use crate::types::account::AccountModel;
use crate::types::control::{ReadyShmModel, SlotToken};
use crate::types::frame::{decode_server, ServerModel};
use crate::types::slot::SlotUpdate;
use crate::types::transaction::TransactionModel;
use vstd::prelude::*;
use vstd::string::*;

verus! {

/// A queue of at most 2048 updates once one more has come: it stands behind all the
/// others, and only where there were 2048 of them the first one is gone.
pub proof fn law_queue_takes_one_more<T>(items: Seq<T>, capacity: nat, item: T)
    requires
        0 < capacity,
        items.len() <= capacity,
    ensures
        items.len() < capacity ==> forced(items, capacity, item) == items.push(item),
        items.len() == capacity ==> forced(items, capacity, item) == items.subrange(
            1,
            items.len() as int,
        ).push(item),
{
}

/// An account update that is received stands behind those that wait already; only
/// where 2048 wait, the oldest of them is dropped. The other queues and the token
/// stay as they are.
pub proof fn law_received_account_waits_last(before: ShmConsumerModel, m: AccountModel)
    requires
        before.updates.len() <= 2048,
    ensures
        ({
            let update = ServerModel::AccountUpdate(m);
            let after = before.received(update);
            &&& before.updates.len() < 2048 ==> after.updates == before.updates.push(update)
            &&& before.updates.len() == 2048 ==> after.updates == before.updates.subrange(
                1,
                2048,
            ).push(update)
            &&& after.transactions == before.transactions
            &&& after.slots == before.slots
            &&& after.slot_token == before.slot_token
        }),
{
}

/// A transaction update that is received stands behind those that wait already; only
/// where 2048 wait, the oldest of them is dropped. The other queues and the token
/// stay as they are.
pub proof fn law_received_transaction_waits_last(before: ShmConsumerModel, m: TransactionModel)
    requires
        before.transactions.len() <= 2048,
    ensures
        ({
            let update = ServerModel::TransactionUpdate(m);
            let after = before.received(update);
            &&& before.transactions.len() < 2048 ==> after.transactions
                == before.transactions.push(update)
            &&& before.transactions.len() == 2048 ==> after.transactions
                == before.transactions.subrange(1, 2048).push(update)
            &&& after.updates == before.updates
            &&& after.slots == before.slots
            &&& after.slot_token == before.slot_token
        }),
{
}

/// A slot update that is received stands behind those that wait already; only where
/// 2048 wait, the oldest of them is dropped. The other queues and the token stay as
/// they are.
pub proof fn law_received_slot_waits_last(before: ShmConsumerModel, m: SlotUpdate)
    requires
        before.slots.len() <= 2048,
    ensures
        ({
            let update = ServerModel::SlotUpdate(m);
            let after = before.received(update);
            &&& before.slots.len() < 2048 ==> after.slots == before.slots.push(update)
            &&& before.slots.len() == 2048 ==> after.slots == before.slots.subrange(1, 2048).push(
                update,
            )
            &&& after.updates == before.updates
            &&& after.transactions == before.transactions
            &&& after.slot_token == before.slot_token
        }),
{
}

/// Replies of the sender wait in no queue.
pub proof fn law_replies_do_not_wait(
    before: ShmConsumerModel,
    token: SlotToken,
    ready: ReadyShmModel,
)
    ensures
        before.received(ServerModel::ConnectionReady(token)) == before,
        before.received(ServerModel::ConnectionReadyShm(ready)) == before,
{
}

/// The consumer once all of these have come, one after the other.
pub open spec fn after_all(before: ShmConsumerModel, updates: Seq<ServerModel>) -> ShmConsumerModel
    decreases updates.len(),
{
    if updates.len() == 0 {
        before
    } else {
        after_all(before, updates.drop_last()).received(updates.last())
    }
}

/// The updates of one stream among these, in order.
pub open spec fn of_accounts(updates: Seq<ServerModel>) -> Seq<ServerModel>
    decreases updates.len(),
{
    if updates.len() == 0 {
        Seq::empty()
    } else if updates.last() is AccountUpdate {
        of_accounts(updates.drop_last()).push(updates.last())
    } else {
        of_accounts(updates.drop_last())
    }
}

/// The updates of one stream among these, in order.
pub open spec fn of_transactions(updates: Seq<ServerModel>) -> Seq<ServerModel>
    decreases updates.len(),
{
    if updates.len() == 0 {
        Seq::empty()
    } else if updates.last() is TransactionUpdate {
        of_transactions(updates.drop_last()).push(updates.last())
    } else {
        of_transactions(updates.drop_last())
    }
}

/// The updates of one stream among these, in order.
pub open spec fn of_slots(updates: Seq<ServerModel>) -> Seq<ServerModel>
    decreases updates.len(),
{
    if updates.len() == 0 {
        Seq::empty()
    } else if updates.last() is SlotUpdate {
        of_slots(updates.drop_last()).push(updates.last())
    } else {
        of_slots(updates.drop_last())
    }
}

/// The last 2048 of these, or all where they are fewer.
pub open spec fn latest(items: Seq<ServerModel>) -> Seq<ServerModel> {
    if items.len() <= 2048 {
        items
    } else {
        items.skip(items.len() - 2048)
    }
}

/// Whatever comes to a consumer with nothing waiting, in whatever mixture: each
/// queue then holds the updates of its stream, in order, and of more than 2048 the
/// last 2048. The token stays as it is.
pub proof fn law_queues_hold_the_latest_of_all(before: ShmConsumerModel, updates: Seq<ServerModel>)
    requires
        before.updates.len() == 0,
        before.transactions.len() == 0,
        before.slots.len() == 0,
    ensures
        after_all(before, updates).updates == latest(of_accounts(updates)),
        after_all(before, updates).transactions == latest(of_transactions(updates)),
        after_all(before, updates).slots == latest(of_slots(updates)),
        after_all(before, updates).slot_token == before.slot_token,
    decreases updates.len(),
{
    if updates.len() == 0 {
        assert(before.updates =~= Seq::empty());
        assert(before.transactions =~= Seq::empty());
        assert(before.slots =~= Seq::empty());
    } else {
        let init = updates.drop_last();
        let mid = after_all(before, init);
        let after = after_all(before, updates);
        law_queues_hold_the_latest_of_all(before, init);
        match updates.last() {
            ServerModel::AccountUpdate(m) => {
                law_received_account_waits_last(mid, m);
                assert(after.updates =~= latest(of_accounts(updates)));
            },
            ServerModel::TransactionUpdate(m) => {
                law_received_transaction_waits_last(mid, m);
                assert(after.transactions =~= latest(of_transactions(updates)));
            },
            ServerModel::SlotUpdate(m) => {
                law_received_slot_waits_last(mid, m);
                assert(after.slots =~= latest(of_slots(updates)));
            },
            ServerModel::ConnectionReady(token) => {},
            ServerModel::ConnectionReadyShm(ready) => {},
        }
    }
}

/// The body of a frame from the ring that says an update leaves that update last in
/// the queue of its stream, and is reported as that. A body that says a reply, or
/// that cannot be read, is handed back or refused with its fault, and changes
/// nothing.
pub proof fn law_frames_are_taken_for_what_they_say(
    body: Seq<u8>,
    before: ShmConsumerModel,
    after: ShmConsumerModel,
    outcome: FrameOutcome,
)
    requires
        frame_handled(body, before, after, outcome),
    ensures
        after.slot_token == before.slot_token,
        decode_server(body) matches Ok((ServerModel::AccountUpdate(m), Some(_))) ==> {
            &&& outcome is Enqueued
            &&& after == before.received(ServerModel::AccountUpdate(m))
            &&& before.updates.len() < 2048 ==> after.updates == before.updates.push(
                ServerModel::AccountUpdate(m),
            )
            &&& after.transactions == before.transactions
            &&& after.slots == before.slots
        },
        decode_server(body) matches Ok((ServerModel::TransactionUpdate(m), Some(_))) ==> {
            &&& outcome is Enqueued
            &&& after == before.received(ServerModel::TransactionUpdate(m))
            &&& before.transactions.len() < 2048 ==> after.transactions == before.transactions.push(
                ServerModel::TransactionUpdate(m),
            )
            &&& after.updates == before.updates
            &&& after.slots == before.slots
        },
        decode_server(body) matches Ok((ServerModel::SlotUpdate(m), Some(_))) ==> {
            &&& outcome is Enqueued
            &&& after == before.received(ServerModel::SlotUpdate(m))
            &&& before.slots.len() < 2048 ==> after.slots == before.slots.push(
                ServerModel::SlotUpdate(m),
            )
            &&& after.updates == before.updates
            &&& after.transactions == before.transactions
        },
        decode_server(body) matches Ok((m, None)) ==> {
            &&& outcome matches FrameOutcome::NotAnUpdate(frame) && frame@.0 == m
            &&& after == before
        },
        decode_server(body) matches Err(fault) ==> {
            &&& outcome matches FrameOutcome::Failed(e) && e@ == fault
            &&& after == before
        },
{
}

/// Every update is measured once on each leg of its way, and nothing else is.
pub proof fn law_every_update_is_measured_once(
    body: Seq<u8>,
    before: QlasterConsumerMetrics,
    after: QlasterConsumerMetrics,
    read_us: u64,
)
    requires
        frame_counted(body, before, after, read_us),
    ensures
        decode_server(body) matches Ok((_, Some(meta))) ==> {
            &&& exists|now: u64|
                {
                    &&& is_unix_nanos(now)
                    &&& after.full_read@ == before.full_read@.record(
                        #[trigger] elapsed_us(now, meta.sender_created_at_unix_nanos),
                    )
                }
            &&& after.read@ == before.read@.record(read_us)
            &&& after.read@.count == (before.read@.count + 1) % 0x1_0000_0000_0000_0000
            &&& after.decode@.count == (before.decode@.count + 1) % 0x1_0000_0000_0000_0000
            &&& after.enqueue@.count == (before.enqueue@.count + 1) % 0x1_0000_0000_0000_0000
            &&& after.full_read@.count == (before.full_read@.count + 1) % 0x1_0000_0000_0000_0000
        },
        !(decode_server(body) matches Ok((_, Some(_)))) ==> after == before,
{
}

/// The answer to a further subscription gives its token if it is a ready frame; any
/// other frame is refused by its name, and an unreadable one with its fault.
pub proof fn law_only_a_ready_frame_gives_a_token(reply: Seq<u8>)
    ensures
        decode_server(reply) matches Ok((ServerModel::ConnectionReady(token), _))
            ==> resubscribe_token(reply) == Ok::<_, ErrorModel>(token),
        decode_server(reply) matches Ok((ServerModel::ConnectionReadyShm(_), _))
            ==> resubscribe_token(reply) == Err::<SlotToken, _>(
            ErrorModel::UdsError("unexpected ConnectionReadyShm on re-subscribe"@),
        ),
        decode_server(reply) matches Ok((ServerModel::AccountUpdate(_), _)) ==> resubscribe_token(
            reply,
        ) == Err::<SlotToken, _>(ErrorModel::UdsError("AccountUpdate on UDS control channel"@)),
        decode_server(reply) matches Ok((ServerModel::TransactionUpdate(_), _))
            ==> resubscribe_token(reply) == Err::<SlotToken, _>(
            ErrorModel::UdsError("TransactionUpdate on UDS control channel"@),
        ),
        decode_server(reply) matches Ok((ServerModel::SlotUpdate(_), _)) ==> resubscribe_token(
            reply,
        ) == Err::<SlotToken, _>(ErrorModel::UdsError("SlotUpdate on UDS control channel"@)),
        decode_server(reply) matches Err(fault) ==> resubscribe_token(reply) == Err::<
            SlotToken,
            _,
        >(fault),
{
}

} // verus!
