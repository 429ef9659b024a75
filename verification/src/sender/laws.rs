//! What subscriptions, pings and dispatches do to the slots, field by field.

use crate::buffer::bytes_view;
use crate::clock::{is_micros_since, is_unix_nanos};
use crate::error::ErrorModel;
use crate::le::le_u32;
use crate::metrics::{LatencyModel, QlasterSenderMetrics};
use crate::sender::dispatch::{
    dispatched, due, gone, is_since, put_out, refusals, sends_measured, slot_dispatched, Dispatch,
};
use crate::sender::filter::FilterModel;
use crate::sender::manager::{stale, ConnModel, ManagerModel, MAX_CONNECTION_SLOTS};
use crate::sender::shm::{answers, ClientAction, DEFAULT_SHM_RING_CAPACITY};
use crate::sender::update::{carries, carries_at, wants};
use crate::shm::ring::ProducerModel;
use crate::transport::OutboundFrame;
use crate::types::account::{account_frame, attempted_block, AccountModel, AccountUpdateWireMeta};
use crate::types::control::{ready_frame, SlotToken, SubscriptionModel};
use crate::types::frame::{decode_client, decode_server, ClientModel, ServerModel};
use crate::types::slot::{slot_frame, SlotUpdate};
use crate::types::transaction::{transaction_frame, TransactionModel};
use vstd::prelude::*;
use vstd::string::*;

verus! {

// Filters.

/// The filter of a first request matches an account exactly where the request names
/// its key or its owner, and has transactions exactly where the request asks for
/// them.
pub proof fn law_first_request_is_the_filter(request: SubscriptionModel, account: AccountModel)
    ensures
        FilterModel::of_request(request).matches_account(account) == (
        request.account_pubkeys.contains(account.account_pubkey)
            || request.account_owners.contains(account.account_owner)),
        FilterModel::of_request(request).include_transactions == request.include_transactions,
        forall|key: Seq<u8>|
            FilterModel::of_request(request).account_pubkeys.contains(key)
                == request.account_pubkeys.contains(key),
        forall|owner: Seq<u8>|
            FilterModel::of_request(request).account_owners.contains(owner)
                == request.account_owners.contains(owner),
{
}

/// A further request adds what it names, and takes nothing away.
pub proof fn law_further_request_adds_what_it_names(
    filter: FilterModel,
    request: SubscriptionModel,
    account: AccountModel,
)
    ensures
        filter.with_request(request).matches_account(account) == (
        filter.account_pubkeys.contains(account.account_pubkey)
            || filter.account_owners.contains(account.account_owner)
            || request.account_pubkeys.contains(account.account_pubkey)
            || request.account_owners.contains(account.account_owner)),
        filter.with_request(request).include_transactions == (filter.include_transactions
            || request.include_transactions),
        forall|key: Seq<u8>|
            filter.with_request(request).account_pubkeys.contains(key) == (
            filter.account_pubkeys.contains(key) || request.account_pubkeys.contains(key)),
        forall|owner: Seq<u8>|
            filter.with_request(request).account_owners.contains(owner) == (
            filter.account_owners.contains(owner) || request.account_owners.contains(owner)),
{
}

/// A subscriber wants an account whose key or owner it named, transactions of every
/// kind if it asked for them, every slot, and nothing else.
pub proof fn law_wanted_is_what_was_asked_for(
    filter: FilterModel,
    account: AccountModel,
    transaction: TransactionModel,
    slot: SlotUpdate,
)
    ensures
        filter.matches_account(account) == (filter.account_pubkeys.contains(account.account_pubkey)
            || filter.account_owners.contains(account.account_owner)),
        wants(filter, ServerModel::AccountUpdate(account)) == (filter.account_pubkeys.contains(
            account.account_pubkey,
        ) || filter.account_owners.contains(account.account_owner)),
        wants(filter, ServerModel::TransactionUpdate(transaction)) == filter.include_transactions,
        wants(filter, ServerModel::SlotUpdate(slot)),
{
}

// Slots and tokens.

/// A tenant is silent for too long once more than 30 seconds have passed since it
/// was last heard of, and not before; a clock that went back makes nobody silent.
pub proof fn law_thirty_seconds_of_silence(last_seen_ms: u64, now_ms: u64)
    ensures
        stale(last_seen_ms, now_ms) == (now_ms > last_seen_ms && now_ms - last_seen_ms > 30_000),
        MAX_CONNECTION_SLOTS == 10,
{
}

/// A token is good exactly where its slot is one of the ten, has a tenant with the
/// token's number, and that tenant was heard of in the last 30 seconds.
pub proof fn law_good_tokens<W>(m: ManagerModel<W>, token: SlotToken, now_ms: u64)
    ensures
        m.holds(token, now_ms) == (token.slot_index < 10 && m.slots[token.slot_index as int] is Some
            && m.slots[token.slot_index as int]->0.connection_id == token.generation && now_ms
            - m.slots[token.slot_index as int]->0.last_seen_ms <= 30_000),
{
}

/// Looking for a token changes nothing, but that the tenant it names is put out if
/// it was silent for more than 30 seconds: its slot is empty then, and it is the
/// last of those put out, closed.
pub proof fn law_lookup_puts_out_the_silent<W>(m: ManagerModel<W>, token: SlotToken, now_ms: u64)
    ensures
        ({
            let i = token.slot_index as int;
            let after = m.after_lookup(token, now_ms);
            if i < 10 && m.slots[i] is Some && m.slots[i]->0.connection_id == token.generation
                && now_ms - m.slots[i]->0.last_seen_ms > 30_000 {
                &&& after.slots == m.slots.update(i, None)
                &&& after.retired == m.retired.push(ConnModel { closed: true, ..m.slots[i]->0 })
                &&& after.next_connection_id == m.next_connection_id
            } else {
                after == m
            }
        }),
{
}

/// A slot that is looked at changes only where its tenant was silent for more than
/// 30 seconds, which is put out then.
pub proof fn law_sweep_puts_out_the_silent<W>(m: ManagerModel<W>, i: int, now_ms: u64)
    ensures
        m.slots[i] is Some && now_ms - m.slots[i]->0.last_seen_ms > 30_000 ==> {
            &&& m.sweep(i, now_ms).slots == m.slots.update(i, None)
            &&& m.sweep(i, now_ms).retired == m.retired.push(
                ConnModel { closed: true, ..m.slots[i]->0 },
            )
            &&& m.sweep(i, now_ms).next_connection_id == m.next_connection_id
        },
        !(m.slots[i] is Some && now_ms - m.slots[i]->0.last_seen_ms > 30_000) ==> m.sweep(i, now_ms)
            == m,
        m.is_stale(i, now_ms) == (m.slots[i] is Some && now_ms - m.slots[i]->0.last_seen_ms
            > 30_000),
{
}

/// A tenant that is put out leaves its slot empty and is the last of those put out,
/// with its sink closed and all else as it was; the other slots stay.
pub proof fn law_put_out_leaves_the_slot_empty<W>(m: ManagerModel<W>, i: int, j: int)
    requires
        0 <= i < m.slots.len(),
        0 <= j < m.slots.len(),
        m.slots[i] is Some,
    ensures
        m.retire(i).slots.len() == m.slots.len(),
        m.retire(i).slots[i] is None,
        j != i ==> m.retire(i).slots[j] == m.slots[j],
        m.retire(i).next_connection_id == m.next_connection_id,
        m.retire(i).retired.len() == m.retired.len() + 1,
        m.retire(i).retired.drop_last() == m.retired,
        ({
            let (c, gone) = (m.slots[i]->0, m.retire(i).retired.last());
            &&& gone.closed
            &&& gone.slot_index == c.slot_index
            &&& gone.connection_id == c.connection_id
            &&& gone.filter == c.filter
            &&& gone.last_seen_ms == c.last_seen_ms
            &&& gone.ring == c.ring
            &&& gone.waker == c.waker
        }),
{
    assert(m.retire(i).retired.drop_last() =~= m.retired);
}

/// A tenant that is heard of was last heard of then, so that its token is good for
/// 30 seconds from then on; nothing else about it changes, and nothing about the
/// other slots.
pub proof fn law_heard_of_is_alive<W>(m: ManagerModel<W>, i: int, j: int, now_ms: u64, later: u64)
    requires
        m.slots.len() == 10,
        0 <= i < 10,
        0 <= j < 10,
        m.slots[i] is Some,
    ensures
        ({
            let (c, after) = (m.slots[i]->0, m.heard(i, now_ms));
            &&& after.slots.len() == 10
            &&& after.slots[i] == Some(
                ConnModel {
                    slot_index: c.slot_index,
                    connection_id: c.connection_id,
                    filter: c.filter,
                    last_seen_ms: now_ms,
                    ring: c.ring,
                    closed: c.closed,
                    waker: c.waker,
                },
            )
            &&& j != i ==> after.slots[j] == m.slots[j]
            &&& after.next_connection_id == m.next_connection_id
            &&& after.retired == m.retired
            &&& later - now_ms <= 30_000 ==> after.holds(
                SlotToken { slot_index: i as u8, generation: c.connection_id },
                later,
            )
            &&& later - now_ms > 30_000 ==> !after.holds(
                SlotToken { slot_index: i as u8, generation: c.connection_id },
                later,
            )
        }),
{
}

/// A tenant that asks for more was last heard of then; it gets what it got before
/// and what it asks for now: accounts by key and by owner, and transactions. Nothing
/// else about it changes, and nothing about the other slots.
pub proof fn law_resubscribed_gets_more<W>(
    m: ManagerModel<W>,
    i: int,
    j: int,
    now_ms: u64,
    request: SubscriptionModel,
    account: AccountModel,
    transaction: TransactionModel,
)
    requires
        m.slots.len() == 10,
        0 <= i < 10,
        0 <= j < 10,
        m.slots[i] is Some,
    ensures
        ({
            let (c, after) = (m.slots[i]->0, m.resubscribed(i, now_ms, request));
            &&& after.slots.len() == 10
            &&& after.slots[i] matches Some(d) && {
                &&& d.slot_index == c.slot_index
                &&& d.connection_id == c.connection_id
                &&& d.last_seen_ms == now_ms
                &&& d.ring == c.ring
                &&& d.closed == c.closed
                &&& d.waker == c.waker
                &&& d.filter.include_transactions == (c.filter.include_transactions
                    || request.include_transactions)
                &&& forall|key: Seq<u8>|
                    d.filter.account_pubkeys.contains(key) == (c.filter.account_pubkeys.contains(
                        key,
                    ) || request.account_pubkeys.contains(key))
                &&& forall|owner: Seq<u8>|
                    d.filter.account_owners.contains(owner) == (c.filter.account_owners.contains(
                        owner,
                    ) || request.account_owners.contains(owner))
                &&& wants(d.filter, ServerModel::AccountUpdate(account)) == (wants(
                    c.filter,
                    ServerModel::AccountUpdate(account),
                ) || request.account_pubkeys.contains(account.account_pubkey)
                    || request.account_owners.contains(account.account_owner))
                &&& wants(d.filter, ServerModel::TransactionUpdate(transaction)) == (wants(
                    c.filter,
                    ServerModel::TransactionUpdate(transaction),
                ) || request.include_transactions)
            }
            &&& j != i ==> after.slots[j] == m.slots[j]
            &&& after.next_connection_id == m.next_connection_id
            &&& after.retired == m.retired
        }),
{
}

/// A slot can be taken where it has no tenant, or one that was silent for more than
/// 30 seconds. The one that is taken is the first such; there is none exactly where
/// each of the ten has a tenant that was heard of since.
pub proof fn law_first_free_slot<W>(m: ManagerModel<W>, i: int, j: int, now_ms: u64)
    ensures
        m.takable(j, now_ms) == (m.slots[j] is None || now_ms - m.slots[j]->0.last_seen_ms
            > 30_000),
        m.first_takable(i, now_ms) ==> {
            &&& 0 <= i < 10
            &&& m.slots[i] is None || now_ms - m.slots[i]->0.last_seen_ms > 30_000
            &&& 0 <= j < i ==> m.slots[j] is Some && now_ms - m.slots[j]->0.last_seen_ms <= 30_000
        },
        m.exhausted(now_ms) && 0 <= j < 10 ==> m.slots[j] is Some && now_ms
            - m.slots[j]->0.last_seen_ms <= 30_000,
        !m.exhausted(now_ms) ==> exists|k: int|
            0 <= k < 10 && ((#[trigger] m.slots[k]) is None || now_ms - m.slots[k]->0.last_seen_ms
                > 30_000),
{
    if m.first_takable(i, now_ms) && 0 <= j < i {
        assert(!m.takable(j, now_ms));
    }
    if m.exhausted(now_ms) && 0 <= j < 10 {
        assert(!m.takable(j, now_ms));
    }
    if !m.exhausted(now_ms) {
        let k = choose|k: int| 0 <= k < 10 && m.takable(k, now_ms);
        assert(m.slots[k] is None || now_ms - m.slots[k]->0.last_seen_ms > 30_000);
    }
}

/// A slot that is given to a tenant has it, and nothing else changes. Giving out a
/// number changes only what the next one is: one more, and zero behind the largest.
pub proof fn law_given_slots_and_numbers<W>(m: ManagerModel<W>, i: int, j: int, c: ConnModel<W>)
    requires
        0 <= i < m.slots.len(),
        0 <= j < m.slots.len(),
    ensures
        m.installed(i, c).slots.len() == m.slots.len(),
        m.installed(i, c).slots[i] == Some(c),
        j != i ==> m.installed(i, c).slots[j] == m.slots[j],
        m.installed(i, c).next_connection_id == m.next_connection_id,
        m.installed(i, c).retired == m.retired,
        m.numbered().slots == m.slots,
        m.numbered().retired == m.retired,
        m.next_connection_id < 0xFFFF_FFFF_FFFF_FFFF ==> m.numbered().next_connection_id
            == m.next_connection_id + 1,
        m.next_connection_id == 0xFFFF_FFFF_FFFF_FFFF ==> m.numbered().next_connection_id == 0,
{
}

// The control socket.

/// A ping with a good token is answered, and its tenant was last heard of then: its
/// token is good for 30 seconds from then on. One with another token is refused with
/// that token; nobody is heard of, and at most a tenant that was silent for too long
/// is put out. No other slot changes either way.
pub proof fn law_pings_keep_alive<W>(
    frame: Seq<u8>,
    now_ms: u64,
    before: ManagerModel<W>,
    after: ManagerModel<W>,
    action: ClientAction,
    token: SlotToken,
    j: int,
    later: u64,
)
    requires
        answers(frame, now_ms, before, after, action),
        decode_client(frame) == Ok::<_, ErrorModel>(ClientModel::Ping(token)),
        before.slots.len() == 10,
        0 <= j < 10,
    ensures
        ({
            let i = token.slot_index as int;
            let good = i < 10 && before.slots[i] is Some && before.slots[i]->0.connection_id
                == token.generation && now_ms - before.slots[i]->0.last_seen_ms <= 30_000;
            &&& after.slots.len() == 10
            &&& after.next_connection_id == before.next_connection_id
            &&& j != i ==> after.slots[j] == before.slots[j]
            &&& good ==> {
                &&& action is Pinged
                &&& after.slots[i] == Some(
                    ConnModel { last_seen_ms: now_ms, ..before.slots[i]->0 },
                )
                &&& after.retired == before.retired
                &&& after.holds(token, later) == (later - now_ms <= 30_000)
            }
            &&& !good ==> {
                &&& action == ClientAction::UnknownPing(token)
                &&& if i < 10 && before.slots[i] is Some && before.slots[i]->0.connection_id
                    == token.generation {
                    &&& after.slots[i] is None
                    &&& after.retired == before.retired.push(
                        ConnModel { closed: true, ..before.slots[i]->0 },
                    )
                } else {
                    after == before
                }
            }
        }),
{
}

/// A request with a good token is answered with that token, and its tenant gets what
/// it got before and what the request names, at once. No other slot changes.
pub proof fn law_good_requests_are_served<W>(
    frame: Seq<u8>,
    now_ms: u64,
    before: ManagerModel<W>,
    after: ManagerModel<W>,
    action: ClientAction,
    m: SubscriptionModel,
    token: SlotToken,
    j: int,
    account: AccountModel,
)
    requires
        answers(frame, now_ms, before, after, action),
        decode_client(frame) == Ok::<_, ErrorModel>(ClientModel::Subscription(m)),
        m.slot_token == Some(token),
        before.slots.len() == 10,
        token.slot_index < 10,
        before.slots[token.slot_index as int] is Some,
        before.slots[token.slot_index as int]->0.connection_id == token.generation,
        now_ms - before.slots[token.slot_index as int]->0.last_seen_ms <= 30_000,
        0 <= j < 10,
    ensures
        ({
            let i = token.slot_index as int;
            let c = before.slots[i]->0;
            &&& action matches ClientAction::Reply { request, frame: reply } && request@ == m
                && reply@ == ready_frame(token)
            &&& after.slots.len() == 10
            &&& after.slots[i] matches Some(d) && {
                &&& d.connection_id == c.connection_id
                &&& d.last_seen_ms == now_ms
                &&& d.ring == c.ring
                &&& d.closed == c.closed
                &&& d.waker == c.waker
                &&& d.filter.matches_account(account) == (c.filter.matches_account(account)
                    || m.account_pubkeys.contains(account.account_pubkey)
                    || m.account_owners.contains(account.account_owner))
                &&& d.filter.include_transactions == (c.filter.include_transactions
                    || m.include_transactions)
            }
            &&& j != i ==> after.slots[j] == before.slots[j]
            &&& after.next_connection_id == before.next_connection_id
            &&& after.retired == before.retired
        }),
{
}

/// A request without a good token uses up a number. It gets that number and the first
/// slot that is free or whose tenant was silent for more than 30 seconds, with a
/// filter of what the request names and nothing else; or it is refused, where each
/// slot has a tenant that was heard of since. Every slot with such a tenant stays as
/// it is.
pub proof fn law_new_requests_get_the_first_free_slot<W>(
    frame: Seq<u8>,
    now_ms: u64,
    before: ManagerModel<W>,
    after: ManagerModel<W>,
    action: ClientAction,
    m: SubscriptionModel,
    j: int,
    account: AccountModel,
)
    requires
        answers(frame, now_ms, before, after, action),
        decode_client(frame) == Ok::<_, ErrorModel>(ClientModel::Subscription(m)),
        m.slot_token matches Some(token) ==> !(token.slot_index < 10
            && before.slots[token.slot_index as int] is Some
            && before.slots[token.slot_index as int]->0.connection_id == token.generation && now_ms
            - before.slots[token.slot_index as int]->0.last_seen_ms <= 30_000),
        before.slots.len() == 10,
        0 <= j < 10,
    ensures
        after.slots.len() == 10,
        before.next_connection_id < 0xFFFF_FFFF_FFFF_FFFF ==> after.next_connection_id
            == before.next_connection_id + 1,
        before.slots[j] is Some && now_ms - before.slots[j]->0.last_seen_ms <= 30_000
            ==> after.slots[j] == before.slots[j],
        before.slots[j] is None ==> after.slots[j] is None,
        match action {
            ClientAction::Provision { request, slot_index, connection_id, filter } => {
                &&& request@ == m
                &&& slot_index < 10
                &&& connection_id == before.next_connection_id
                &&& before.slots[slot_index as int] is None || now_ms
                    - before.slots[slot_index as int]->0.last_seen_ms > 30_000
                &&& j < slot_index ==> before.slots[j] is Some && after.slots[j] is Some && now_ms
                    - before.slots[j]->0.last_seen_ms <= 30_000
                &&& after.slots[slot_index as int] is None
                &&& filter@.matches_account(account) == (m.account_pubkeys.contains(
                    account.account_pubkey,
                ) || m.account_owners.contains(account.account_owner))
                &&& filter@.include_transactions == m.include_transactions
            },
            ClientAction::Fail(e) => {
                &&& e@ == ErrorModel::ConfigError("connection slots exhausted (max 10)"@)
                &&& before.slots[j] is Some
                &&& now_ms - before.slots[j]->0.last_seen_ms <= 30_000
                &&& after.slots == before.slots
                &&& after.retired == before.retired
            },
            _ => false,
        },
{
    let numbered = before.before_provision(m, now_ms);
    if let Some(token) = m.slot_token {
        law_lookup_puts_out_the_silent(before, token, now_ms);
    }
    match action {
        ClientAction::Provision { request, slot_index, connection_id, filter } => {
            law_first_free_slot(numbered, slot_index as int, j, now_ms);
            law_sweep_puts_out_the_silent(numbered, slot_index as int, now_ms);
            law_first_request_is_the_filter(m, account);
            if let Some(token) = m.slot_token {
                if j < slot_index && numbered.slots[j] != before.slots[j] {
                    assert(numbered.slots[j] is None);
                }
            }
        },
        ClientAction::Fail(e) => {
            assert forall|k: int| 0 <= k < 10 implies numbered.slots[k] is Some by {
                law_first_free_slot(numbered, 0, k, now_ms);
            }
            law_first_free_slot(numbered, 0, j, now_ms);
            if let Some(token) = m.slot_token {
                let i = token.slot_index as int;
                if i < 10 {
                    assert(numbered.slots[i] is Some);
                }
            }
        },
        _ => {},
    }
}

/// A frame of a client that cannot be read is refused with its fault, and changes
/// nothing.
pub proof fn law_unreadable_frames_change_nothing<W>(
    frame: Seq<u8>,
    now_ms: u64,
    before: ManagerModel<W>,
    after: ManagerModel<W>,
    action: ClientAction,
)
    requires
        answers(frame, now_ms, before, after, action),
        decode_client(frame) is Err,
    ensures
        after == before,
        action matches ClientAction::Fail(e) && decode_client(frame) == Err::<ClientModel, _>(e@),
{
}

// The fan-out.

/// What happens to the ring of a tenant is noted at the tenant, and changes nothing
/// else about it. A frame is offered to it only where its sink is not closed, the
/// body has less than 2^32 bytes, and the frame fits into the ring.
pub proof fn law_rings_of_tenants<W>(
    c: ConnModel<W>,
    bytes: Seq<u8>,
    accepted: bool,
    body: Seq<u8>,
)
    ensures
        c.offer(bytes, accepted) == (ConnModel {
            ring: ProducerModel { offers: c.ring.offers.push((bytes, accepted)), ..c.ring },
            ..c
        }),
        c.push(bytes, true) == (ConnModel {
            ring: ProducerModel { offers: c.ring.offers.push((bytes, true)), ..c.ring },
            ..c
        }),
        c.push(bytes, false) == (ConnModel {
            ring: ProducerModel {
                offers: c.ring.offers.push((bytes, false)),
                dropped_frames: ((c.ring.dropped_frames + 1) % 0x1_0000_0000_0000_0000) as u64,
                ..c.ring
            },
            ..c
        }),
        c.put_away() == (ConnModel { closed: true, ..c }),
        c.admits(body) == (if !c.closed && body.len() <= 0xFFFF_FFFF && 4 + body.len()
            <= c.ring.capacity {
            Some(le_u32(body.len() as u32) + body)
        } else {
            None
        }),
{
}

/// A dispatch and one slot. A tenant that was silent for more than 30 seconds is put
/// out and gets nothing. One that does not want the update stays as it is. One that
/// wants it is offered its frame, once, if that fits into its ring and its sink is
/// not closed: if the ring took it, the tenant keeps its slot and is to be woken; if
/// not, it is put out, and the refusal is counted at it. A slot without a tenant
/// stays so.
pub proof fn law_dispatch_reaches_those_who_want_it<W>(
    before: ManagerModel<W>,
    after: ManagerModel<W>,
    metrics_before: QlasterSenderMetrics,
    metrics_after: QlasterSenderMetrics,
    update: ServerModel,
    now_ms: u64,
    r: Dispatch,
    i: int,
)
    requires
        dispatched(before, after, metrics_before, metrics_after, update, now_ms, r),
        before.slots.len() == 10,
        0 <= i < 10,
    ensures
        after.slots.len() == 10,
        before.slots[i] is None ==> after.slots[i] is None && !r.woken@.contains(i as usize),
        before.slots[i] matches Some(c) ==> {
            let woken = r.woken@.contains(i as usize);
            &&& now_ms - c.last_seen_ms > 30_000 ==> {
                &&& !woken
                &&& after.slots[i] is None
                &&& after.retired.contains(ConnModel { closed: true, ..c })
            }
            &&& now_ms - c.last_seen_ms <= 30_000 && !wants(c.filter, update) ==> {
                &&& !woken
                &&& after.slots[i] == Some(c)
            }
            &&& now_ms - c.last_seen_ms <= 30_000 && wants(c.filter, update) ==> {
                &&& r.frame matches Some(frame) && {
                    let body = frame.body();
                    let bytes = le_u32(body.len() as u32) + body;
                    if !c.closed && body.len() <= 0xFFFF_FFFF && 4 + body.len() <= c.ring.capacity {
                        if woken {
                            after.slots[i] == Some(
                                ConnModel {
                                    ring: ProducerModel {
                                        offers: c.ring.offers.push((bytes, true)),
                                        ..c.ring
                                    },
                                    ..c
                                },
                            )
                        } else {
                            &&& after.slots[i] is None
                            &&& after.retired.contains(
                                ConnModel {
                                    ring: ProducerModel {
                                        offers: c.ring.offers.push((bytes, false)),
                                        dropped_frames: ((c.ring.dropped_frames + 1)
                                            % 0x1_0000_0000_0000_0000) as u64,
                                        ..c.ring
                                    },
                                    closed: true,
                                    ..c
                                },
                            )
                        }
                    } else {
                        &&& !woken
                        &&& after.slots[i] is None
                        &&& after.retired.contains(ConnModel { closed: true, ..c })
                    }
                }
            }
        },
{
    assert(slot_dispatched(
        before.slots[i],
        after.slots[i],
        update,
        now_ms,
        r.frame,
        r.woken@.contains(i as usize),
    ));
    assert(due(before.slots[i], update, now_ms) ==> r.frame is Some);
    if before.slots[i] is Some && after.slots[i] is None {
        let n = MAX_CONNECTION_SLOTS as int;
        lemma_put_out_is_listed(before.slots, after.slots, update, now_ms, r.frame, n);
        let out = put_out(before.slots, after.slots, update, now_ms, r.frame, n);
        let at = choose|at: Seq<int>|
            out_is_listed(before.slots, after.slots, update, now_ms, r.frame, n, at);
        assert(emptied(before.slots, after.slots).contains(i));
        let k = choose|k: int| 0 <= k < at.len() && at[k] == i;
        assert(after.retired[before.retired.len() + k] == out[k]);
        assert(out[k] == gone(before.slots[i]->0, update, now_ms, r.frame));
        assert(after.retired.contains(gone(before.slots[i]->0, update, now_ms, r.frame)));
    }
}

/// The indices list the chosen ones below `n`, in order.
pub open spec fn lists(at: Seq<int>, chosen: Set<int>, n: int) -> bool {
    &&& forall|a: int, b: int| 0 <= a < b < at.len() ==> at[a] < at[b]
    &&& forall|a: int| 0 <= a < at.len() ==> 0 <= #[trigger] at[a] < n && chosen.contains(at[a])
    &&& forall|i: int| 0 <= i < n && #[trigger] chosen.contains(i) ==> at.contains(i)
}

/// The slots that had a tenant and have none any more.
pub open spec fn emptied<W>(
    before: Seq<Option<ConnModel<W>>>,
    after: Seq<Option<ConnModel<W>>>,
) -> Set<int> {
    Set::new(|i: int| before[i] is Some && after[i] is None)
}

/// One more index behind the others.
proof fn lemma_lists_step(at: Seq<int>, chosen: Set<int>, n: int)
    requires
        lists(at, chosen, n),
        0 <= n,
    ensures
        chosen.contains(n) ==> lists(at.push(n), chosen, n + 1),
        !chosen.contains(n) ==> lists(at, chosen, n + 1),
{
    if chosen.contains(n) {
        let more = at.push(n);
        assert forall|i: int| 0 <= i < n + 1 && #[trigger] chosen.contains(i) implies more.contains(
            i,
        ) by {
            if i < n {
                assert(at.contains(i));
                let k = choose|k: int| 0 <= k < at.len() && at[k] == i;
                assert(more[k] == i);
            } else {
                assert(more[at.len() as int] == i);
            }
        }
    }
}

/// What was put out, slot by slot.
spec fn out_is_listed<W>(
    before: Seq<Option<ConnModel<W>>>,
    after: Seq<Option<ConnModel<W>>>,
    update: ServerModel,
    now_ms: u64,
    frame: Option<OutboundFrame>,
    n: int,
    at: Seq<int>,
) -> bool {
    let out = put_out(before, after, update, now_ms, frame, n);
    &&& lists(at, emptied(before, after), n)
    &&& at.len() == out.len()
    &&& forall|k: int|
        0 <= k < at.len() ==> #[trigger] out[k] == gone(
            before[at[k]]->0,
            update,
            now_ms,
            frame,
        )
}

/// What was put out can be listed slot by slot.
proof fn lemma_put_out_is_listed<W>(
    before: Seq<Option<ConnModel<W>>>,
    after: Seq<Option<ConnModel<W>>>,
    update: ServerModel,
    now_ms: u64,
    frame: Option<OutboundFrame>,
    n: int,
)
    requires
        0 <= n,
    ensures
        exists|at: Seq<int>| out_is_listed(before, after, update, now_ms, frame, n, at),
    decreases n,
{
    if n == 0 {
        assert(out_is_listed(before, after, update, now_ms, frame, 0, Seq::empty()));
    } else {
        let k = n - 1;
        lemma_put_out_is_listed(before, after, update, now_ms, frame, k);
        let at = choose|at: Seq<int>| out_is_listed(before, after, update, now_ms, frame, k, at);
        lemma_lists_step(at, emptied(before, after), k);
        if emptied(before, after).contains(k) {
            assert(out_is_listed(before, after, update, now_ms, frame, n, at.push(k)));
        } else {
            assert(out_is_listed(before, after, update, now_ms, frame, n, at));
        }
    }
}

/// Those whom a dispatch puts out are the tenants of the slots that it empties, each
/// once and in the order of the slots, behind those put out before. It gives out no
/// number, and those to be woken are named once each, in order.
pub proof fn law_dispatch_accounts_for_everyone<W>(
    before: ManagerModel<W>,
    after: ManagerModel<W>,
    metrics_before: QlasterSenderMetrics,
    metrics_after: QlasterSenderMetrics,
    update: ServerModel,
    now_ms: u64,
    r: Dispatch,
)
    requires
        dispatched(before, after, metrics_before, metrics_after, update, now_ms, r),
        before.slots.len() == 10,
    ensures
        after.next_connection_id == before.next_connection_id,
        forall|j: int| 0 <= j < r.woken@.len() ==> #[trigger] r.woken@[j] < 10,
        forall|j: int, k: int| 0 <= j < k < r.woken@.len() ==> r.woken@[j] < r.woken@[k],
        exists|at: Seq<int>| #[trigger]
            lists(at, emptied(before.slots, after.slots), 10) && {
                &&& after.retired.len() == before.retired.len() + at.len()
                &&& after.retired.take(before.retired.len() as int) == before.retired
                &&& forall|k: int|
                    0 <= k < at.len() ==> {
                        let c = before.slots[#[trigger] at[k]]->0;
                        let gone = after.retired[before.retired.len() + k];
                        &&& gone.closed
                        &&& gone.slot_index == c.slot_index
                        &&& gone.connection_id == c.connection_id
                        &&& gone.filter == c.filter
                        &&& gone.last_seen_ms == c.last_seen_ms
                        &&& gone.waker == c.waker
                    }
            },
        r.frame is Some == (exists|i: int|
            0 <= i < 10 && (#[trigger] before.slots[i]) is Some && now_ms
                - before.slots[i]->0.last_seen_ms <= 30_000 && wants(
                before.slots[i]->0.filter,
                update,
            )),
{
    let n = MAX_CONNECTION_SLOTS as int;
    lemma_put_out_is_listed(before.slots, after.slots, update, now_ms, r.frame, n);
    let out = put_out(before.slots, after.slots, update, now_ms, r.frame, n);
    let at = choose|at: Seq<int>|
        out_is_listed(before.slots, after.slots, update, now_ms, r.frame, n, at);
    assert(after.retired.take(before.retired.len() as int) =~= before.retired);
    assert forall|k: int| 0 <= k < at.len() implies {
        let c = before.slots[#[trigger] at[k]]->0;
        let gone = after.retired[before.retired.len() + k];
        &&& gone.closed
        &&& gone.slot_index == c.slot_index
        &&& gone.connection_id == c.connection_id
        &&& gone.filter == c.filter
        &&& gone.last_seen_ms == c.last_seen_ms
        &&& gone.waker == c.waker
    } by {
        assert(after.retired[before.retired.len() + k] == out[k]);
    }
    assert(lists(at, emptied(before.slots, after.slots), 10));
    if r.frame is Some {
        let i = choose|i: int| 0 <= i < n && #[trigger] due(before.slots[i], update, now_ms);
        assert(before.slots[i] is Some);
    }
    if exists|i: int|
        0 <= i < 10 && (#[trigger] before.slots[i]) is Some && now_ms
            - before.slots[i]->0.last_seen_ms <= 30_000 && wants(
            before.slots[i]->0.filter,
            update,
        ) {
        let i = choose|i: int|
            0 <= i < 10 && (#[trigger] before.slots[i]) is Some && now_ms
                - before.slots[i]->0.last_seen_ms <= 30_000 && wants(
                before.slots[i]->0.filter,
                update,
            );
        assert(due(before.slots[i], update, now_ms));
    }
}

/// The slots whose tenants wanted the update, were heard of in the last 30 seconds,
/// and were put out.
pub open spec fn lost<W>(
    before: Seq<Option<ConnModel<W>>>,
    after: Seq<Option<ConnModel<W>>>,
    update: ServerModel,
    now_ms: u64,
) -> Set<int> {
    Set::new(
        |i: int|
            {
                &&& before[i] is Some
                &&& now_ms - before[i]->0.last_seen_ms <= 30_000
                &&& wants(before[i]->0.filter, update)
                &&& after[i] is None
            },
    )
}

/// Those who missed an update can be listed.
proof fn lemma_refusals_are_listed<W>(
    before: Seq<Option<ConnModel<W>>>,
    after: Seq<Option<ConnModel<W>>>,
    update: ServerModel,
    now_ms: u64,
    n: int,
)
    requires
        0 <= n,
    ensures
        exists|at: Seq<int>| #[trigger]
            lists(at, lost(before, after, update, now_ms), n) && at.len() == refusals(
                before,
                after,
                update,
                now_ms,
                n,
            ),
    decreases n,
{
    let chosen = lost(before, after, update, now_ms);
    if n == 0 {
        assert(lists(Seq::empty(), chosen, 0));
    } else {
        let k = n - 1;
        lemma_refusals_are_listed(before, after, update, now_ms, k);
        let at = choose|at: Seq<int>| #[trigger]
            lists(at, chosen, k) && at.len() == refusals(before, after, update, now_ms, k);
        lemma_lists_step(at, chosen, k);
        assert(chosen.contains(k) == (due(before[k], update, now_ms) && after[k] is None));
        if chosen.contains(k) {
            assert(lists(at.push(k), chosen, n));
        } else {
            assert(lists(at, chosen, n));
        }
    }
}

/// Every latency counts once.
proof fn lemma_counts_add_up(m: LatencyModel, xs: Seq<u64>)
    ensures
        m.record_all(xs).count == (m.count + xs.len()) % 0x1_0000_0000_0000_0000,
    decreases xs.len(),
{
    if xs.len() > 0 {
        lemma_counts_add_up(m, xs.drop_last());
    }
}

/// A dispatch is measured once, each ring that took the frame once, since the frame
/// was made, and each tenant that wanted the update and was put out once.
pub proof fn law_dispatch_is_measured<W>(
    before: ManagerModel<W>,
    after: ManagerModel<W>,
    metrics_before: QlasterSenderMetrics,
    metrics_after: QlasterSenderMetrics,
    update: ServerModel,
    now_ms: u64,
    r: Dispatch,
)
    requires
        dispatched(before, after, metrics_before, metrics_after, update, now_ms, r),
        before.slots.len() == 10,
    ensures
        metrics_after.dispatch@.count == (metrics_before.dispatch@.count + 1)
            % 0x1_0000_0000_0000_0000,
        metrics_after.shm_send@.count == (metrics_before.shm_send@.count + r.woken@.len())
            % 0x1_0000_0000_0000_0000,
        exists|xs: Seq<u64>|
            {
                &&& metrics_after.shm_send@ == #[trigger] metrics_before.shm_send@.record_all(xs)
                &&& xs.len() == r.woken@.len()
                &&& forall|k: int|
                    0 <= k < xs.len() ==> r.frame is Some && is_micros_since(
                        #[trigger] xs[k],
                        r.frame->0.frame_start,
                    )
            },
        exists|at: Seq<int>| #[trigger]
            lists(at, lost(before.slots, after.slots, update, now_ms), 10)
                && metrics_after.shm_ring_full@ == (metrics_before.shm_ring_full@ + at.len())
                % 0x1_0000_0000_0000_0000,
{
    let n = MAX_CONNECTION_SLOTS as int;
    lemma_refusals_are_listed(before.slots, after.slots, update, now_ms, n);
    assert(sends_measured(
        metrics_before.shm_send@,
        metrics_after.shm_send@,
        r.frame,
        r.woken@.len(),
    ));
    let xs = choose|xs: Seq<u64>|
        {
            &&& xs.len() == r.woken@.len()
            &&& metrics_after.shm_send@ == #[trigger] metrics_before.shm_send@.record_all(xs)
            &&& forall|k: int| 0 <= k < xs.len() ==> is_since(#[trigger] xs[k], r.frame)
        };
    lemma_counts_add_up(metrics_before.shm_send@, xs);
    assert(forall|k: int| 0 <= k < xs.len() ==> is_since(#[trigger] xs[k], r.frame));
}

/// The frame that goes out is the frame of the update, made at some time, and a
/// client reads the update and that time from it.
pub proof fn law_frames_carry_the_update(frame: OutboundFrame, update: ServerModel)
    requires
        carries(frame, update),
    ensures
        exists|created: u64|
            {
                &&& #[trigger] is_unix_nanos(created)
                &&& decode_server(frame.body()) == Ok::<_, ErrorModel>(
                    (
                        update,
                        Some(AccountUpdateWireMeta { sender_created_at_unix_nanos: created }),
                    ),
                )
                &&& update matches ServerModel::AccountUpdate(m) ==> frame.body() == account_frame(
                    m,
                    created,
                    attempted_block(m.payload),
                )
                &&& update matches ServerModel::TransactionUpdate(m) ==> frame.body()
                    == transaction_frame(m, created)
                &&& update matches ServerModel::SlotUpdate(m) ==> frame.body() == slot_frame(
                    m.slot,
                    created,
                )
            },
{
    let created = choose|created: u64|
        {
            &&& is_unix_nanos(created)
            &&& #[trigger] carries_at(
                frame,
                update,
                AccountUpdateWireMeta { sender_created_at_unix_nanos: created },
            )
        };
    if let ServerModel::SlotUpdate(m) = update {
        assert(frame.body() =~= slot_frame(m.slot, created));
    }
    assert(is_unix_nanos(created));
}

/// The body of a frame is its header and its payload, one behind the other. Rings
/// have 64 MiB unless the configuration says otherwise.
pub proof fn law_bodies_and_rings(frame: OutboundFrame)
    ensures
        frame.body() == bytes_view(frame.header) + bytes_view(frame.payload),
        DEFAULT_SHM_RING_CAPACITY == 67_108_864,
{
}

/// A bloom filter is made for as many keys as were asked for, for one at least.
pub proof fn law_bloom_filters_hold_all_keys(filter: FilterModel)
    ensures
        filter.bloom_items() >= 1,
        0 < filter.account_pubkeys.len() + filter.account_owners.len() <= usize::MAX
            ==> filter.bloom_items() == filter.account_pubkeys.len() + filter.account_owners.len(),
        filter.account_pubkeys.len() + filter.account_owners.len() == 0 ==> filter.bloom_items()
            == 1,
{
}

/// A frame that is offered to the ring of a slot's tenant is noted there, and no other
/// slot changes. Before a slot is looked for, a number is given out, and the tenant
/// that the request's token names is put out if it was silent for more than 30
/// seconds; nothing else happens.
pub proof fn law_one_slot_at_a_time<W>(
    m: ManagerModel<W>,
    i: int,
    j: int,
    frame: Seq<u8>,
    accepted: bool,
    request: SubscriptionModel,
    now_ms: u64,
)
    requires
        m.slots.len() == 10,
        0 <= i < 10,
        0 <= j < 10,
        m.slots[i] is Some,
    ensures
        ({
            let (c, after) = (m.slots[i]->0, m.pushed_to(i, frame, accepted));
            &&& after.slots.len() == 10
            &&& after.slots[i] matches Some(d) && {
                &&& d.ring.offers == c.ring.offers.push((frame, accepted))
                &&& d.ring.capacity == c.ring.capacity
                &&& d.filter == c.filter
                &&& d.connection_id == c.connection_id
                &&& d.last_seen_ms == c.last_seen_ms
                &&& d.closed == c.closed
                &&& d.waker == c.waker
            }
            &&& j != i ==> after.slots[j] == m.slots[j]
            &&& after.retired == m.retired
            &&& after.next_connection_id == m.next_connection_id
        }),
        ({
            let after = m.before_provision(request, now_ms);
            let silent = request.slot_token matches Some(token) && token.slot_index == j
                && m.slots[j] is Some && m.slots[j]->0.connection_id == token.generation && now_ms
                - m.slots[j]->0.last_seen_ms > 30_000;
            &&& after.slots.len() == 10
            &&& after.slots[j] == (if silent {
                None
            } else {
                m.slots[j]
            })
            &&& after.next_connection_id == (m.next_connection_id + 1) % 0x1_0000_0000_0000_0000
        }),
{
}

} // verus!
