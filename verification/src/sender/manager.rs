//! The slots of a sender and their tenants.

use crate::bloom::BloomParams;
use crate::clock::{is_unix_millis, unix_time_millis};
use crate::error::{ErrorModel, QlasterError};
use crate::le::le_u32;
use crate::sender::filter::{FilterModel, SubscriptionFilter};
use crate::shm::ring::{ProducerModel, CLOSE_SENTINEL};
use crate::text::{decimal, put_decimal};
use crate::transport::{admitted, OutboundFrame, SlotSink};
use crate::types::control::{PingRequest, SlotToken, SubscriptionModel, SubscriptionRequest};
use vstd::prelude::*;
use vstd::string::*;

verus! {

/// How many consumers a sender serves.
pub const MAX_CONNECTION_SLOTS: usize = 10;

/// A slot whose tenant was not heard of for longer than this may be taken.
pub const SLOT_IDLE_TIMEOUT_MS: u64 = 30_000;

/// The tenant of a slot.
pub struct ManagedConnection<W> {
    slot_index: usize,
    connection_id: u64,
    filter: SubscriptionFilter,
    sink: SlotSink<W>,
    last_seen_ms: u64,
}

/// The state of a [`ManagedConnection`].
#[verifier::ext_equal]
pub struct ConnModel<W> {
    pub slot_index: nat,
    pub connection_id: u64,
    pub filter: FilterModel,
    pub last_seen_ms: u64,
    pub ring: ProducerModel,
    /// Whether the sink is closed.
    pub closed: bool,
    pub waker: W,
}

impl<W> ConnModel<W> {
    /// Bytes were offered to the ring, and went in or found no room.
    pub open spec fn offer(self, bytes: Seq<u8>, accepted: bool) -> ConnModel<W> {
        ConnModel { ring: self.ring.offer(bytes, accepted), ..self }
    }

    /// A frame was offered to the ring; one that found no room is counted.
    pub open spec fn push(self, frame: Seq<u8>, accepted: bool) -> ConnModel<W> {
        ConnModel { ring: self.ring.push(frame, accepted), ..self }
    }

    /// What is offered to the ring for the body of a frame, if anything.
    pub open spec fn admits(self, body: Seq<u8>) -> Option<Seq<u8>> {
        admitted(body, self.ring.capacity, self.closed)
    }

    /// The tenant once it is put out, but for the close that its ring is offered.
    pub open spec fn put_away(self) -> ConnModel<W> {
        ConnModel { closed: true, ..self }
    }

    /// The tenant but for the last thing that its ring was offered.
    pub open spec fn but_last_offer(self) -> ConnModel<W> {
        ConnModel {
            ring: ProducerModel { offers: self.ring.offers.drop_last(), ..self.ring },
            ..self
        }
    }
}

impl<W> View for ManagedConnection<W> {
    type V = ConnModel<W>;

    closed spec fn view(&self) -> ConnModel<W> {
        ConnModel {
            slot_index: self.slot_index as nat,
            connection_id: self.connection_id,
            filter: self.filter@,
            last_seen_ms: self.last_seen_ms,
            ring: self.sink@.ring,
            closed: self.sink@.closed,
            waker: self.sink.waker(),
        }
    }
}

/// Whether a tenant last heard of then has been silent for too long now.
pub open spec fn stale(last_seen_ms: u64, now_ms: u64) -> bool {
    now_ms - last_seen_ms > SLOT_IDLE_TIMEOUT_MS
}

impl<W> ManagedConnection<W> {
    /// What wakes the tenant.
    pub fn wakeup(&self) -> (w: &W)
        ensures
            *w == self@.waker,
    {
        self.sink.wakeup()
    }

    /// The slot.
    pub fn slot_index(&self) -> (i: usize)
        ensures
            i == self@.slot_index,
    {
        self.slot_index
    }

    /// The number of the connection, which no other gets.
    pub fn connection_id(&self) -> (id: u64)
        ensures
            id == self@.connection_id,
    {
        self.connection_id
    }

    /// When the tenant was last heard of.
    pub fn last_seen_ms(&self) -> (ms: u64)
        ensures
            ms == self@.last_seen_ms,
    {
        self.last_seen_ms
    }

    /// The filter's shortcuts agree with its sets.
    pub closed spec fn filter_ready(self) -> bool {
        self.filter.wf()
    }

    /// What the tenant gets.
    pub fn filter(&self) -> (filter: &SubscriptionFilter)
        ensures
            filter@ == self@.filter,
            filter.wf() == self.filter_ready(),
    {
        &self.filter
    }

    /// Whether the tenant has been silent for too long at the given time.
    pub fn is_stale_at(&self, now_ms: u64) -> (r: bool)
        ensures
            r == stale(self@.last_seen_ms, now_ms),
    {
        now_ms.saturating_sub(self.last_seen_ms) > SLOT_IDLE_TIMEOUT_MS
    }

    /// The token by which the tenant is known.
    pub fn slot_token(&self) -> (token: SlotToken)
        requires
            self@.slot_index < MAX_CONNECTION_SLOTS,
        ensures
            token == (SlotToken {
                slot_index: self@.slot_index as u8,
                generation: self@.connection_id,
            }),
    {
        SlotToken::new(self.slot_index as u8, self.connection_id)
    }
}

/// The state of a [`ConnectionManager`].
#[verifier::ext_equal]
pub struct ManagerModel<W> {
    pub slots: Seq<Option<ConnModel<W>>>,
    pub next_connection_id: u64,
    /// Those that were put out, with all that their rings were offered before
    /// the close.
    pub retired: Seq<ConnModel<W>>,
}

impl<W> ManagerModel<W> {
    /// The slot is emptied and its tenant retired.
    pub open spec fn retire(self, i: int) -> ManagerModel<W> {
        ManagerModel {
            slots: self.slots.update(i, None),
            retired: self.retired.push(self.slots[i]->0.put_away()),
            ..self
        }
    }

    /// Whether the slot has a tenant that has been silent for too long.
    pub open spec fn is_stale(self, i: int, now_ms: u64) -> bool {
        self.slots[i] matches Some(c) && stale(c.last_seen_ms, now_ms)
    }

    /// A tenant that has been silent for too long is retired.
    pub open spec fn sweep(self, i: int, now_ms: u64) -> ManagerModel<W> {
        if self.is_stale(i, now_ms) {
            self.retire(i)
        } else {
            self
        }
    }

    /// Whether the token names the present tenant of a slot, silent or not.
    pub open spec fn names(self, token: SlotToken) -> bool {
        &&& token.slot_index < MAX_CONNECTION_SLOTS
        &&& self.slots[token.slot_index as int] matches Some(c) && c.connection_id
            == token.generation
    }

    /// Whether the token is good: it names the present tenant of a slot, and
    /// that has not been silent for too long.
    pub open spec fn holds(self, token: SlotToken, now_ms: u64) -> bool {
        self.names(token) && !self.is_stale(token.slot_index as int, now_ms)
    }

    /// A tenant that is looked for and was silent for too long is retired.
    pub open spec fn after_lookup(self, token: SlotToken, now_ms: u64) -> ManagerModel<W> {
        if self.names(token) {
            self.sweep(token.slot_index as int, now_ms)
        } else {
            self
        }
    }

    /// The tenant of the slot is heard of.
    pub open spec fn heard(self, i: int, now_ms: u64) -> ManagerModel<W> {
        ManagerModel {
            slots: self.slots.update(
                i,
                Some(ConnModel { last_seen_ms: now_ms, ..self.slots[i]->0 }),
            ),
            ..self
        }
    }

    /// The tenant of the slot is heard of and asks for more.
    pub open spec fn resubscribed(self, i: int, now_ms: u64, request: SubscriptionModel) -> ManagerModel<
        W,
    > {
        let c = self.slots[i]->0;
        ManagerModel {
            slots: self.slots.update(
                i,
                Some(
                    ConnModel {
                        last_seen_ms: now_ms,
                        filter: c.filter.with_request(request),
                        ..c
                    },
                ),
            ),
            ..self
        }
    }

    /// A frame was offered to the ring of the slot's tenant.
    pub open spec fn pushed_to(self, i: int, frame: Seq<u8>, accepted: bool) -> ManagerModel<W> {
        ManagerModel {
            slots: self.slots.update(i, Some(self.slots[i]->0.push(frame, accepted))),
            ..self
        }
    }

    /// One connection number is used up; they wrap around.
    pub open spec fn numbered(self) -> ManagerModel<W> {
        ManagerModel {
            next_connection_id: ((self.next_connection_id + 1) % 0x1_0000_0000_0000_0000) as u64,
            ..self
        }
    }

    /// Whether the slot is free, or can be made so.
    pub open spec fn takable(self, i: int, now_ms: u64) -> bool {
        self.slots[i] is None || self.is_stale(i, now_ms)
    }

    /// The slot is the first one that is free, or can be made so.
    pub open spec fn first_takable(self, i: int, now_ms: u64) -> bool {
        &&& 0 <= i < MAX_CONNECTION_SLOTS
        &&& self.takable(i, now_ms)
        &&& forall|j: int| 0 <= j < i ==> !self.takable(j, now_ms)
    }

    /// No slot is free, nor can be made so.
    pub open spec fn exhausted(self, now_ms: u64) -> bool {
        forall|j: int| 0 <= j < MAX_CONNECTION_SLOTS ==> !self.takable(j, now_ms)
    }

    /// The slot gets a tenant.
    pub open spec fn installed(self, i: int, c: ConnModel<W>) -> ManagerModel<W> {
        ManagerModel { slots: self.slots.update(i, Some(c)), ..self }
    }

    /// What remains of the slots once a request did not come with a good token:
    /// the tenant that its token names is put out, and a number is used up.
    pub open spec fn before_provision(self, request: SubscriptionModel, now_ms: u64) -> ManagerModel<
        W,
    > {
        match request.slot_token {
            Some(token) => self.after_lookup(token, now_ms).numbered(),
            None => self.numbered(),
        }
    }

    /// Every tenant has a number that was given out, and no two the same.
    pub open spec fn distinctly_numbered(self) -> bool {
        &&& forall|i: int|
            0 <= i < self.slots.len() && (#[trigger] self.slots[i]) is Some
                ==> self.slots[i]->0.connection_id < self.next_connection_id
        &&& forall|i: int, j: int|
            0 <= i < j < self.slots.len() && (#[trigger] self.slots[i]) is Some && (
            #[trigger] self.slots[j]) is Some ==> self.slots[i]->0.connection_id
                != self.slots[j]->0.connection_id
    }
}

/// What is to be done for a subscription request.
pub enum ShmSlotPlan {
    /// The slot of the request's token gets what was asked for.
    Existing(SlotToken),
    /// A ring is to be made for this free slot, for a tenant with this number
    /// and this filter.
    Provision { slot_index: usize, connection_id: u64, filter: SubscriptionFilter },
}

/// What a slot that could not be taken gives back.
pub struct NotInstalled<W> {
    pub filter: SubscriptionFilter,
    pub sink: SlotSink<W>,
}

/// What came of an attempt to give a slot to a tenant.
pub enum Installation {
    /// The slot has its tenant, which has this token.
    Installed(SlotToken),
    /// The slot was taken meanwhile, and a ring is to be made for this free one.
    Retry { slot_index: usize, filter: SubscriptionFilter },
    /// The slot was taken meanwhile, and no other is free.
    Failed(QlasterError),
}

/// The name of the ring file of a connection.
pub fn ring_file_name(pid: u32, slot_index: usize, connection_id: u64) -> (name: String)
    ensures
        name@ == decimal(pid as nat) + "-"@ + decimal(slot_index as nat) + "-"@ + decimal(
            connection_id as nat,
        ),
{
    let mut name = String::from_str("");
    proof {
        reveal_strlit("");
        assert(name@ =~= Seq::<char>::empty());
    }
    put_decimal(&mut name, pid as u64);
    assert(name@ =~= decimal(pid as nat));
    name.append("-");
    put_decimal(&mut name, slot_index as u64);
    name.append("-");
    put_decimal(&mut name, connection_id);
    name
}

/// The slots of a sender. Tenants that are put out are kept, closed, until the
/// caller takes them to wake them a last time.
pub struct ConnectionManager<W> {
    connections: Vec<Option<ManagedConnection<W>>>,
    next_connection_id: u64,
    retired: Vec<ManagedConnection<W>>,
}

/// The slots as models.
spec fn slots_view<W>(connections: Seq<Option<ManagedConnection<W>>>) -> Seq<Option<ConnModel<W>>> {
    Seq::new(
        connections.len(),
        |i: int|
            match connections[i] {
                Some(c) => Some(c@),
                None => None,
            },
    )
}

/// The retired tenants as models.
spec fn retired_view<W>(retired: Seq<ManagedConnection<W>>) -> Seq<ConnModel<W>> {
    Seq::new(retired.len(), |i: int| retired[i]@.but_last_offer())
}

impl<W> View for ConnectionManager<W> {
    type V = ManagerModel<W>;

    closed spec fn view(&self) -> ManagerModel<W> {
        ManagerModel {
            slots: slots_view(self.connections@),
            next_connection_id: self.next_connection_id,
            retired: retired_view(self.retired@),
        }
    }
}

impl<W> ConnectionManager<W> {
    /// There are as many slots as there should be, every tenant knows its slot,
    /// and its filter is in order. The last thing that the ring of a former
    /// tenant was offered is the close.
    pub closed spec fn wf(self) -> bool {
        &&& self.connections@.len() == MAX_CONNECTION_SLOTS
        &&& forall|i: int|
            0 <= i < MAX_CONNECTION_SLOTS ==> {
                (#[trigger] self.connections@[i]) matches Some(c) ==> {
                    &&& c.slot_index == i
                    &&& c.filter.wf()
                }
            }
        &&& forall|k: int|
            0 <= k < self.retired@.len() ==> {
                &&& (#[trigger] self.retired@[k]).slot_index < MAX_CONNECTION_SLOTS
                &&& self.retired@[k]@.ring.offers.len() > 0
                &&& self.retired@[k]@.ring.offers.last().0 == le_u32(CLOSE_SENTINEL)
            }
    }

    /// There are as many slots as there should be.
    pub proof fn lemma_slot_count(self)
        requires
            self.wf(),
        ensures
            self@.slots.len() == MAX_CONNECTION_SLOTS,
    {
    }

    /// A manager whose slots are all free.
    pub fn new() -> (r: ConnectionManager<W>)
        ensures
            r.wf(),
            r@.slots.len() == MAX_CONNECTION_SLOTS,
            forall|i: int| 0 <= i < MAX_CONNECTION_SLOTS ==> (#[trigger] r@.slots[i]) is None,
            r@.next_connection_id == 1,
            r@.retired.len() == 0,
    {
        let mut connections: Vec<Option<ManagedConnection<W>>> = Vec::with_capacity(
            MAX_CONNECTION_SLOTS,
        );
        let mut k: usize = 0;
        while k < MAX_CONNECTION_SLOTS
            invariant
                k <= MAX_CONNECTION_SLOTS,
                connections@.len() == k,
                forall|i: int| 0 <= i < k ==> (#[trigger] connections@[i]) is None,
            decreases MAX_CONNECTION_SLOTS - k,
        {
            connections.push(None);
            k += 1;
        }
        ConnectionManager { connections, next_connection_id: 1, retired: Vec::new() }
    }

    /// Milliseconds since the Unix epoch.
    pub fn now_ms() -> (ms: u64)
        ensures
            is_unix_millis(ms),
    {
        unix_time_millis()
    }

    /// The tenant of a slot.
    pub fn connection(&self, idx: usize) -> (c: Option<&ManagedConnection<W>>)
        requires
            self.wf(),
            idx < MAX_CONNECTION_SLOTS,
        ensures
            match c {
                Some(c) => {
                    &&& self@.slots[idx as int] == Some(c@)
                    &&& c@.slot_index == idx
                    &&& c.filter_ready()
                },
                None => self@.slots[idx as int] is None,
            },
    {
        match &self.connections[idx] {
            Some(c) => Some(c),
            None => None,
        }
    }

    /// Hands over the tenants that were put out since the last time. The ring of
    /// each was offered the close.
    pub fn take_retired(&mut self) -> (retired: Vec<ManagedConnection<W>>)
        requires
            old(self).wf(),
        ensures
            final(self).wf(),
            retired@.len() == old(self)@.retired.len(),
            forall|i: int|
                0 <= i < retired@.len() ==> {
                    &&& exists|accepted: bool|
                        (#[trigger] retired@[i])@ == #[trigger] old(self)@.retired[i].offer(
                            le_u32(CLOSE_SENTINEL),
                            accepted,
                        )
                    &&& retired@[i]@.slot_index < MAX_CONNECTION_SLOTS
                },
            final(self)@ == (ManagerModel { retired: Seq::empty(), ..old(self)@ }),
    {
        let mut taken: Vec<ManagedConnection<W>> = Vec::new();
        std::mem::swap(&mut self.retired, &mut taken);
        assert(self@.retired =~= Seq::empty());
        assert(self@.slots =~= old(self)@.slots);
        proof {
            let close = le_u32(CLOSE_SENTINEL);
            assert forall|i: int| 0 <= i < taken@.len() implies exists|accepted: bool|
                (#[trigger] taken@[i])@ == #[trigger] old(self)@.retired[i].offer(
                    close,
                    accepted,
                ) by {
                let accepted = taken@[i]@.ring.offers.last().1;
                assert(taken@[i]@.ring.offers =~= taken@[i]@.ring.offers.drop_last().push(
                    (close, accepted),
                ));
                assert(taken@[i]@ == old(self)@.retired[i].offer(close, accepted));
            }
        }
        taken
    }

    /// Closes the ring of the slot's tenant and puts the tenant out.
    fn retire(&mut self, idx: usize)
        requires
            old(self).wf(),
            idx < MAX_CONNECTION_SLOTS,
            old(self)@.slots[idx as int] is Some,
        ensures
            final(self).wf(),
            final(self)@ == old(self)@.retire(idx as int),
    {
        let mut slot: Option<ManagedConnection<W>> = None;
        std::mem::swap(&mut self.connections[idx], &mut slot);
        match slot {
            Some(mut entry) => {
                let ghost c = entry@;
                entry.sink.close();
                assert(entry@.ring.offers.drop_last() =~= c.ring.offers);
                assert(entry@.but_last_offer() == c.put_away());
                self.retired.push(entry);
            },
            None => {},
        }
        assert(self@.slots =~= old(self)@.retire(idx as int).slots);
        assert(self@.retired =~= old(self)@.retire(idx as int).retired);
    }

    /// Puts out the present tenant of the slot.
    pub(crate) fn evict(&mut self, idx: usize)
        requires
            old(self).wf(),
            idx < MAX_CONNECTION_SLOTS,
            old(self)@.slots[idx as int] is Some,
        ensures
            final(self).wf(),
            final(self)@ == old(self)@.retire(idx as int),
    {
        let connection_id: u64 = match &self.connections[idx] {
            Some(entry) => entry.connection_id,
            None => 0,
        };
        self.cleanup_if_same(idx, connection_id);
    }

    /// Offers a frame to the ring of the slot's tenant, and says whether the
    /// ring took it. A frame that the tenant's sink does not admit is not offered.
    pub(crate) fn offer(&mut self, idx: usize, frame: OutboundFrame) -> (accepted: bool)
        requires
            old(self).wf(),
            idx < MAX_CONNECTION_SLOTS,
            old(self)@.slots[idx as int] is Some,
            frame.body().len() <= usize::MAX,
        ensures
            final(self).wf(),
            match old(self)@.slots[idx as int]->0.admits(frame.body()) {
                None => !accepted && final(self)@ == old(self)@,
                Some(bytes) => final(self)@ == old(self)@.pushed_to(idx as int, bytes, accepted),
            },
    {
        let mut accepted = false;
        let mut slot: Option<ManagedConnection<W>> = None;
        std::mem::swap(&mut self.connections[idx], &mut slot);
        if let Some(entry) = slot {
            let ManagedConnection { slot_index, connection_id, filter, mut sink, last_seen_ms } =
                entry;
            accepted = sink.try_push(frame).is_ok();
            self.connections[idx] = Some(
                ManagedConnection { slot_index, connection_id, filter, sink, last_seen_ms },
            );
        }
        proof {
            match old(self)@.slots[idx as int]->0.admits(frame.body()) {
                None => {
                    assert(self@.slots =~= old(self)@.slots);
                },
                Some(bytes) => {
                    assert(self@.slots =~= old(self)@.pushed_to(idx as int, bytes, accepted).slots);
                },
            }
        }
        assert(self@.retired =~= old(self)@.retired);
        accepted
    }

    /// Puts out the slot's tenant if it still is the one with that number.
    pub fn cleanup_if_same(&mut self, slot_index: usize, connection_id: u64)
        requires
            old(self).wf(),
            slot_index < MAX_CONNECTION_SLOTS,
        ensures
            final(self).wf(),
            final(self)@ == (if old(self)@.slots[slot_index as int] matches Some(c)
                && c.connection_id == connection_id {
                old(self)@.retire(slot_index as int)
            } else {
                old(self)@
            }),
    {
        let same = match &self.connections[slot_index] {
            Some(entry) => entry.connection_id == connection_id,
            None => false,
        };
        if same {
            self.retire(slot_index);
        }
    }

    /// Puts out the slot's tenant if it has been silent for too long, and says
    /// whether it did.
    pub fn maybe_cleanup_stale_slot(&mut self, idx: usize, now_ms: u64) -> (r: bool)
        requires
            old(self).wf(),
            idx < MAX_CONNECTION_SLOTS,
        ensures
            final(self).wf(),
            r == old(self)@.is_stale(idx as int, now_ms),
            final(self)@ == old(self)@.sweep(idx as int, now_ms),
    {
        let is_stale = match &self.connections[idx] {
            Some(entry) => entry.is_stale_at(now_ms),
            None => false,
        };
        if is_stale {
            self.retire(idx);
        }
        is_stale
    }

    /// The slot that a good token names. A tenant that has been silent for too
    /// long is put out.
    pub fn lookup_by_token(&mut self, token: SlotToken, now_ms: u64) -> (r: Option<usize>)
        requires
            old(self).wf(),
        ensures
            final(self).wf(),
            r == (if old(self)@.holds(token, now_ms) {
                Some(token.slot_index as usize)
            } else {
                None
            }),
            final(self)@ == old(self)@.after_lookup(token, now_ms),
    {
        let idx: usize = token.slot_index as usize;
        if idx >= MAX_CONNECTION_SLOTS {
            return None;
        }
        let same = match &self.connections[idx] {
            Some(entry) => entry.connection_id == token.generation,
            None => false,
        };
        if !same {
            return None;
        }
        if self.maybe_cleanup_stale_slot(idx, now_ms) {
            return None;
        }
        Some(idx)
    }

    /// The first slot that is free. A tenant on the way that has been silent
    /// for too long is put out.
    pub fn find_free_slot(&mut self, now_ms: u64) -> (r: Option<usize>)
        requires
            old(self).wf(),
        ensures
            final(self).wf(),
            match r {
                Some(i) => {
                    &&& old(self)@.first_takable(i as int, now_ms)
                    &&& final(self)@ == old(self)@.sweep(i as int, now_ms)
                    &&& final(self)@.slots[i as int] is None
                },
                None => old(self)@.exhausted(now_ms) && final(self)@ == old(self)@,
            },
    {
        let mut idx: usize = 0;
        while idx < MAX_CONNECTION_SLOTS
            invariant
                idx <= MAX_CONNECTION_SLOTS,
                self.wf(),
                self@ == old(self)@,
                forall|j: int| 0 <= j < idx ==> !old(self)@.takable(j, now_ms),
            decreases MAX_CONNECTION_SLOTS - idx,
        {
            let free = match &self.connections[idx] {
                Some(_) => false,
                None => true,
            };
            if free {
                return Some(idx);
            }
            if self.maybe_cleanup_stale_slot(idx, now_ms) {
                return Some(idx);
            }
            idx += 1;
        }
        None
    }

    /// Notes that the tenant of a ping's token was heard of, and says whether
    /// the token was good.
    pub fn touch_ping_at(&mut self, ping: &PingRequest, now_ms: u64) -> (r: bool)
        requires
            old(self).wf(),
        ensures
            final(self).wf(),
            r == old(self)@.holds(ping.slot_token, now_ms),
            final(self)@ == (if r {
                old(self)@.heard(ping.slot_token.slot_index as int, now_ms)
            } else {
                old(self)@.after_lookup(ping.slot_token, now_ms)
            }),
    {
        match self.lookup_by_token(ping.slot_token, now_ms) {
            Some(idx) => {
                self.hear(idx, now_ms);
                true
            },
            None => false,
        }
    }

    /// Notes that the tenant of the slot was heard of.
    fn hear(&mut self, idx: usize, now_ms: u64)
        requires
            old(self).wf(),
            idx < MAX_CONNECTION_SLOTS,
            old(self)@.slots[idx as int] is Some,
        ensures
            final(self).wf(),
            final(self)@ == old(self)@.heard(idx as int, now_ms),
    {
        let mut slot: Option<ManagedConnection<W>> = None;
        std::mem::swap(&mut self.connections[idx], &mut slot);
        if let Some(entry) = slot {
            let ManagedConnection { slot_index, connection_id, filter, sink, last_seen_ms: _ } =
                entry;
            self.connections[idx] = Some(
                ManagedConnection { slot_index, connection_id, filter, sink, last_seen_ms: now_ms },
            );
        }
        assert(self@.slots =~= old(self)@.heard(idx as int, now_ms).slots);
        assert(self@.retired =~= old(self)@.retired);
    }
}

impl<W> ConnectionManager<W> {
    /// Notes that the tenant of the slot was heard of, and adds to its filter.
    fn resubscribe<F: FnOnce(usize) -> BloomParams>(
        &mut self,
        idx: usize,
        now_ms: u64,
        request: &SubscriptionRequest,
        make_bloom: F,
    ) -> (token: SlotToken)
        requires
            old(self).wf(),
            idx < MAX_CONNECTION_SLOTS,
            old(self)@.slots[idx as int] is Some,
            forall|n: usize| n > 0 ==> call_requires(make_bloom, (n,)),
            forall|n: usize, p: BloomParams| #[trigger]
                call_ensures(make_bloom, (n,), p) ==> p.valid(),
        ensures
            final(self).wf(),
            final(self)@ == old(self)@.resubscribed(idx as int, now_ms, request@),
            token == (SlotToken {
                slot_index: idx as u8,
                generation: old(self)@.slots[idx as int]->0.connection_id,
            }),
    {
        let mut token = SlotToken::new(0, 0);
        let mut slot: Option<ManagedConnection<W>> = None;
        std::mem::swap(&mut self.connections[idx], &mut slot);
        if let Some(entry) = slot {
            token = entry.slot_token();
            let ManagedConnection { slot_index, connection_id, filter, sink, last_seen_ms: _ } =
                entry;
            let filter = filter.with_request(request, make_bloom);
            self.connections[idx] = Some(
                ManagedConnection { slot_index, connection_id, filter, sink, last_seen_ms: now_ms },
            );
        }
        assert(self@.slots =~= old(self)@.resubscribed(idx as int, now_ms, request@).slots);
        assert(self@.retired =~= old(self)@.retired);
        token
    }

    /// The first slot that is free, or the error that there is none.
    pub fn free_slot(&mut self, now_ms: u64) -> (r: Result<usize, QlasterError>)
        requires
            old(self).wf(),
        ensures
            final(self).wf(),
            match r {
                Ok(i) => {
                    &&& old(self)@.first_takable(i as int, now_ms)
                    &&& final(self)@ == old(self)@.sweep(i as int, now_ms)
                    &&& final(self)@.slots[i as int] is None
                },
                Err(e) => {
                    &&& old(self)@.exhausted(now_ms)
                    &&& e@ == ErrorModel::ConfigError("connection slots exhausted (max 10)"@)
                    &&& final(self)@ == old(self)@
                },
            },
    {
        match self.find_free_slot(now_ms) {
            Some(slot_index) => Ok(slot_index),
            None => Err(
                QlasterError::ConfigError(String::from_str("connection slots exhausted (max 10)")),
            ),
        }
    }

    /// Decides what is to be done for a subscription request. With a good token
    /// it is done at once: the tenant was heard of and its filter grows.
    /// Otherwise a number is used up and a free slot is looked for.
    pub fn plan_subscription<F: FnOnce(usize) -> BloomParams>(
        &mut self,
        request: &SubscriptionRequest,
        now_ms: u64,
        make_bloom: F,
    ) -> (r: Result<ShmSlotPlan, QlasterError>)
        requires
            old(self).wf(),
            forall|n: usize| n > 0 ==> call_requires(make_bloom, (n,)),
            forall|n: usize, p: BloomParams| #[trigger]
                call_ensures(make_bloom, (n,), p) ==> p.valid(),
        ensures
            final(self).wf(),
            ({
                let good = request.slot_token matches Some(token) && old(self)@.holds(
                    token,
                    now_ms,
                );
                let before = old(self)@.before_provision(request@, now_ms);
                match r {
                    Ok(ShmSlotPlan::Existing(token)) => {
                        &&& good
                        &&& request.slot_token == Some(token)
                        &&& final(self)@ == old(self)@.resubscribed(
                            token.slot_index as int,
                            now_ms,
                            request@,
                        )
                    },
                    Ok(ShmSlotPlan::Provision { slot_index, connection_id, filter }) => {
                        &&& !good
                        &&& before.first_takable(slot_index as int, now_ms)
                        &&& connection_id == old(self)@.next_connection_id
                        &&& filter.wf()
                        &&& filter@ == FilterModel::of_request(request@)
                        &&& final(self)@ == before.sweep(slot_index as int, now_ms)
                        &&& final(self)@.slots[slot_index as int] is None
                    },
                    Err(e) => {
                        &&& !good
                        &&& before.exhausted(now_ms)
                        &&& e@ == ErrorModel::ConfigError(
                            "connection slots exhausted (max 10)"@,
                        )
                        &&& final(self)@ == before
                    },
                }
            }),
    {
        if let Some(token) = request.slot_token {
            if let Some(idx) = self.lookup_by_token(token, now_ms) {
                let token = self.resubscribe(idx, now_ms, request, make_bloom);
                return Ok(ShmSlotPlan::Existing(token));
            }
        }
        let filter = SubscriptionFilter::from_request(request, make_bloom);
        let connection_id: u64 = self.next_connection_id;
        self.next_connection_id = connection_id.wrapping_add(1);
        assert(self@ =~= old(self)@.before_provision(request@, now_ms));
        match self.free_slot(now_ms) {
            Ok(slot_index) => Ok(ShmSlotPlan::Provision { slot_index, connection_id, filter }),
            Err(e) => Err(e),
        }
    }

    /// Gives a free slot to a tenant, and returns its token. Filter and sink
    /// come back if the slot is not free.
    pub fn install(
        &mut self,
        slot_index: usize,
        connection_id: u64,
        filter: SubscriptionFilter,
        sink: SlotSink<W>,
        now_ms: u64,
    ) -> (r: Result<SlotToken, NotInstalled<W>>)
        requires
            old(self).wf(),
            slot_index < MAX_CONNECTION_SLOTS,
            filter.wf(),
        ensures
            final(self).wf(),
            match r {
                Ok(token) => {
                    &&& old(self)@.slots[slot_index as int] is None
                    &&& token == (SlotToken {
                        slot_index: slot_index as u8,
                        generation: connection_id,
                    })
                    &&& final(self)@ == old(self)@.installed(
                        slot_index as int,
                        ConnModel {
                            slot_index: slot_index as nat,
                            connection_id,
                            filter: filter@,
                            last_seen_ms: now_ms,
                            ring: sink@.ring,
                            closed: sink@.closed,
                            waker: sink.waker(),
                        },
                    )
                },
                Err(back) => {
                    &&& old(self)@.slots[slot_index as int] is Some
                    &&& back.filter == filter
                    &&& back.sink == sink
                    &&& final(self)@ == old(self)@
                },
            },
    {
        let free = match &self.connections[slot_index] {
            Some(_) => false,
            None => true,
        };
        if !free {
            return Err(NotInstalled { filter, sink });
        }
        let ghost c = ConnModel {
            slot_index: slot_index as nat,
            connection_id,
            filter: filter@,
            last_seen_ms: now_ms,
            ring: sink@.ring,
            closed: sink@.closed,
            waker: sink.waker(),
        };
        self.connections[slot_index] = Some(
            ManagedConnection { slot_index, connection_id, filter, sink, last_seen_ms: now_ms },
        );
        assert(self@.slots =~= old(self)@.installed(slot_index as int, c).slots);
        assert(self@.retired =~= old(self)@.retired);
        Ok(SlotToken::new(slot_index as u8, connection_id))
    }

    /// Gives a slot to a tenant if it is still free, or looks for the next free
    /// one. A sink that was made for a slot which was taken meanwhile is dropped.
    pub fn install_or_retry(
        &mut self,
        slot_index: usize,
        connection_id: u64,
        filter: SubscriptionFilter,
        sink: SlotSink<W>,
        now_ms: u64,
    ) -> (r: Installation)
        requires
            old(self).wf(),
            slot_index < MAX_CONNECTION_SLOTS,
            filter.wf(),
        ensures
            final(self).wf(),
            match r {
                Installation::Installed(token) => {
                    &&& old(self)@.slots[slot_index as int] is None
                    &&& token == (SlotToken {
                        slot_index: slot_index as u8,
                        generation: connection_id,
                    })
                    &&& final(self)@ == old(self)@.installed(
                        slot_index as int,
                        ConnModel {
                            slot_index: slot_index as nat,
                            connection_id,
                            filter: filter@,
                            last_seen_ms: now_ms,
                            ring: sink@.ring,
                            closed: sink@.closed,
                            waker: sink.waker(),
                        },
                    )
                },
                Installation::Retry { slot_index: next, filter: back } => {
                    &&& old(self)@.slots[slot_index as int] is Some
                    &&& old(self)@.first_takable(next as int, now_ms)
                    &&& final(self)@ == old(self)@.sweep(next as int, now_ms)
                    &&& final(self)@.slots[next as int] is None
                    &&& back == filter
                },
                Installation::Failed(e) => {
                    &&& old(self)@.slots[slot_index as int] is Some
                    &&& old(self)@.exhausted(now_ms)
                    &&& e@ == ErrorModel::ConfigError("connection slots exhausted (max 10)"@)
                    &&& final(self)@ == old(self)@
                },
            },
    {
        match self.install(slot_index, connection_id, filter, sink, now_ms) {
            Ok(token) => Installation::Installed(token),
            Err(back) => match self.free_slot(now_ms) {
                Ok(next) => Installation::Retry { slot_index: next, filter: back.filter },
                Err(e) => Installation::Failed(e),
            },
        }
    }

    /// Notes that the tenant of a ping's token was heard of now, and says
    /// whether the token was good.
    pub fn touch_ping(&mut self, ping: &PingRequest) -> (r: bool)
        requires
            old(self).wf(),
        ensures
            final(self).wf(),
            exists|now_ms: u64|
                {
                    &&& is_unix_millis(now_ms)
                    &&& r == #[trigger] old(self)@.holds(ping.slot_token, now_ms)
                    &&& final(self)@ == (if r {
                        old(self)@.heard(ping.slot_token.slot_index as int, now_ms)
                    } else {
                        old(self)@.after_lookup(ping.slot_token, now_ms)
                    })
                },
    {
        let now_ms: u64 = ConnectionManager::<W>::now_ms();
        self.touch_ping_at(ping, now_ms)
    }
}

/// Tenants keep distinct numbers when one is put out, heard of, or asks for more.
pub proof fn law_numbers_stay_distinct<W>(
    m: ManagerModel<W>,
    i: int,
    now_ms: u64,
    request: SubscriptionModel,
)
    requires
        m.distinctly_numbered(),
        0 <= i < m.slots.len(),
        m.slots[i] is Some,
    ensures
        m.retire(i).distinctly_numbered(),
        m.heard(i, now_ms).distinctly_numbered(),
        m.resubscribed(i, now_ms, request).distinctly_numbered(),
{
}

/// Tenants keep distinct numbers when a slot gets one with the next number, as
/// long as the numbers do not wrap around.
pub proof fn law_new_tenant_has_a_number_of_its_own<W>(m: ManagerModel<W>, i: int, c: ConnModel<W>)
    requires
        m.distinctly_numbered(),
        0 <= i < m.slots.len(),
        m.next_connection_id < u64::MAX,
        c.connection_id == m.next_connection_id,
    ensures
        m.numbered().distinctly_numbered(),
        m.numbered().installed(i, c).distinctly_numbered(),
{
}

/// A token that names no tenant names none after a slot got a tenant with a new
/// number: a consumer that was put out cannot act on its slot's next tenant.
pub proof fn law_old_token_stays_bad<W>(
    m: ManagerModel<W>,
    token: SlotToken,
    i: int,
    c: ConnModel<W>,
)
    requires
        m.slots.len() == MAX_CONNECTION_SLOTS,
        0 <= i < m.slots.len(),
        token.generation < m.next_connection_id,
        !m.names(token),
        c.connection_id == m.next_connection_id,
    ensures
        !m.numbered().installed(i, c).names(token),
{
}

/// The token of a tenant that was just put out is not good.
pub proof fn law_retired_token_is_bad<W>(m: ManagerModel<W>, i: int, token: SlotToken, now_ms: u64)
    requires
        m.slots.len() == MAX_CONNECTION_SLOTS,
        0 <= i < m.slots.len(),
        token.slot_index == i,
    ensures
        !m.retire(i).holds(token, now_ms),
{
}

/// A tenant that was just given a slot is found by its token, until it has been
/// silent for too long.
pub proof fn law_new_tenant_is_found<W>(m: ManagerModel<W>, i: int, c: ConnModel<W>, now_ms: u64)
    requires
        m.slots.len() == MAX_CONNECTION_SLOTS,
        0 <= i < m.slots.len(),
    ensures
        m.installed(i, c).slots[i] == Some(c),
        m.installed(i, c).holds(
            SlotToken { slot_index: i as u8, generation: c.connection_id },
            now_ms,
        ) == !stale(c.last_seen_ms, now_ms),
        !stale(c.last_seen_ms, c.last_seen_ms),
{
}

} // verus!
