//! The fan-out of one update to all slots that want it.

use crate::clock::{elapsed_micros, instant_now, is_latency, is_micros_since, is_unix_millis};
use crate::metrics::{LatencyModel, QlasterSenderMetrics};
use crate::sender::filter::FilterModel;
use crate::sender::manager::{
    stale, ConnModel, ConnectionManager, ManagerModel, MAX_CONNECTION_SLOTS,
};
use crate::sender::update::{carries, wants, UPDATE_FRAME_BOUND};
use crate::transport::OutboundFrame;
use crate::types::account::{AccountModel, AccountUpdate};
use crate::types::frame::ServerModel;
use crate::types::slot::SlotUpdate;
use crate::types::transaction::{TransactionModel, TransactionUpdate};
use crate::types::update::Update;
use vstd::prelude::*;

verus! {

/// Whether the slot's tenant is to get the update.
pub open spec fn due<W>(slot: Option<ConnModel<W>>, update: ServerModel, now_ms: u64) -> bool {
    slot matches Some(c) && !stale(c.last_seen_ms, now_ms) && wants(c.filter, update)
}

/// What a dispatch may do to a slot: a silent tenant is put out; one that does
/// not want the update is left alone; one that wants it gets the frame into its
/// ring and is woken, or is put out, for the reasons that [`gone`] tells.
pub open spec fn slot_dispatched<W>(
    before: Option<ConnModel<W>>,
    after: Option<ConnModel<W>>,
    update: ServerModel,
    now_ms: u64,
    frame: Option<OutboundFrame>,
    woken: bool,
) -> bool {
    match before {
        None => after is None && !woken,
        Some(c) => if stale(c.last_seen_ms, now_ms) {
            after is None && !woken
        } else if !wants(c.filter, update) {
            after == before && !woken
        } else if after is None {
            !woken
        } else {
            &&& frame is Some
            &&& c.admits(frame->0.body()) matches Some(bytes) && after == Some(c.push(bytes, true))
            &&& woken
        },
    }
}

/// What becomes of a tenant that a dispatch puts out. One that was to get the
/// update is put out because its ring was offered the frame and did not take it,
/// or because its sink did not admit the frame.
pub open spec fn gone<W>(
    c: ConnModel<W>,
    update: ServerModel,
    now_ms: u64,
    frame: Option<OutboundFrame>,
) -> ConnModel<W> {
    match frame {
        Some(frame) => match c.admits(frame.body()) {
            Some(bytes) => if due(Some(c), update, now_ms) {
                c.push(bytes, false).put_away()
            } else {
                c.put_away()
            },
            None => c.put_away(),
        },
        None => c.put_away(),
    }
}

/// The tenants of the first `k` slots that were put out, in order.
pub open spec fn put_out<W>(
    before: Seq<Option<ConnModel<W>>>,
    after: Seq<Option<ConnModel<W>>>,
    update: ServerModel,
    now_ms: u64,
    frame: Option<OutboundFrame>,
    k: int,
) -> Seq<ConnModel<W>>
    decreases k,
{
    if k <= 0 {
        Seq::empty()
    } else {
        let earlier = put_out(before, after, update, now_ms, frame, k - 1);
        if before[k - 1] is Some && after[k - 1] is None {
            earlier.push(gone(before[k - 1]->0, update, now_ms, frame))
        } else {
            earlier
        }
    }
}

/// How many of the first `k` slots were to get the update and were put out.
pub open spec fn refusals<W>(
    before: Seq<Option<ConnModel<W>>>,
    after: Seq<Option<ConnModel<W>>>,
    update: ServerModel,
    now_ms: u64,
    k: int,
) -> nat
    decreases k,
{
    if k <= 0 {
        0
    } else {
        let earlier = refusals(before, after, update, now_ms, k - 1);
        if due(before[k - 1], update, now_ms) && after[k - 1] is None {
            earlier + 1
        } else {
            earlier
        }
    }
}

/// What was put out of the first slots does not depend on the others, nor on
/// the frame if none of them was to get it.
proof fn lemma_first_slots<W>(
    before: Seq<Option<ConnModel<W>>>,
    a: Seq<Option<ConnModel<W>>>,
    b: Seq<Option<ConnModel<W>>>,
    update: ServerModel,
    now_ms: u64,
    frame_a: Option<OutboundFrame>,
    frame_b: Option<OutboundFrame>,
    k: int,
)
    requires
        forall|j: int| 0 <= j < k ==> a[j] == b[j],
        frame_a == frame_b || forall|j: int|
            0 <= j < k ==> !(#[trigger] due(before[j], update, now_ms)),
    ensures
        put_out(before, a, update, now_ms, frame_a, k) == put_out(
            before,
            b,
            update,
            now_ms,
            frame_b,
            k,
        ),
        refusals(before, a, update, now_ms, k) == refusals(before, b, update, now_ms, k),
    decreases k,
{
    if k > 0 {
        assert(frame_a == frame_b || !due(before[k - 1], update, now_ms));
        lemma_first_slots(before, a, b, update, now_ms, frame_a, frame_b, k - 1);
    }
}

/// What came of a dispatch.
pub struct Dispatch {
    /// The frame that went out, if any slot was to get it.
    pub frame: Option<OutboundFrame>,
    /// The slots whose rings took the frame, and whose readers are to be woken,
    /// in order.
    pub woken: Vec<usize>,
}

/// The sender's measurements after a dispatch: one dispatch; as many sends as
/// rings took the frame, each since the frame was made; and the frames that rings
/// did not take.
pub open spec fn dispatch_measured(
    before: QlasterSenderMetrics,
    after: QlasterSenderMetrics,
    frame: Option<OutboundFrame>,
    sends: nat,
    refused: nat,
) -> bool {
    &&& exists|us: u64| is_latency(us) && after.dispatch@ == #[trigger] before.dispatch@.record(us)
    &&& sends_measured(before.shm_send@, after.shm_send@, frame, sends)
    &&& after.shm_ring_full@ == (before.shm_ring_full@ + refused) % 0x1_0000_0000_0000_0000
}

/// As many latencies were recorded, each since the frame was made.
pub open spec fn sends_measured(
    before: LatencyModel,
    after: LatencyModel,
    frame: Option<OutboundFrame>,
    sends: nat,
) -> bool {
    exists|xs: Seq<u64>|
        {
            &&& xs.len() == sends
            &&& after == #[trigger] before.record_all(xs)
            &&& forall|k: int| 0 <= k < xs.len() ==> is_since(#[trigger] xs[k], frame)
        }
}

/// The latency is one from the making of the frame to some reading of the clock.
pub open spec fn is_since(us: u64, frame: Option<OutboundFrame>) -> bool {
    frame matches Some(frame) && is_micros_since(us, frame.frame_start)
}

/// One more latency was recorded.
proof fn lemma_one_more_send(
    before: LatencyModel,
    mid: LatencyModel,
    frame: Option<OutboundFrame>,
    us: u64,
    sends: nat,
)
    requires
        sends_measured(before, mid, frame, sends),
        is_since(us, frame),
    ensures
        sends_measured(before, mid.record(us), frame, sends + 1),
{
    let xs = choose|xs: Seq<u64>|
        {
            &&& xs.len() == sends
            &&& mid == #[trigger] before.record_all(xs)
            &&& forall|k: int| 0 <= k < xs.len() ==> is_since(#[trigger] xs[k], frame)
        };
    let ys = xs.push(us);
    assert(ys.drop_last() =~= xs);
    assert(before.record_all(ys) == mid.record(us));
}

/// Where no latency was recorded, it does not matter which frame there is.
proof fn lemma_no_send_yet(
    before: LatencyModel,
    after: LatencyModel,
    a: Option<OutboundFrame>,
    b: Option<OutboundFrame>,
)
    requires
        sends_measured(before, after, a, 0),
    ensures
        sends_measured(before, after, b, 0),
{
}

/// What a dispatch has done once it went through the first `k` slots.
pub open spec fn fanned_out<W>(
    before: ManagerModel<W>,
    after: ManagerModel<W>,
    update: ServerModel,
    now_ms: u64,
    frame: Option<OutboundFrame>,
    woken: Seq<usize>,
    k: int,
) -> bool {
    &&& after.slots.len() == before.slots.len()
    &&& forall|i: int|
        0 <= i < k ==> #[trigger] slot_dispatched(
            before.slots[i],
            after.slots[i],
            update,
            now_ms,
            frame,
            woken.contains(i as usize),
        )
    &&& forall|i: int| k <= i < before.slots.len() ==> after.slots[i] == before.slots[i]
    &&& forall|j: int| 0 <= j < woken.len() ==> #[trigger] woken[j] < k
    &&& forall|i: int, j: int| 0 <= i < j < woken.len() ==> woken[i] < woken[j]
    &&& after.next_connection_id == before.next_connection_id
    &&& after.retired == before.retired + put_out(
        before.slots,
        after.slots,
        update,
        now_ms,
        frame,
        k,
    )
    &&& frame is Some == (exists|i: int|
        0 <= i < k && #[trigger] due(before.slots[i], update, now_ms))
}

/// The same, to be looked into only where that helps.
#[verifier::opaque]
spec fn fanned<W>(
    before: ManagerModel<W>,
    after: ManagerModel<W>,
    update: ServerModel,
    now_ms: u64,
    frame: Option<OutboundFrame>,
    woken: Seq<usize>,
    k: int,
) -> bool {
    fanned_out(before, after, update, now_ms, frame, woken, k)
}

/// The frame is one for the update, of a size that a frame can have.
#[verifier::opaque]
spec fn suits(frame: Option<OutboundFrame>, update: ServerModel) -> bool {
    frame matches Some(frame) ==> carries(frame, update) && frame.body().len()
        <= UPDATE_FRAME_BOUND
}

/// What a dispatch does to the slot that it comes to.
spec fn stepped<W>(
    before: ManagerModel<W>,
    after: ManagerModel<W>,
    update: ServerModel,
    now_ms: u64,
    frame: Option<OutboundFrame>,
    idx: int,
    woken: bool,
) -> bool {
    if due(before.slots[idx], update, now_ms) {
        &&& frame is Some
        &&& match before.slots[idx]->0.admits(frame->0.body()) {
            Some(bytes) => after == (if woken {
                before.pushed_to(idx, bytes, true)
            } else {
                before.pushed_to(idx, bytes, false).retire(idx)
            }),
            None => !woken && after == before.retire(idx),
        }
    } else {
        !woken && after == before.sweep(idx, now_ms)
    }
}

/// One more slot is done.
proof fn lemma_one_more_slot<W>(
    before: ManagerModel<W>,
    mid: ManagerModel<W>,
    after: ManagerModel<W>,
    update: ServerModel,
    now_ms: u64,
    frame0: Option<OutboundFrame>,
    frame: Option<OutboundFrame>,
    woken0: Seq<usize>,
    woken: Seq<usize>,
    idx: usize,
)
    requires
        idx < MAX_CONNECTION_SLOTS,
        before.slots.len() == MAX_CONNECTION_SLOTS,
        fanned(before, mid, update, now_ms, frame0, woken0, idx as int),
        stepped(mid, after, update, now_ms, frame, idx as int, woken.len() > woken0.len()),
        frame == frame0 || (frame0 is None && due(before.slots[idx as int], update, now_ms)),
        woken == woken0 || woken == woken0.push(idx),
    ensures
        fanned(before, after, update, now_ms, frame, woken, idx + 1),
        refusals(before.slots, after.slots, update, now_ms, idx + 1) == refusals(
            before.slots,
            mid.slots,
            update,
            now_ms,
            idx as int,
        ) + (if due(before.slots[idx as int], update, now_ms) && woken == woken0 {
            1nat
        } else {
            0
        }),
{
    reveal(fanned);
    let i = idx as int;
    assert(mid.slots[i] == before.slots[i]);
    assert(forall|j: int| 0 <= j < MAX_CONNECTION_SLOTS && j != i ==> after.slots[j] == mid.slots[j]);
    lemma_first_slots(before.slots, mid.slots, after.slots, update, now_ms, frame0, frame, i);
    assert(woken != woken0 ==> woken.len() > woken0.len());
    assert forall|j: int| 0 <= j <= i implies #[trigger] slot_dispatched(
        before.slots[j],
        after.slots[j],
        update,
        now_ms,
        frame,
        woken.contains(j as usize),
    ) by {
        assert(j as usize as int == j);
        if j < i {
            assert(slot_dispatched(
                before.slots[j],
                mid.slots[j],
                update,
                now_ms,
                frame0,
                woken0.contains(j as usize),
            ));
            if frame != frame0 {
                assert(!due(before.slots[j], update, now_ms));
            }
            if woken0.contains(j as usize) {
                let k = choose|k: int| 0 <= k < woken0.len() && woken0[k] == j as usize;
                assert(woken[k] == j as usize);
            }
            if woken.contains(j as usize) {
                let k = choose|k: int| 0 <= k < woken.len() && woken[k] == j as usize;
                assert(woken0[k] == j as usize);
            }
        } else {
            if woken.len() > woken0.len() {
                assert(woken[woken0.len() as int] == idx);
            }
        }
    }
    assert(after.retired =~= before.retired + put_out(
        before.slots,
        after.slots,
        update,
        now_ms,
        frame,
        i + 1,
    ));
    if frame is Some {
        if frame0 is Some {
            let j = choose|j: int| 0 <= j < i && #[trigger] due(before.slots[j], update, now_ms);
            assert(due(before.slots[j], update, now_ms));
        } else {
            assert(due(before.slots[i], update, now_ms));
        }
    }
}

/// What a dispatch does to slots, measurements and result.
pub open spec fn dispatched<W>(
    before: ManagerModel<W>,
    after: ManagerModel<W>,
    metrics_before: QlasterSenderMetrics,
    metrics_after: QlasterSenderMetrics,
    update: ServerModel,
    now_ms: u64,
    r: Dispatch,
) -> bool {
    let n = MAX_CONNECTION_SLOTS as int;
    &&& fanned_out(before, after, update, now_ms, r.frame, r.woken@, n)
    &&& r.frame matches Some(frame) ==> carries(frame, update) && frame.body().len()
        <= UPDATE_FRAME_BOUND
    &&& dispatch_measured(
        metrics_before,
        metrics_after,
        r.frame,
        r.woken@.len(),
        refusals(before.slots, after.slots, update, now_ms, n),
    )
}

impl<W> ConnectionManager<W> {
    /// Draws the consequence of a frame that was offered to a slot's ring: the
    /// send is measured; or the refusal is counted and the slow tenant put out.
    pub fn settle_push(
        &mut self,
        idx: usize,
        accepted: bool,
        elapsed_us: u64,
        metrics: &mut QlasterSenderMetrics,
    )
        requires
            old(self).wf(),
            idx < MAX_CONNECTION_SLOTS,
            old(self)@.slots[idx as int] is Some,
        ensures
            final(self).wf(),
            final(metrics).dispatch@ == old(metrics).dispatch@,
            accepted ==> {
                &&& final(self)@ == old(self)@
                &&& final(metrics).shm_send@ == old(metrics).shm_send@.record(elapsed_us)
                &&& final(metrics).shm_ring_full@ == old(metrics).shm_ring_full@
            },
            !accepted ==> {
                &&& final(self)@ == old(self)@.retire(idx as int)
                &&& final(metrics).shm_send@ == old(metrics).shm_send@
                &&& final(metrics).shm_ring_full@ == (old(metrics).shm_ring_full@ + 1)
                    % 0x1_0000_0000_0000_0000
            },
    {
        if accepted {
            metrics.shm_send.record(elapsed_us);
        } else {
            metrics.shm_ring_full.inc();
            self.evict(idx);
        }
    }

    /// Offers a frame to the ring of the slot's tenant and draws the consequence:
    /// a tenant whose ring took it keeps its slot and the send is measured; one
    /// whose ring did not, or whose sink did not admit it, is put out.
    pub fn push_to_entry(
        &mut self,
        idx: usize,
        frame: &OutboundFrame,
        metrics: &mut QlasterSenderMetrics,
    ) -> (accepted: bool)
        requires
            old(self).wf(),
            idx < MAX_CONNECTION_SLOTS,
            old(self)@.slots[idx as int] is Some,
            frame.body().len() <= usize::MAX,
        ensures
            final(self).wf(),
            match old(self)@.slots[idx as int]->0.admits(frame.body()) {
                Some(bytes) => final(self)@ == (if accepted {
                    old(self)@.pushed_to(idx as int, bytes, true)
                } else {
                    old(self)@.pushed_to(idx as int, bytes, false).retire(idx as int)
                }),
                None => !accepted && final(self)@ == old(self)@.retire(idx as int),
            },
            final(metrics).dispatch@ == old(metrics).dispatch@,
            accepted ==> {
                &&& exists|us: u64|
                    {
                        &&& is_since(us, Some(*frame))
                        &&& final(metrics).shm_send@ == #[trigger] old(metrics).shm_send@.record(us)
                    }
                &&& final(metrics).shm_ring_full@ == old(metrics).shm_ring_full@
            },
            !accepted ==> {
                &&& final(metrics).shm_send@ == old(metrics).shm_send@
                &&& final(metrics).shm_ring_full@ == (old(metrics).shm_ring_full@ + 1)
                    % 0x1_0000_0000_0000_0000
            },
    {
        proof {
            self.lemma_slot_count();
        }
        let accepted = self.offer(idx, frame.clone());
        let elapsed_us: u64 = elapsed_micros(&frame.frame_start);
        assert(is_since(elapsed_us, Some(*frame)));
        self.settle_push(idx, accepted, elapsed_us, metrics);
        accepted
    }

    /// Fans an update out at the given time.
    pub fn dispatch_at(
        &mut self,
        now_ms: u64,
        update: &Update,
        metrics: &mut QlasterSenderMetrics,
    ) -> (r: Dispatch)
        requires
            old(self).wf(),
        ensures
            final(self).wf(),
            dispatched(old(self)@, final(self)@, *old(metrics), *final(metrics), update@, now_ms, r),
    {
        let dispatch_start = instant_now();
        let mut frame: Option<OutboundFrame> = None;
        let mut woken: Vec<usize> = Vec::new();
        let mut idx: usize = 0;
        let ghost before = self@;
        let ghost u = update@;
        proof {
            self.lemma_slot_count();
            assert(metrics.shm_send@.record_all(Seq::<u64>::empty()) == metrics.shm_send@);
            assert(fanned(before, self@, u, now_ms, frame, woken@, 0)) by {
                reveal(fanned);
                assert(self@.retired =~= before.retired + Seq::empty());
            }
            assert(suits(frame, u)) by {
                reveal(suits);
            }
        }
        while idx < MAX_CONNECTION_SLOTS
            invariant
                idx <= MAX_CONNECTION_SLOTS,
                self.wf(),
                u == update@,
                before == old(self)@,
                before.slots.len() == MAX_CONNECTION_SLOTS,
                fanned(before, self@, u, now_ms, frame, woken@, idx as int),
                suits(frame, u),
                metrics.dispatch@ == old(metrics).dispatch@,
                sends_measured(old(metrics).shm_send@, metrics.shm_send@, frame, woken@.len()),
                frame is None ==> woken@.len() == 0,
                metrics.shm_ring_full@ == (old(metrics).shm_ring_full@ + refusals(
                    before.slots,
                    self@.slots,
                    u,
                    now_ms,
                    idx as int,
                )) % 0x1_0000_0000_0000_0000,
            decreases MAX_CONNECTION_SLOTS - idx,
        {
            let ghost mid = self@;
            let ghost woken0 = woken@;
            let ghost frame0 = frame;
            proof {
                self.lemma_slot_count();
                assert(mid.slots[idx as int] == before.slots[idx as int]) by {
                    reveal(fanned);
                }
            }
            let mut to_get = false;
            if !self.maybe_cleanup_stale_slot(idx, now_ms) {
                to_get = match self.connection(idx) {
                    Some(entry) => update.wanted_by(entry.filter()),
                    None => false,
                };
            }
            assert(to_get == due(before.slots[idx as int], u, now_ms));
            if to_get {
                if frame.is_none() {
                    match update.encode_frame() {
                        Ok(f) => {
                            frame = Some(f);
                            proof {
                                reveal(suits);
                                lemma_no_send_yet(
                                    old(metrics).shm_send@,
                                    metrics.shm_send@,
                                    None,
                                    frame,
                                );
                            }
                        },
                        Err(_) => {
                            metrics.dispatch.record(elapsed_micros(&dispatch_start));
                            return Dispatch { frame, woken };
                        },
                    }
                }
                if let Some(f) = &frame {
                    let ghost send0 = metrics.shm_send@;
                    assert(f.body().len() <= usize::MAX) by {
                        reveal(suits);
                    }
                    if self.push_to_entry(idx, f, metrics) {
                        woken.push(idx);
                        proof {
                            let us = choose|us: u64|
                                {
                                    &&& is_since(us, frame)
                                    &&& metrics.shm_send@ == #[trigger] send0.record(us)
                                };
                            lemma_one_more_send(
                                old(metrics).shm_send@,
                                send0,
                                frame,
                                us,
                                woken0.len(),
                            );
                        }
                    }
                }
            }
            proof {
                lemma_one_more_slot(
                    before,
                    mid,
                    self@,
                    u,
                    now_ms,
                    frame0,
                    frame,
                    woken0,
                    woken@,
                    idx,
                );
            }
            idx += 1;
        }
        metrics.dispatch.record(elapsed_micros(&dispatch_start));
        proof {
            reveal(fanned);
            reveal(suits);
        }
        Dispatch { frame, woken }
    }

    /// Fans an account update out now.
    pub fn dispatch_account_update(
        &mut self,
        update: AccountUpdate,
        metrics: &mut QlasterSenderMetrics,
    ) -> (r: Dispatch)
        requires
            old(self).wf(),
        ensures
            final(self).wf(),
            exists|now_ms: u64|
                {
                    &&& is_unix_millis(now_ms)
                    &&& #[trigger] dispatched(
                        old(self)@,
                        final(self)@,
                        *old(metrics),
                        *final(metrics),
                        ServerModel::AccountUpdate(update@),
                        now_ms,
                        r,
                    )
                },
    {
        let now_ms: u64 = ConnectionManager::<W>::now_ms();
        self.dispatch_at(now_ms, &Update::Account(update), metrics)
    }

    /// Fans a transaction update out now.
    pub fn dispatch_transaction_update(
        &mut self,
        update: TransactionUpdate,
        metrics: &mut QlasterSenderMetrics,
    ) -> (r: Dispatch)
        requires
            old(self).wf(),
        ensures
            final(self).wf(),
            exists|now_ms: u64|
                {
                    &&& is_unix_millis(now_ms)
                    &&& #[trigger] dispatched(
                        old(self)@,
                        final(self)@,
                        *old(metrics),
                        *final(metrics),
                        ServerModel::TransactionUpdate(update@),
                        now_ms,
                        r,
                    )
                },
    {
        let now_ms: u64 = ConnectionManager::<W>::now_ms();
        self.dispatch_at(now_ms, &Update::Transaction(update), metrics)
    }

    /// Fans a slot update out now.
    pub fn dispatch_slot_update(
        &mut self,
        update: SlotUpdate,
        metrics: &mut QlasterSenderMetrics,
    ) -> (r: Dispatch)
        requires
            old(self).wf(),
        ensures
            final(self).wf(),
            exists|now_ms: u64|
                {
                    &&& is_unix_millis(now_ms)
                    &&& #[trigger] dispatched(
                        old(self)@,
                        final(self)@,
                        *old(metrics),
                        *final(metrics),
                        ServerModel::SlotUpdate(update),
                        now_ms,
                        r,
                    )
                },
    {
        let now_ms: u64 = ConnectionManager::<W>::now_ms();
        self.dispatch_at(now_ms, &Update::Slot(update), metrics)
    }
}

/// A tenant that does not want an update does not get it, and stays, unless it
/// was silent for too long.
pub proof fn law_no_cross_talk<W>(
    before: ManagerModel<W>,
    after: ManagerModel<W>,
    metrics_before: QlasterSenderMetrics,
    metrics_after: QlasterSenderMetrics,
    update: ServerModel,
    now_ms: u64,
    r: Dispatch,
    i: int,
)
    requires
        dispatched(before, after, metrics_before, metrics_after, update, now_ms, r),
        0 <= i < MAX_CONNECTION_SLOTS,
        before.slots[i] matches Some(c) && !wants(c.filter, update),
    ensures
        !r.woken@.contains(i as usize),
        before.is_stale(i, now_ms) || after.slots[i] == before.slots[i],
{
    assert(slot_dispatched(
        before.slots[i],
        after.slots[i],
        update,
        now_ms,
        r.frame,
        r.woken@.contains(i as usize),
    ));
}

/// A tenant that wants an update and was not silent for too long gets it, once,
/// and keeps its slot; or it is put out, and only because its ring was offered
/// the frame and did not take it, or its sink did not admit the frame. It never
/// just misses an update, and a slow consumer holds nobody up.
pub proof fn law_update_is_taken_or_tenant_put_out<W>(
    before: ManagerModel<W>,
    after: ManagerModel<W>,
    metrics_before: QlasterSenderMetrics,
    metrics_after: QlasterSenderMetrics,
    update: ServerModel,
    now_ms: u64,
    r: Dispatch,
    i: int,
)
    requires
        dispatched(before, after, metrics_before, metrics_after, update, now_ms, r),
        0 <= i < MAX_CONNECTION_SLOTS,
        due(before.slots[i], update, now_ms),
    ensures
        r.frame matches Some(frame) && carries(frame, update) && ({
            let c = before.slots[i]->0;
            let taken = r.woken@.contains(i as usize);
            match c.admits(frame.body()) {
                Some(bytes) => if taken {
                    after.slots[i] == Some(c.push(bytes, true))
                } else {
                    &&& after.slots[i] is None
                    &&& after.retired.contains(c.push(bytes, false).put_away())
                },
                None => {
                    &&& !taken
                    &&& after.slots[i] is None
                    &&& after.retired.contains(c.put_away())
                },
            }
        }),
{
    assert(slot_dispatched(
        before.slots[i],
        after.slots[i],
        update,
        now_ms,
        r.frame,
        r.woken@.contains(i as usize),
    ));
    if after.slots[i] is None {
        let n = MAX_CONNECTION_SLOTS as int;
        lemma_put_out_holds(before.slots, after.slots, update, now_ms, r.frame, n, i);
        let out = put_out(before.slots, after.slots, update, now_ms, r.frame, n);
        let c = gone(before.slots[i]->0, update, now_ms, r.frame);
        let k = choose|k: int| 0 <= k < out.len() && out[k] == c;
        assert(after.retired[before.retired.len() + k] == c);
    }
}

/// A tenant whose slot was emptied is among those put out.
proof fn lemma_put_out_holds<W>(
    before: Seq<Option<ConnModel<W>>>,
    after: Seq<Option<ConnModel<W>>>,
    update: ServerModel,
    now_ms: u64,
    frame: Option<OutboundFrame>,
    k: int,
    i: int,
)
    requires
        0 <= i < k,
        before[i] is Some,
        after[i] is None,
    ensures
        put_out(before, after, update, now_ms, frame, k).contains(
            gone(before[i]->0, update, now_ms, frame),
        ),
    decreases k,
{
    let out = put_out(before, after, update, now_ms, frame, k);
    let c = gone(before[i]->0, update, now_ms, frame);
    if i == k - 1 {
        assert(out[out.len() - 1] == c);
    } else {
        lemma_put_out_holds(before, after, update, now_ms, frame, k - 1, i);
        let earlier = put_out(before, after, update, now_ms, frame, k - 1);
        let j = choose|j: int| 0 <= j < earlier.len() && earlier[j] == c;
        assert(out[j] == c);
    }
}

/// Tenants keep distinct numbers through a dispatch.
pub proof fn law_dispatch_keeps_numbers_distinct<W>(
    before: ManagerModel<W>,
    after: ManagerModel<W>,
    metrics_before: QlasterSenderMetrics,
    metrics_after: QlasterSenderMetrics,
    update: ServerModel,
    now_ms: u64,
    r: Dispatch,
)
    requires
        dispatched(before, after, metrics_before, metrics_after, update, now_ms, r),
        before.slots.len() == MAX_CONNECTION_SLOTS,
        before.distinctly_numbered(),
    ensures
        after.distinctly_numbered(),
{
    assert forall|i: int|
        0 <= i < after.slots.len() && (#[trigger] after.slots[i]) is Some implies before.slots[i]
        is Some && after.slots[i]->0.connection_id == before.slots[i]->0.connection_id by {
        assert(slot_dispatched(
            before.slots[i],
            after.slots[i],
            update,
            now_ms,
            r.frame,
            r.woken@.contains(i as usize),
        ));
    }
}

/// Slot updates go to every subscriber, transactions to those that asked, and
/// accounts to those that named the key or the owner.
pub proof fn law_who_wants_what(
    filter: FilterModel,
    account: AccountModel,
    transaction: TransactionModel,
    slot: SlotUpdate,
)
    ensures
        wants(filter, ServerModel::SlotUpdate(slot)),
        wants(filter, ServerModel::TransactionUpdate(transaction)) == filter.include_transactions,
        wants(filter, ServerModel::AccountUpdate(account)) == (filter.account_pubkeys.contains(
            account.account_pubkey,
        ) || filter.account_owners.contains(account.account_owner)),
{
}

} // verus!
