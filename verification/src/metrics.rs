//! Latency and count aggregation.

use crate::clock::{self, is_unix_nanos};
use vstd::prelude::*;

verus! {

/// Nanoseconds since the Unix epoch: zero before it, the largest `u64` where
/// they are more.
pub fn unix_time_nanos() -> (nanos: u64)
    ensures
        is_unix_nanos(nanos),
{
    clock::unix_time_nanos()
}

/// The microseconds from `start_nanos` to `now_nanos`, rounded up: zero for an
/// unset start, and for a start that lies ahead. The rounding saturates.
pub open spec fn elapsed_us(now_nanos: u64, start_nanos: u64) -> u64 {
    if start_nanos == 0 || now_nanos <= start_nanos {
        0
    } else if now_nanos - start_nanos + 999 > u64::MAX {
        u64::MAX / 1000
    } else {
        ((now_nanos - start_nanos + 999) / 1000) as u64
    }
}

/// The microseconds between two readings of the wall clock in nanoseconds.
pub fn elapsed_between_unix_time_nanos_us(now_nanos: u64, start_nanos: u64) -> (us: u64)
    ensures
        us == elapsed_us(now_nanos, start_nanos),
{
    if start_nanos == 0 {
        return 0;
    }
    let elapsed_nanos: u64 = now_nanos.saturating_sub(start_nanos);
    if elapsed_nanos == 0 {
        0
    } else {
        elapsed_nanos.saturating_add(999) / 1000
    }
}

/// The microseconds since `start_nanos`.
pub fn elapsed_since_unix_time_nanos_us(start_nanos: u64) -> (us: u64)
    ensures
        exists|now_nanos: u64|
            is_unix_nanos(now_nanos) && us == #[trigger] elapsed_us(now_nanos, start_nanos),
        start_nanos == 0 ==> us == 0,
{
    let now_nanos: u64 = unix_time_nanos();
    elapsed_between_unix_time_nanos_us(now_nanos, start_nanos)
}

/// The state of a [`LatencyAggregator`].
pub struct LatencyModel {
    pub sum_us: u64,
    pub count: u64,
    pub min_us: u64,
    pub max_us: u64,
}

impl LatencyModel {
    /// Nothing recorded.
    pub open spec fn empty() -> LatencyModel {
        LatencyModel { sum_us: 0, count: 0, min_us: u64::MAX, max_us: 0 }
    }

    /// One more latency recorded. Sum and count wrap around.
    pub open spec fn record(self, elapsed_us: u64) -> LatencyModel {
        LatencyModel {
            sum_us: ((self.sum_us + elapsed_us) % 0x1_0000_0000_0000_0000) as u64,
            count: ((self.count + 1) % 0x1_0000_0000_0000_0000) as u64,
            min_us: if elapsed_us < self.min_us { elapsed_us } else { self.min_us },
            max_us: if elapsed_us > self.max_us { elapsed_us } else { self.max_us },
        }
    }

    /// All latencies of `xs` recorded in turn.
    pub open spec fn record_all(self, xs: Seq<u64>) -> LatencyModel
        decreases xs.len(),
    {
        if xs.len() == 0 {
            self
        } else {
            self.record_all(xs.drop_last()).record(xs.last())
        }
    }

    /// What is handed out on a flush.
    pub open spec fn snapshot(self) -> LatencySnapshot {
        LatencySnapshot {
            count: self.count,
            total_us: self.sum_us,
            min_us: if self.count == 0 { 0 } else { self.min_us },
            max_us: self.max_us,
        }
    }
}

/// Count, sum, minimum and maximum of latencies since the last flush.
#[derive(Debug)]
pub struct LatencyAggregator {
    sum_us: u64,
    count: u64,
    min_us: u64,
    max_us: u64,
}

impl View for LatencyAggregator {
    type V = LatencyModel;

    closed spec fn view(&self) -> LatencyModel {
        LatencyModel {
            sum_us: self.sum_us,
            count: self.count,
            min_us: self.min_us,
            max_us: self.max_us,
        }
    }
}

impl Default for LatencyAggregator {
    fn default() -> (r: LatencyAggregator)
        ensures
            r@ == LatencyModel::empty(),
    {
        LatencyAggregator { sum_us: 0, count: 0, min_us: u64::MAX, max_us: 0 }
    }
}

impl LatencyAggregator {
    /// Records one latency.
    pub fn record(&mut self, elapsed_us: u64)
        ensures
            final(self)@ == old(self)@.record(elapsed_us),
    {
        self.sum_us = self.sum_us.wrapping_add(elapsed_us);
        self.count = self.count.wrapping_add(1);
        if elapsed_us < self.min_us {
            self.min_us = elapsed_us;
        }
        if elapsed_us > self.max_us {
            self.max_us = elapsed_us;
        }
    }

    /// Hands out what was recorded since the last flush, and forgets it.
    pub fn flush(&mut self) -> (snapshot: LatencySnapshot)
        ensures
            snapshot == old(self)@.snapshot(),
            final(self)@ == LatencyModel::empty(),
    {
        let snapshot = LatencySnapshot {
            count: self.count,
            total_us: self.sum_us,
            min_us: if self.count == 0 {
                0
            } else {
                self.min_us
            },
            max_us: self.max_us,
        };
        self.sum_us = 0;
        self.count = 0;
        self.min_us = u64::MAX;
        self.max_us = 0;
        snapshot
    }
}

/// The latencies between two flushes, summed up.
#[derive(Clone, Copy, Debug, Default)]
pub struct LatencySnapshot {
    pub count: u64,
    pub total_us: u64,
    pub min_us: u64,
    pub max_us: u64,
}

impl LatencySnapshot {
    /// The mean latency, rounded down; zero where nothing was recorded.
    pub open spec fn mean_us(self) -> int {
        if self.count == 0 {
            0
        } else {
            self.total_us as int / self.count as int
        }
    }

    /// The mean latency, rounded down; zero where nothing was recorded.
    pub fn avg_us(&self) -> (avg: u64)
        ensures
            avg == self.mean_us(),
    {
        if self.count == 0 {
            0
        } else {
            self.total_us / self.count
        }
    }
}

/// A count since the last flush.
#[derive(Debug)]
pub struct CounterAggregator {
    value: u64,
}

impl View for CounterAggregator {
    type V = u64;

    closed spec fn view(&self) -> u64 {
        self.value
    }
}

impl Default for CounterAggregator {
    fn default() -> (r: CounterAggregator)
        ensures
            r@ == 0,
    {
        CounterAggregator { value: 0 }
    }
}

impl CounterAggregator {
    /// Counts `n` more, wrapping around.
    pub fn add(&mut self, n: u64)
        ensures
            final(self)@ == (old(self)@ + n) % 0x1_0000_0000_0000_0000,
    {
        self.value = self.value.wrapping_add(n);
    }

    /// Counts one more, wrapping around.
    pub fn inc(&mut self)
        ensures
            final(self)@ == (old(self)@ + 1) % 0x1_0000_0000_0000_0000,
    {
        self.value = self.value.wrapping_add(1);
    }

    /// Hands out the count and starts again at zero, so that a reader on a
    /// fixed cadence does not count anything twice.
    pub fn flush(&mut self) -> (value: u64)
        ensures
            value == old(self)@,
            final(self)@ == 0,
    {
        let value: u64 = self.value;
        self.value = 0;
        value
    }

    /// The count so far.
    pub fn peek(&self) -> (value: u64)
        ensures
            value == self@,
    {
        self.value
    }
}

/// What a sender measures.
#[derive(Debug)]
pub struct QlasterSenderMetrics {
    /// Time spent on dispatching one update to all matching sinks.
    pub dispatch: LatencyAggregator,
    /// Time from frame creation to its publication in a ring.
    pub shm_send: LatencyAggregator,
    /// Frames dropped because a ring was full; its slot is evicted too.
    pub shm_ring_full: CounterAggregator,
}

impl Default for QlasterSenderMetrics {
    fn default() -> (r: QlasterSenderMetrics)
        ensures
            r.dispatch@ == LatencyModel::empty(),
            r.shm_send@ == LatencyModel::empty(),
            r.shm_ring_full@ == 0,
    {
        QlasterSenderMetrics {
            dispatch: LatencyAggregator::default(),
            shm_send: LatencyAggregator::default(),
            shm_ring_full: CounterAggregator::default(),
        }
    }
}

impl QlasterSenderMetrics {
    /// Nothing measured yet.
    pub fn new() -> (r: QlasterSenderMetrics)
        ensures
            r.dispatch@ == LatencyModel::empty(),
            r.shm_send@ == LatencyModel::empty(),
            r.shm_ring_full@ == 0,
    {
        QlasterSenderMetrics::default()
    }
}

/// What a consumer measures, of data frames only.
#[derive(Debug)]
pub struct QlasterConsumerMetrics {
    /// Time spent reading a frame's bytes from the ring.
    pub read: LatencyAggregator,
    /// Time spent decoding a frame.
    pub decode: LatencyAggregator,
    /// Time spent pushing a decoded update into the local queue.
    pub enqueue: LatencyAggregator,
    /// Time from the sender's frame creation to the local queue. It rests on
    /// the sender's wall clock, so clock skew can make it zero.
    pub full_read: LatencyAggregator,
}

impl Default for QlasterConsumerMetrics {
    fn default() -> (r: QlasterConsumerMetrics)
        ensures
            r.read@ == LatencyModel::empty(),
            r.decode@ == LatencyModel::empty(),
            r.enqueue@ == LatencyModel::empty(),
            r.full_read@ == LatencyModel::empty(),
    {
        QlasterConsumerMetrics {
            read: LatencyAggregator::default(),
            decode: LatencyAggregator::default(),
            enqueue: LatencyAggregator::default(),
            full_read: LatencyAggregator::default(),
        }
    }
}

impl QlasterConsumerMetrics {
    /// Nothing measured yet.
    pub fn new() -> (r: QlasterConsumerMetrics)
        ensures
            r.read@ == LatencyModel::empty(),
            r.decode@ == LatencyModel::empty(),
            r.enqueue@ == LatencyModel::empty(),
            r.full_read@ == LatencyModel::empty(),
    {
        QlasterConsumerMetrics::default()
    }
}

/// The sum of the latencies.
pub open spec fn sum_of(xs: Seq<u64>) -> int
    decreases xs.len(),
{
    if xs.len() == 0 {
        0
    } else {
        sum_of(xs.drop_last()) + xs.last()
    }
}

/// A flush reports the number, the sum, the least and the greatest of the
/// latencies recorded since the flush before it: fewer than 2^64 of them, and
/// the sum modulo 2^64.
pub proof fn law_flush_reports_what_was_recorded(xs: Seq<u64>)
    requires
        xs.len() <= u64::MAX,
    ensures
        ({
            let s = LatencyModel::empty().record_all(xs).snapshot();
            &&& s.count == xs.len()
            &&& s.total_us == sum_of(xs) % 0x1_0000_0000_0000_0000
            &&& xs.len() == 0 ==> s.min_us == 0 && s.max_us == 0
            &&& xs.len() > 0 ==> xs.contains(s.min_us) && xs.contains(s.max_us)
            &&& forall|i: int| 0 <= i < xs.len() ==> s.min_us <= #[trigger] xs[i] <= s.max_us
        }),
{
    lemma_record_all(xs);
}

proof fn lemma_record_all(xs: Seq<u64>)
    requires
        xs.len() <= u64::MAX,
    ensures
        ({
            let m = LatencyModel::empty().record_all(xs);
            &&& m.count == xs.len()
            &&& m.sum_us == sum_of(xs) % 0x1_0000_0000_0000_0000
            &&& xs.len() == 0 ==> m == LatencyModel::empty()
            &&& xs.len() > 0 ==> xs.contains(m.min_us) && xs.contains(m.max_us)
            &&& forall|i: int| 0 <= i < xs.len() ==> m.min_us <= #[trigger] xs[i] <= m.max_us
        }),
    decreases xs.len(),
{
    if xs.len() > 0 {
        let init = xs.drop_last();
        lemma_record_all(init);
        let before = LatencyModel::empty().record_all(init);
        let m = LatencyModel::empty().record_all(xs);
        let last = xs.last();
        assert(last == xs[xs.len() - 1]);
        assert forall|i: int| 0 <= i < xs.len() implies m.min_us <= #[trigger] xs[i] <= m.max_us by {
            if i < xs.len() - 1 {
                assert(xs[i] == init[i]);
            }
        }
        if last < before.min_us || init.len() == 0 {
            assert(m.min_us == last || last == u64::MAX);
            assert(xs.contains(last));
        } else {
            let i = choose|i: int| 0 <= i < init.len() && init[i] == before.min_us;
            assert(xs[i] == before.min_us);
        }
        if last > before.max_us || init.len() == 0 {
            assert(xs.contains(last));
        } else {
            let i = choose|i: int| 0 <= i < init.len() && init[i] == before.max_us;
            assert(xs[i] == before.max_us);
        }
    }
}

/// The mean of latencies whose sum fits in a `u64` is their sum divided by their
/// number, rounded down, and lies between the least and the greatest of them. The
/// mean of none is zero.
pub proof fn law_mean_lies_between(xs: Seq<u64>)
    requires
        xs.len() <= u64::MAX,
        sum_of(xs) <= u64::MAX,
    ensures
        ({
            let s = LatencyModel::empty().record_all(xs).snapshot();
            let mean = s.mean_us();
            &&& xs.len() == 0 ==> s.count == 0 && mean == 0
            &&& xs.len() > 0 ==> {
                &&& s.count == xs.len()
                &&& mean * s.count <= sum_of(xs) < (mean + 1) * s.count
                &&& s.min_us <= mean <= s.max_us
            }
        }),
{
    lemma_record_all(xs);
    let m = LatencyModel::empty().record_all(xs);
    let s = m.snapshot();
    if xs.len() > 0 {
        lemma_sum_between(xs, m.min_us as int, m.max_us as int);
        assert(0 <= sum_of(xs)) by {
            assert(m.min_us * xs.len() >= 0) by (nonlinear_arith);
        }
        assert(s.total_us == sum_of(xs));
        lemma_quotient_between(
            sum_of(xs),
            xs.len() as int,
            m.min_us as int,
            m.max_us as int,
        );
    }
}

/// The sum of numbers that lie between two others.
proof fn lemma_sum_between(xs: Seq<u64>, least: int, most: int)
    requires
        forall|i: int| 0 <= i < xs.len() ==> least <= #[trigger] xs[i] <= most,
    ensures
        least * xs.len() <= sum_of(xs) <= most * xs.len(),
    decreases xs.len(),
{
    if xs.len() > 0 {
        let init = xs.drop_last();
        let n = init.len() as int;
        assert(forall|i: int| 0 <= i < init.len() ==> init[i] == xs[i]);
        lemma_sum_between(init, least, most);
        assert(xs.last() == xs[xs.len() - 1]);
        assert(least * (n + 1) == least * n + least) by (nonlinear_arith);
        assert(most * (n + 1) == most * n + most) by (nonlinear_arith);
    }
}

/// A quotient lies between two numbers where the dividend does so between as many
/// times them.
proof fn lemma_quotient_between(total: int, n: int, least: int, most: int)
    by (nonlinear_arith)
    requires
        n > 0,
        0 <= least,
        least * n <= total <= most * n,
    ensures
        (total / n) * n <= total < (total / n + 1) * n,
        least <= total / n <= most,
{
}

/// The time between two readings of the wall clock is rounded up to microseconds.
/// It is zero for an unset start and for one that lies ahead.
pub proof fn law_elapsed_is_rounded_up(now_nanos: u64, start_nanos: u64)
    ensures
        start_nanos == 0 || now_nanos <= start_nanos ==> elapsed_us(now_nanos, start_nanos) == 0,
        0 < start_nanos < now_nanos && now_nanos - start_nanos <= 0xFFFF_FFFF_FFFF_FFFF - 999 ==> {
            let us = elapsed_us(now_nanos, start_nanos) as int;
            1_000 * (us - 1) < now_nanos - start_nanos <= 1_000 * us
        },
        0 < start_nanos < now_nanos && now_nanos - start_nanos > 0xFFFF_FFFF_FFFF_FFFF - 999
            ==> elapsed_us(now_nanos, start_nanos) == 0xFFFF_FFFF_FFFF_FFFFu64 / 1_000,
{
}

/// Every latency that is recorded counts once, adds to the sum, and moves the least
/// and the greatest where it lies outside them; a flush hands that out.
pub proof fn law_every_latency_counts(before: LatencyModel, us: u64, xs: Seq<u64>)
    ensures
        before.record_all(Seq::empty()) == before,
        before.record_all(xs.push(us)) == before.record_all(xs).record(us),
        before.record(us).count == (before.count + 1) % 0x1_0000_0000_0000_0000,
        before.record(us).sum_us == (before.sum_us + us) % 0x1_0000_0000_0000_0000,
        before.record(us).min_us <= us <= before.record(us).max_us,
        before.record(us).min_us <= before.min_us,
        before.record(us).min_us == us || before.record(us).min_us == before.min_us,
        before.max_us <= before.record(us).max_us,
        before.record(us).max_us == us || before.record(us).max_us == before.max_us,
        before.snapshot().count == before.count,
        before.snapshot().total_us == before.sum_us,
        before.count > 0 ==> before.snapshot().min_us == before.min_us,
        before.count == 0 ==> before.snapshot().min_us == 0,
        before.snapshot().max_us == before.max_us,
        LatencyModel::empty() == (LatencyModel {
            sum_us: 0,
            count: 0,
            min_us: 0xFFFF_FFFF_FFFF_FFFF,
            max_us: 0,
        }),
{
    assert(xs.push(us).drop_last() =~= xs);
}

} // verus!
