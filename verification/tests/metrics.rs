use qlaster::clock::{
    clamp_to_u64, elapsed_micros, micros_between, millis_since_epoch, nanos_since_epoch,
};
use qlaster::error::{io_error_message, text_with_number, QlasterError};
use qlaster::metrics::{
    elapsed_between_unix_time_nanos_us, elapsed_since_unix_time_nanos_us, unix_time_nanos,
    CounterAggregator, LatencyAggregator, LatencySnapshot, QlasterConsumerMetrics,
    QlasterSenderMetrics,
};
use qlaster::pubkey::Pubkey;
use qlaster::shm::eventfd::{
    after_counter_read, after_notify, after_pipe_read, after_wait_drain, IoOutcome, IoStep,
};
use std::time::{Duration, Instant};

#[test]
fn latencies_are_summed_up_and_flushed() {
    let mut latency = LatencyAggregator::default();
    for us in [5, 2, 9] {
        latency.record(us);
    }
    let snapshot = latency.flush();
    assert_eq!(snapshot.count, 3);
    assert_eq!(snapshot.total_us, 16);
    assert_eq!(snapshot.min_us, 2);
    assert_eq!(snapshot.max_us, 9);
    assert_eq!(snapshot.avg_us(), 5);

    let empty = latency.flush();
    assert_eq!((empty.count, empty.total_us, empty.min_us, empty.max_us), (0, 0, 0, 0));
    assert_eq!(empty.avg_us(), 0);
    assert_eq!(LatencySnapshot::default().avg_us(), 0);

    latency.record(u64::MAX);
    latency.record(2);
    let wrapped = latency.flush();
    assert_eq!(wrapped.total_us, 1);
    assert_eq!(wrapped.max_us, u64::MAX);
}

#[test]
fn counters_count_and_flush() {
    let mut counter = CounterAggregator::default();
    counter.inc();
    counter.add(4);
    assert_eq!(counter.peek(), 5);
    assert_eq!(counter.flush(), 5);
    assert_eq!(counter.flush(), 0);
    counter.add(u64::MAX);
    counter.inc();
    assert_eq!(counter.peek(), 0);
}

#[test]
fn fresh_metrics_are_empty() {
    let mut sender = QlasterSenderMetrics::new();
    assert_eq!(sender.dispatch.flush().count, 0);
    assert_eq!(sender.shm_send.flush().count, 0);
    assert_eq!(sender.shm_ring_full.peek(), 0);
    let mut consumer = QlasterConsumerMetrics::new();
    assert_eq!(consumer.read.flush().count, 0);
    assert_eq!(consumer.full_read.flush().max_us, 0);
}

#[test]
fn elapsed_time_is_rounded_up() {
    assert_eq!(elapsed_between_unix_time_nanos_us(5_000, 0), 0);
    assert_eq!(elapsed_between_unix_time_nanos_us(5_000, 5_000), 0);
    assert_eq!(elapsed_between_unix_time_nanos_us(5_000, 6_000), 0);
    assert_eq!(elapsed_between_unix_time_nanos_us(5_001, 5_000), 1);
    assert_eq!(elapsed_between_unix_time_nanos_us(7_000, 5_000), 2);
    assert_eq!(elapsed_between_unix_time_nanos_us(u64::MAX, 1), u64::MAX / 1000);
    assert_eq!(elapsed_since_unix_time_nanos_us(0), 0);
    assert_eq!(elapsed_since_unix_time_nanos_us(u64::MAX), 0);
}

#[test]
fn clock_reads_nanoseconds_since_the_epoch() {
    let before = unix_time_nanos();
    assert!(before > 1_600_000_000_000_000_000);
    assert!(elapsed_since_unix_time_nanos_us(before - 1_000_000) >= 1_000);
    assert_eq!(clamp_to_u64(7), 7);
    assert_eq!(clamp_to_u64(u128::from(u64::MAX) + 1), u64::MAX);
}

#[test]
fn readings_of_the_clocks_become_numbers() {
    assert_eq!(nanos_since_epoch(&None), 0);
    assert_eq!(nanos_since_epoch(&Some(Duration::new(2, 5))), 2_000_000_005);
    assert_eq!(nanos_since_epoch(&Some(Duration::from_nanos(u64::MAX))), u64::MAX);
    assert_eq!(nanos_since_epoch(&Some(Duration::MAX)), u64::MAX);
    assert_eq!(millis_since_epoch(&None), 0);
    assert_eq!(millis_since_epoch(&Some(Duration::from_micros(2_999))), 2);
    assert_eq!(
        millis_since_epoch(&Some(Duration::MAX)),
        (u128::from(u64::MAX) * 1_000 + 999) as u64
    );
    let start = Instant::now();
    let later = start + Duration::from_nanos(3_000_999);
    assert_eq!(micros_between(&start, &later), 3_000);
    assert_eq!(micros_between(&later, &start), 0);
    assert!(elapsed_micros(&(start - Duration::from_millis(5))) >= 5_000);
}

#[test]
fn errors_are_worded() {
    let words = |e: QlasterError| e.message();
    assert_eq!(words(QlasterError::ConnectionFailed), "unable to connect to endpoint");
    let io = std::io::Error::new(std::io::ErrorKind::Other, "broken");
    assert_eq!(words(QlasterError::from(io)), "io error: broken");
    assert_eq!(io_error_message("broken pipe"), "io error: broken pipe");
    assert_eq!(io_error_message(""), "io error: ");
    assert_eq!(words(QlasterError::FrameTooLarge(10)), "frame too large: 10 bytes");
    assert_eq!(
        words(QlasterError::PayloadTooLarge { found: 12, max: 10 }),
        "account payload too large: 12 bytes (max 10 bytes)"
    );
    assert_eq!(
        words(QlasterError::InvalidWireVersion { found: 8, expected: 9 }),
        "invalid wire version 8; expected 9"
    );
    assert_eq!(
        words(QlasterError::InvalidMessageTag { found: 200, expected: 1 }),
        "invalid message tag 200; expected 1"
    );
    assert_eq!(words(QlasterError::DecodeError("x".into())), "decode error: x");
    assert_eq!(words(QlasterError::Timeout("t")), "operation timed out: t");
    assert_eq!(words(QlasterError::ConfigError("c".into())), "configuration error: c");
    assert_eq!(words(QlasterError::MalformedPayload("m")), "malformed payload: m");
    assert_eq!(
        words(QlasterError::IncomingClosed),
        "incoming endpoint accept loop closed"
    );
    assert_eq!(words(QlasterError::ShmError("s".into())), "shared memory error: s");
    assert_eq!(words(QlasterError::ShmFull), "shared memory ring full");
    assert_eq!(words(QlasterError::UdsError("u".into())), "uds error: u");
    assert_eq!(
        text_with_number("", usize::MAX, "!"),
        format!("{}!", usize::MAX)
    );
}

#[test]
fn wakeup_outcomes_are_judged() {
    assert_eq!(after_notify(IoOutcome::Moved(8)), IoStep::Done(()));
    assert_eq!(after_notify(IoOutcome::WouldBlock), IoStep::Done(()));
    assert_eq!(after_notify(IoOutcome::Interrupted), IoStep::Retry);
    assert_eq!(after_notify(IoOutcome::Failed), IoStep::Fail);

    assert_eq!(after_counter_read(IoOutcome::Moved(8), 3), IoStep::Done(3));
    assert_eq!(after_counter_read(IoOutcome::WouldBlock, 3), IoStep::Done(0));
    assert_eq!(after_counter_read(IoOutcome::Interrupted, 3), IoStep::Retry);
    assert_eq!(after_counter_read(IoOutcome::Failed, 3), IoStep::Fail);

    let full = after_pipe_read(5, IoOutcome::Moved(64));
    assert_eq!((full.total, full.step), (69, IoStep::Retry));
    let last = after_pipe_read(69, IoOutcome::Moved(3));
    assert_eq!((last.total, last.step), (72, IoStep::Done(72)));
    let closed = after_pipe_read(4, IoOutcome::Moved(0));
    assert_eq!(closed.step, IoStep::Done(4));
    let empty = after_pipe_read(4, IoOutcome::WouldBlock);
    assert_eq!(empty.step, IoStep::Done(4));
    let interrupted = after_pipe_read(4, IoOutcome::Interrupted);
    assert_eq!((interrupted.total, interrupted.step), (4, IoStep::Retry));
    assert_eq!(after_pipe_read(4, IoOutcome::Failed).step, IoStep::Fail);

    assert_eq!(after_wait_drain(Some(2)), IoStep::Done(2));
    assert_eq!(after_wait_drain(Some(0)), IoStep::Retry);
    assert_eq!(after_wait_drain(None), IoStep::Retry);
}

#[test]
fn keys_are_compared_by_their_bytes() {
    let key = Pubkey::new_from_array([3; 32]);
    let mut other = [3; 32];
    assert!(key.same(&Pubkey::new_from_array(other)));
    other[31] = 4;
    assert!(!key.same(&Pubkey::new_from_array(other)));
    assert_eq!(key.to_bytes(), [3; 32]);
    assert_eq!(key.as_slice(), &[3; 32]);
}

#[test]
fn the_mean_lies_between_the_least_and_the_greatest() {
    for xs in [vec![7u64], vec![1, 2], vec![0, 0, 9], vec![u64::MAX - 3, 1, 2]] {
        let mut latency = LatencyAggregator::default();
        for us in &xs {
            latency.record(*us);
        }
        let s = latency.flush();
        let mean = s.avg_us();
        assert!(s.min_us <= mean && mean <= s.max_us);
        assert_eq!(mean, xs.iter().sum::<u64>() / xs.len() as u64);
    }
    assert_eq!(LatencyAggregator::default().flush().avg_us(), 0);
}
