use qlaster::error::QlasterError;
use qlaster::shm::ring::{
    build_frame, close_frame, interpret_length, is_power_of_two, next_power_of_two, plan_ring,
    whole_batch, AfterLength,
};
use qlaster::shm::{ShmRingConsumer, ShmRingProducer, RING_HEADER_SIZE};

fn ring(capacity: usize) -> (ShmRingProducer, ShmRingConsumer) {
    let plan = plan_ring(capacity).expect("plan");
    let (producer, consumer) = shaq::mpmc::pair::<u8>(plan.capacity).expect("queue");
    (
        ShmRingProducer::from_queue(producer, plan.capacity),
        ShmRingConsumer::from_queue(consumer, plan.file_size),
    )
}

#[test]
fn create_and_simple_push_pop_roundtrip() {
    let (mut producer, mut consumer) = ring(4096);

    let body = b"hello qlaster";
    producer.try_push(&[body]).expect("push");

    let popped = consumer.try_pop().expect("pop");
    assert_eq!(popped, body);
    assert!(consumer.try_pop().is_none());
}

#[test]
fn multi_part_frames_concatenate_correctly() {
    let (mut producer, mut consumer) = ring(4096);

    producer
        .try_push(&[&[1, 2, 3], &[4, 5], &[6, 7, 8, 9]])
        .expect("push");
    let popped = consumer.try_pop().expect("pop");
    assert_eq!(popped, vec![1, 2, 3, 4, 5, 6, 7, 8, 9]);
}

#[test]
fn ring_full_returns_shm_full_and_drops_frame() {
    let (mut producer, _consumer) = ring(64);
    let body = vec![0xAAu8; 16];
    producer.try_push(&[&body]).expect("push 1");
    producer.try_push(&[&body]).expect("push 2");
    producer.try_push(&[&body]).expect("push 3");
    match producer.try_push(&[&body]) {
        Err(QlasterError::ShmFull) => {}
        other => panic!("expected ShmFull, got {other:?}"),
    }
    assert_eq!(producer.dropped_frames(), 1);
}

#[test]
fn queue_wraps_without_splitting_frames() {
    let (mut producer, mut consumer) = ring(64);

    let small = vec![0x11u8; 16];
    for i in 0..3 {
        producer.try_push(&[&small]).expect("push small");
        let popped = consumer.try_pop().expect("pop small");
        assert_eq!(popped.len(), 16, "iter {i}");
    }

    let big = vec![0x22u8; 20];
    producer.try_push(&[&big]).expect("push wrapping");
    let popped = consumer.try_pop().expect("pop wrapped");
    assert_eq!(popped.len(), 20);
    assert!(popped.iter().all(|&b| b == 0x22));
    assert!(consumer.try_pop().is_none());
}

#[test]
fn frame_larger_than_capacity_is_rejected() {
    let (mut producer, _consumer) = ring(64);
    let huge = vec![0u8; 128];
    assert!(matches!(
        producer.try_push(&[&huge]),
        Err(QlasterError::ShmError(_))
    ));
}

#[test]
fn close_sentinel_marks_consumer_closed() {
    let (mut producer, mut consumer) = ring(4096);

    assert!(!consumer.is_closed(true));
    producer.close();
    assert!(consumer.try_pop().is_none());
    assert!(consumer.is_closed(true));
}

#[test]
fn ring_without_its_file_is_closed() {
    let (_producer, consumer) = ring(64);
    assert!(!consumer.is_closed(true));
    assert!(consumer.is_closed(false));
}

#[test]
fn empty_frame_is_popped_as_an_empty_body() {
    let (mut producer, mut consumer) = ring(64);
    producer.try_push(&[]).expect("push nothing");
    producer.try_push(&[b"x"]).expect("push");
    assert_eq!(consumer.try_pop(), Some(Vec::new()));
    assert_eq!(consumer.try_pop(), Some(b"x".to_vec()));
}

#[test]
fn frames_and_their_faults_are_exact() {
    assert_eq!(
        build_frame(&[b"ab", b"c"], 7).expect("frame"),
        vec![3, 0, 0, 0, b'a', b'b', b'c']
    );
    match build_frame(&[b"ab", b"c"], 6) {
        Err(QlasterError::ShmError(words)) => assert_eq!(words, "frame 7 > ring capacity 6"),
        other => panic!("expected ShmError, got {other:?}"),
    }
    assert_eq!(close_frame(), vec![255, 255, 255, 255]);
    assert_eq!(RING_HEADER_SIZE, 0);
}

#[test]
fn length_decides_what_is_read_next() {
    assert!(matches!(interpret_length(&[255; 4]), AfterLength::Closed));
    assert!(matches!(interpret_length(&[5, 1, 0, 0]), AfterLength::Body(261)));
    assert_eq!(whole_batch(Some(vec![1, 2]), 2), Some(vec![1, 2]));
    assert_eq!(whole_batch(Some(vec![1, 2]), 3), None);
    assert_eq!(whole_batch(None, 0), None);

    let (_producer, mut consumer) = ring(64);
    assert_eq!(consumer.begin_pop(None), None);
    assert_eq!(consumer.begin_pop(Some(vec![1, 0])), None);
    assert_eq!(consumer.begin_pop(Some(vec![9, 0, 0, 0])), Some(9));
    assert!(!consumer.is_closed(true));
    assert_eq!(consumer.begin_pop(Some(vec![255; 4])), None);
    assert!(consumer.is_closed(true));
}

#[test]
fn refused_write_is_counted() {
    let (mut producer, _consumer) = ring(64);
    assert!(producer.settle_write(true).is_ok());
    assert_eq!(producer.dropped_frames(), 0);
    assert!(matches!(producer.settle_write(false), Err(QlasterError::ShmFull)));
    assert_eq!(producer.dropped_frames(), 1);
    assert_eq!(producer.capacity(), 64);
}

#[test]
fn ring_plan_rounds_up_and_refuses_small_rings() {
    let plan = plan_ring(100).expect("plan");
    assert_eq!(plan.capacity, 128);
    assert!(plan.file_size > 128);
    assert_eq!(plan_ring(64).expect("plan").capacity, 64);
    for (capacity, rounded) in [(1 << 62, 1 << 62), ((1 << 62) + 1, 1 << 63), (1 << 63, 1 << 63)] {
        let plan = plan_ring(capacity).expect("plan");
        assert_eq!(plan.capacity, rounded);
        assert!(plan.file_size > rounded);
    }
    match plan_ring(63) {
        Err(QlasterError::ShmError(words)) => {
            assert_eq!(words, "capacity 63 too small (min 64)")
        }
        Err(other) => panic!("expected ShmError, got {other:?}"),
        Ok(_) => panic!("a ring of 63 bytes was planned"),
    }
}

#[test]
fn powers_of_two_are_told_apart() {
    for n in [1usize, 2, 4, 64, 1 << 40] {
        assert!(is_power_of_two(n));
        assert_eq!(next_power_of_two(n), n);
    }
    for n in [0usize, 3, 6, 63, 65, (1 << 40) + 1, usize::MAX] {
        assert!(!is_power_of_two(n));
    }
    assert_eq!(next_power_of_two(0), 1);
    assert_eq!(next_power_of_two(65), 128);
    assert_eq!(next_power_of_two((1 << 40) + 1), 1 << 41);
}

#[test]
fn frames_come_out_in_the_order_they_went_in() {
    let (mut producer, mut consumer) = ring(4096);
    let bodies: Vec<Vec<u8>> = (0..20u8).map(|i| vec![i; usize::from(i)]).collect();
    for body in &bodies {
        producer.try_push(&[body]).expect("push");
    }
    producer.close();
    for body in &bodies {
        assert_eq!(consumer.try_pop().as_ref(), Some(body));
    }
    assert!(consumer.try_pop().is_none());
    assert!(consumer.is_closed(true));
}

#[test]
fn a_run_of_pushes_and_pops_ends_with_the_close() {
    let (mut producer, mut consumer) = ring(64);
    assert!(consumer.try_pop().is_none());
    let mut popped = 0;
    for i in 0..40u8 {
        producer.try_push(&[&vec![i; usize::from(i % 7)]]).expect("push");
        if i % 3 != 0 {
            let body = consumer.try_pop().expect("pop");
            assert_eq!(body, vec![popped; usize::from(popped % 7)]);
            popped += 1;
        }
        if i - popped > 3 {
            let body = consumer.try_pop().expect("pop");
            assert_eq!(body, vec![popped; usize::from(popped % 7)]);
            popped += 1;
        }
    }
    producer.close();
    while popped < 40 {
        assert!(!consumer.is_closed(true));
        let body = consumer.try_pop().expect("pop");
        assert_eq!(body, vec![popped; usize::from(popped % 7)]);
        popped += 1;
    }
    for _ in 0..3 {
        assert!(consumer.try_pop().is_none());
        assert!(consumer.is_closed(true));
    }
}
