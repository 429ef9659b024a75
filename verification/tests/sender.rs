use bytes::Bytes;
use qlaster::bloom::BloomParams;
use qlaster::error::QlasterError;
use qlaster::keyset::KeySet;
use qlaster::metrics::QlasterSenderMetrics;
use qlaster::sender::manager::{ring_file_name, Installation, NotInstalled, ShmSlotPlan};
use qlaster::sender::update::encode_account_frame;
use qlaster::sender::shm::{default_shm_dir_name, ClientAction, DEFAULT_SHM_RING_CAPACITY};
use qlaster::sender::{ConnectionManager, ShmTransportConfig, SubscriptionFilter};
use qlaster::shm::{ShmRingConsumer, ShmRingProducer};
use qlaster::transport::{OutboundFrame, SlotSink};
use qlaster::types::{
    AccountPayload, AccountUpdate, ConnectionReady, PingRequest, Pubkey, SlotToken, SlotUpdate,
    SubscriptionRequest, TransactionPayload, TransactionUpdate, Update,
};
use solana_bloom::bloom::Bloom;
use std::path::PathBuf;

#[allow(deprecated)]
fn random_bloom(items: usize) -> BloomParams {
    let bloom = Bloom::<[u8; 32]>::random(items, 0.001, 1 << 20);
    BloomParams {
        num_bits: bloom.bits.len() as usize,
        hash_keys: bloom.keys,
    }
}

fn new_unique() -> Pubkey {
    Pubkey::new_from_array(solana_pubkey::Pubkey::new_unique().to_bytes())
}

fn key(seed: u8) -> Pubkey {
    Pubkey::new_from_array([seed; 32])
}

fn sample_update(account_pubkey: Pubkey, account_owner: Pubkey) -> AccountUpdate {
    AccountUpdate {
        account_pubkey,
        account_owner,
        lamports: 1,
        executable: false,
        rent_epoch: 0,
        slot: 0,
        write_version: 0,
        payload: AccountPayload::from_slice(&[]).expect("empty payload"),
    }
}

fn sample_transaction() -> TransactionUpdate {
    TransactionUpdate {
        slot: 7,
        index: 3,
        signature: [9; 64],
        is_vote: false,
        payload: TransactionPayload::from_slice(b"tx").expect("payload"),
    }
}

fn sink(capacity: usize, wakeup: u32) -> (SlotSink<u32>, ShmRingConsumer) {
    let (producer, consumer) = shaq::mpmc::pair::<u8>(capacity).expect("queue");
    (
        SlotSink::shm(ShmRingProducer::from_queue(producer, capacity), wakeup),
        ShmRingConsumer::from_queue(consumer, capacity),
    )
}

fn connect(
    manager: &mut ConnectionManager<u32>,
    request: &SubscriptionRequest,
    capacity: usize,
    now_ms: u64,
) -> (SlotToken, ShmRingConsumer) {
    match manager
        .plan_subscription(request, now_ms, random_bloom)
        .expect("plan")
    {
        ShmSlotPlan::Provision {
            slot_index,
            connection_id,
            filter,
        } => {
            let (sink, consumer) = sink(capacity, connection_id as u32);
            match manager.install(slot_index, connection_id, filter, sink, now_ms) {
                Ok(token) => (token, consumer),
                Err(_) => panic!("the slot was free"),
            }
        }
        ShmSlotPlan::Existing(token) => panic!("unexpected slot {token:?}"),
    }
}

#[test]
fn filter_from_request_deduplicates_and_matches_pubkey_or_owner() {
    let matched_pubkey = new_unique();
    let matched_owner = new_unique();
    let other_pubkey = new_unique();
    let other_owner = new_unique();

    let request = SubscriptionRequest::new(
        vec![matched_pubkey, matched_pubkey],
        vec![matched_owner, matched_owner],
    );
    let filter = SubscriptionFilter::from_request(&request, random_bloom);

    assert_eq!(filter.account_pubkeys.len(), 1);
    assert_eq!(filter.account_owners.len(), 1);

    assert!(filter.matches_account(&sample_update(matched_pubkey, other_owner)));
    assert!(filter.matches_account(&sample_update(other_pubkey, matched_owner)));
    assert!(!filter.matches_account(&sample_update(other_pubkey, other_owner)));
}

#[test]
fn add_request_updates_existing_filter_contents() {
    let first_pubkey = new_unique();
    let first_owner = new_unique();
    let second_pubkey = new_unique();
    let second_owner = new_unique();

    let filter = SubscriptionFilter::from_request(
        &SubscriptionRequest::new(vec![first_pubkey], vec![first_owner]),
        random_bloom,
    );
    assert!(!filter.matches_account(&sample_update(second_pubkey, second_owner)));

    let filter = filter.with_request(
        &SubscriptionRequest::new(vec![second_pubkey], vec![second_owner]),
        random_bloom,
    );

    assert!(filter.account_pubkeys.contains(&first_pubkey));
    assert!(filter.account_pubkeys.contains(&second_pubkey));
    assert!(filter.account_owners.contains(&first_owner));
    assert!(filter.account_owners.contains(&second_owner));
    assert!(filter.matches_account(&sample_update(second_pubkey, second_owner)));
}

#[test]
fn transaction_subscription_is_explicit_and_sticky() {
    let filter = SubscriptionFilter::from_request(
        &SubscriptionRequest::new(Vec::new(), Vec::new()),
        random_bloom,
    );
    assert!(!filter.matches_transaction());

    let filter = filter.with_request(&SubscriptionRequest::transactions(), random_bloom);
    assert!(filter.matches_transaction());

    let filter = filter.with_request(
        &SubscriptionRequest::new(Vec::new(), Vec::new()),
        random_bloom,
    );
    assert!(filter.matches_transaction());
}

#[test]
fn empty_filter_matches_nothing() {
    let filter = SubscriptionFilter::from_request(
        &SubscriptionRequest::new(Vec::new(), Vec::new()),
        random_bloom,
    );

    assert!(filter.account_pubkeys.is_empty());
    assert!(filter.account_owners.is_empty());
    assert!(!filter.matches_account(&sample_update(new_unique(), new_unique())));
}

#[test]
fn large_filter_matches_exactly_behind_its_bloom_filter() {
    let keys: Vec<Pubkey> = (0..300).map(|_| new_unique()).collect();
    let owners: Vec<Pubkey> = (0..40).map(|_| new_unique()).collect();
    let filter = SubscriptionFilter::from_request(
        &SubscriptionRequest::new(keys.clone(), owners.clone()),
        random_bloom,
    );
    let stranger = new_unique();
    for k in &keys {
        assert!(filter.matches_account(&sample_update(*k, stranger)));
        assert!(!filter.matches_account(&sample_update(stranger, *k)));
    }
    for o in &owners {
        assert!(filter.matches_account(&sample_update(stranger, *o)));
        assert!(!filter.matches_account(&sample_update(*o, stranger)));
    }
    for _ in 0..2000 {
        assert!(!filter.matches_account(&sample_update(new_unique(), new_unique())));
    }
}

#[test]
fn bloom_filter_is_made_for_the_number_of_distinct_keys() {
    let asked = std::cell::Cell::new(0usize);
    let make = |items: usize| {
        asked.set(items);
        random_bloom(items)
    };
    SubscriptionFilter::from_request(
        &SubscriptionRequest::new(vec![key(1), key(1), key(2)], vec![key(1)]),
        make,
    );
    assert_eq!(asked.get(), 3);
    let make = |items: usize| {
        asked.set(items);
        random_bloom(items)
    };
    SubscriptionFilter::from_request(&SubscriptionRequest::transactions(), make);
    assert_eq!(asked.get(), 1);
}

#[test]
fn saturated_bloom_filter_costs_no_exactness() {
    // One bit and one seed: everything is taken to be in the filter.
    let tiny = |_items: usize| BloomParams {
        num_bits: 1,
        hash_keys: vec![1],
    };
    let keys: Vec<Pubkey> = (0..20).map(key).collect();
    let filter =
        SubscriptionFilter::from_request(&SubscriptionRequest::new(keys, Vec::new()), tiny);
    assert!(filter.matches_account(&sample_update(key(19), key(0))));
    assert!(!filter.matches_account(&sample_update(key(20), key(0))));
}

#[test]
fn key_sets_hold_each_key_once() {
    let mut set = KeySet::new();
    assert!(set.is_empty());
    assert!(set.insert(key(1)));
    assert!(!set.insert(key(1)));
    // Same first eight bytes, different keys.
    let mut twin = [1u8; 32];
    twin[31] = 2;
    let twin = Pubkey::new_from_array(twin);
    assert!(!set.contains(&twin));
    assert!(set.insert(twin));
    assert!(set.contains(&twin));
    assert!(set.contains(&key(1)));
    assert!(!set.contains(&key(2)));
    assert_eq!(set.len(), 2);
    set.extend(&[key(1), key(3), key(3)]);
    assert_eq!(set.len(), 3);
    assert_eq!(set.as_slice(), &[key(1), twin, key(3)]);
    let copy = set.clone();
    set.insert(key(4));
    assert_eq!(copy.len(), 3);
    assert!(!copy.contains(&key(4)));
}

#[test]
fn slots_are_given_in_order_and_run_out() {
    let mut manager: ConnectionManager<u32> = ConnectionManager::new();
    let request = SubscriptionRequest::new(Vec::new(), Vec::new());
    for i in 0..10u8 {
        let (token, _consumer) = connect(&mut manager, &request, 64, 1000);
        assert_eq!(token, SlotToken::new(i, 1 + u64::from(i)));
    }
    match manager.plan_subscription(&request, 1000, random_bloom) {
        Err(QlasterError::ConfigError(words)) => {
            assert_eq!(words, "connection slots exhausted (max 10)")
        }
        _ => panic!("an eleventh slot was given"),
    }
    // The number that was used up for the refused request is not given again.
    assert!(manager.find_free_slot(1000).is_none());
    manager.cleanup_if_same(4, 5);
    let (token, _consumer) = connect(&mut manager, &request, 64, 1000);
    assert_eq!(token, SlotToken::new(4, 12));
}

#[test]
fn silent_tenants_make_room() {
    let mut manager: ConnectionManager<u32> = ConnectionManager::new();
    let request = SubscriptionRequest::new(Vec::new(), Vec::new());
    let (first, mut consumer) = connect(&mut manager, &request, 64, 1000);
    let (second, _c2) = connect(&mut manager, &request, 64, 1000);
    // Exactly at the limit a tenant is still there.
    assert_eq!(manager.lookup_by_token(first, 31_000), Some(0));
    assert!(manager.touch_ping_at(&PingRequest::new(second), 31_000));
    assert_eq!(
        manager.connection(1).expect("second tenant").last_seen_ms(),
        31_000
    );
    // One past it, it is put out, and its ring closed.
    assert_eq!(manager.find_free_slot(31_001), Some(0));
    let retired = manager.take_retired();
    assert_eq!(retired.len(), 1);
    assert_eq!(retired[0].connection_id(), first.generation);
    assert_eq!(*retired[0].wakeup(), 1);
    assert!(manager.take_retired().is_empty());
    assert!(consumer.try_pop().is_none());
    assert!(consumer.is_closed(true));
    assert!(manager.connection(0).is_none());
    // A clock that runs backwards makes nobody silent.
    assert_eq!(manager.lookup_by_token(second, 5), Some(1));
}

#[test]
fn tokens_of_former_tenants_are_refused() {
    let mut manager: ConnectionManager<u32> = ConnectionManager::new();
    let request = SubscriptionRequest::new(Vec::new(), Vec::new());
    let (old, _c1) = connect(&mut manager, &request, 64, 0);
    assert!(!manager.touch_ping_at(&PingRequest::new(old), 40_000));
    assert!(manager.connection(0).is_none());
    let (new, _c2) = connect(&mut manager, &request, 64, 40_000);
    assert_eq!(new.slot_index, old.slot_index);
    assert_ne!(new.generation, old.generation);
    assert!(!manager.touch_ping_at(&PingRequest::new(old), 40_000));
    assert!(manager.touch_ping_at(&PingRequest::new(new), 40_000));
    manager.cleanup_if_same(0, old.generation);
    assert!(manager.connection(0).is_some());
    manager.cleanup_if_same(0, new.generation);
    assert!(manager.connection(0).is_none());
    assert_eq!(manager.lookup_by_token(SlotToken::new(10, 1), 0), None);
    assert_eq!(manager.lookup_by_token(SlotToken::new(255, 1), 0), None);
}

#[test]
fn good_token_adds_to_the_filter_of_its_slot() {
    let mut manager: ConnectionManager<u32> = ConnectionManager::new();
    let (token, _c) = connect(
        &mut manager,
        &SubscriptionRequest::new(vec![key(1)], Vec::new()),
        64,
        10,
    );
    let more = SubscriptionRequest::new(vec![key(2)], vec![key(3)])
        .with_transactions()
        .with_slot_token(Some(token));
    match manager.plan_subscription(&more, 20, random_bloom).expect("plan") {
        ShmSlotPlan::Existing(same) => assert_eq!(same, token),
        ShmSlotPlan::Provision { .. } => panic!("the slot was there"),
    }
    let tenant = manager.connection(0).expect("tenant");
    assert_eq!(tenant.last_seen_ms(), 20);
    assert_eq!(tenant.slot_token(), token);
    assert_eq!(tenant.slot_index(), 0);
    assert!(!tenant.is_stale_at(30_020));
    assert!(tenant.is_stale_at(30_021));
    assert!(tenant.filter().matches_transaction());
    assert!(tenant.filter().matches_account(&sample_update(key(1), key(9))));
    assert!(tenant.filter().matches_account(&sample_update(key(2), key(9))));
    assert!(tenant.filter().matches_account(&sample_update(key(9), key(3))));
    // A stale token gets a slot of its own.
    let gone = SubscriptionRequest::transactions().with_slot_token(Some(SlotToken::new(0, 99)));
    match manager.plan_subscription(&gone, 20, random_bloom).expect("plan") {
        ShmSlotPlan::Provision {
            slot_index,
            connection_id,
            filter,
        } => {
            assert_eq!(slot_index, 1);
            assert_eq!(connection_id, 2);
            assert!(filter.matches_transaction());
            // A slot that is taken gives filter and sink back.
            let (sink, _consumer) = sink(64, 5);
            match manager.install(0, connection_id, filter, sink, 20) {
                Err(NotInstalled { filter, sink }) => {
                    assert!(filter.matches_transaction());
                    assert_eq!(*sink.wakeup(), 5);
                }
                Ok(token) => panic!("installed over a tenant as {token:?}"),
            }
        }
        ShmSlotPlan::Existing(token) => panic!("unexpected slot {token:?}"),
    }
}

#[test]
fn dispatch_reaches_subscribers_only() {
    let mut manager: ConnectionManager<u32> = ConnectionManager::new();
    let mut metrics = QlasterSenderMetrics::new();
    let (_a, mut ring_a) = connect(
        &mut manager,
        &SubscriptionRequest::new(vec![key(5)], vec![]),
        4096,
        0,
    );
    let (_b, mut ring_b) = connect(
        &mut manager,
        &SubscriptionRequest::new(vec![key(6)], vec![]).with_transactions(),
        4096,
        0,
    );
    let update = sample_update(key(5), key(7));
    let sent = manager.dispatch_at(1, &Update::Account(update.clone()), &mut metrics);
    assert_eq!(sent.woken, vec![0]);
    let frame = sent.frame.expect("a frame");
    let body = ring_a.try_pop().expect("a's frame");
    assert_eq!(body.len(), frame.total_len());
    assert_eq!(AccountUpdate::decode(&body).expect("decode"), update);
    assert!(ring_b.try_pop().is_none());

    let sent = manager.dispatch_at(1, &Update::Transaction(sample_transaction()), &mut metrics);
    assert_eq!(sent.woken, vec![1]);
    assert!(ring_a.try_pop().is_none());
    assert_eq!(
        TransactionUpdate::decode(&ring_b.try_pop().expect("b's frame")).expect("decode"),
        sample_transaction()
    );

    let sent = manager.dispatch_at(1, &Update::Slot(SlotUpdate::new(44)), &mut metrics);
    assert_eq!(sent.woken, vec![0, 1]);
    assert_eq!(
        SlotUpdate::decode(&ring_a.try_pop().expect("slot")).expect("decode"),
        SlotUpdate::new(44)
    );
    assert_eq!(
        SlotUpdate::decode(&ring_b.try_pop().expect("slot")).expect("decode"),
        SlotUpdate::new(44)
    );

    let nobody = sample_update(key(8), key(8));
    let sent = manager.dispatch_at(1, &Update::Account(nobody), &mut metrics);
    assert!(sent.woken.is_empty());
    assert!(sent.frame.is_none());

    assert_eq!(metrics.dispatch.flush().count, 4);
    assert_eq!(metrics.shm_send.flush().count, 4);
    assert_eq!(metrics.shm_ring_full.peek(), 0);
    assert!(manager.take_retired().is_empty());
}

#[test]
fn slow_consumer_is_put_out_and_others_are_served() {
    let mut manager: ConnectionManager<u32> = ConnectionManager::new();
    let mut metrics = QlasterSenderMetrics::new();
    let nothing = SubscriptionRequest::new(Vec::new(), Vec::new());
    let (slow, _slow_ring) = connect(&mut manager, &nothing, 64, 0);
    let (_quick, mut quick_ring) = connect(&mut manager, &nothing, 64, 0);
    let tick = Update::Slot(SlotUpdate::new(1));
    for _ in 0..2 {
        assert_eq!(manager.dispatch_at(0, &tick, &mut metrics).woken, vec![0, 1]);
        assert!(quick_ring.try_pop().is_some());
    }
    // 22 bytes a frame: the third does not fit into 64 bytes.
    assert_eq!(manager.dispatch_at(0, &tick, &mut metrics).woken, vec![0, 1][1..].to_vec());
    assert_eq!(metrics.shm_ring_full.flush(), 1);
    assert_eq!(metrics.shm_ring_full.peek(), 0);
    let retired = manager.take_retired();
    assert_eq!(retired.len(), 1);
    assert_eq!(retired[0].connection_id(), slow.generation);
    assert!(manager.connection(0).is_none());
    assert!(quick_ring.try_pop().is_some());
    assert_eq!(metrics.shm_send.flush().count, 5);
}

#[test]
fn frame_too_large_for_a_ring_puts_its_reader_out() {
    let mut manager: ConnectionManager<u32> = ConnectionManager::new();
    let mut metrics = QlasterSenderMetrics::new();
    let (_t, _ring) = connect(
        &mut manager,
        &SubscriptionRequest::new(vec![key(1)], vec![]),
        64,
        0,
    );
    let sent = manager.dispatch_at(
        0,
        &Update::Account(sample_update(key(1), key(2))),
        &mut metrics,
    );
    assert!(sent.woken.is_empty());
    assert!(sent.frame.is_some());
    assert_eq!(manager.take_retired().len(), 1);
    assert_eq!(metrics.shm_ring_full.peek(), 1);
}

#[test]
fn dispatch_now_uses_the_clock() {
    let mut manager: ConnectionManager<u32> = ConnectionManager::new();
    let mut metrics = QlasterSenderMetrics::new();
    let nothing = SubscriptionRequest::transactions();
    let now = ConnectionManager::<u32>::now_ms();
    assert!(now > 1_600_000_000_000);
    let (token, _ring) = connect(&mut manager, &nothing, 4096, now);
    assert_eq!(manager.dispatch_slot_update(SlotUpdate::new(1), &mut metrics).woken, vec![0]);
    assert_eq!(
        manager.dispatch_transaction_update(sample_transaction(), &mut metrics).woken,
        vec![0]
    );
    assert!(manager
        .dispatch_account_update(sample_update(key(1), key(2)), &mut metrics)
        .woken
        .is_empty());
    assert!(manager.touch_ping(&PingRequest::new(token)));
    // A tenant last heard of long ago is silent.
    let (_t, _old_ring) = connect(&mut manager, &nothing, 4096, 0);
    assert_eq!(manager.dispatch_slot_update(SlotUpdate::new(1), &mut metrics).woken, vec![0]);
    assert_eq!(manager.take_retired().len(), 1);
}

#[test]
fn settled_pushes_are_measured_or_put_the_tenant_out() {
    let mut manager: ConnectionManager<u32> = ConnectionManager::new();
    let mut metrics = QlasterSenderMetrics::new();
    let (_t, _ring) = connect(
        &mut manager,
        &SubscriptionRequest::transactions(),
        64,
        0,
    );
    manager.settle_push(0, true, 12, &mut metrics);
    assert!(manager.connection(0).is_some());
    manager.settle_push(0, false, 13, &mut metrics);
    assert!(manager.connection(0).is_none());
    let sends = metrics.shm_send.flush();
    assert_eq!((sends.count, sends.total_us), (1, 12));
    assert_eq!(metrics.shm_ring_full.flush(), 1);
}

#[test]
fn client_frames_are_answered() {
    let mut manager: ConnectionManager<u32> = ConnectionManager::new();
    let first = SubscriptionRequest::new(vec![key(1)], vec![]);
    let (slot_index, connection_id, filter) =
        match manager.on_client_frame(&first.encode(), 7, random_bloom) {
            ClientAction::Provision {
                request,
                slot_index,
                connection_id,
                filter,
            } => {
                assert_eq!(request, first);
                (slot_index, connection_id, filter)
            }
            _ => panic!("expected a provision"),
        };
    let (sink, _ring) = sink(64, 1);
    let token = match manager.install(slot_index, connection_id, filter, sink, 7) {
        Ok(token) => token,
        Err(_) => panic!("the slot was free"),
    };
    let again = SubscriptionRequest::transactions().with_slot_token(Some(token));
    match manager.on_client_frame(&again.encode(), 8, random_bloom) {
        ClientAction::Reply { request, frame } => {
            assert_eq!(request, again);
            assert_eq!(
                ConnectionReady::decode(&frame).expect("decode"),
                ConnectionReady::new(token)
            );
        }
        _ => panic!("expected a reply"),
    }
    let ping = PingRequest::new(token).encode();
    assert!(matches!(
        manager.on_client_frame(&ping, 9, random_bloom),
        ClientAction::Pinged
    ));
    let stranger = PingRequest::new(SlotToken::new(3, 3));
    assert!(matches!(
        manager.on_client_frame(&stranger.encode(), 9, random_bloom),
        ClientAction::UnknownPing(token) if token == stranger.slot_token
    ));
    assert!(matches!(
        manager.on_client_frame(&[9, 9], 9, random_bloom),
        ClientAction::Fail(QlasterError::InvalidMessageTag { found: 9, expected: 1 })
    ));
}

#[test]
fn sinks_give_back_what_they_do_not_take() {
    let (mut sink, mut ring) = sink(64, 3);
    let frame = OutboundFrame {
        header: Bytes::copy_from_slice(b"head"),
        payload: Bytes::copy_from_slice(b"body"),
        frame_start: std::time::Instant::now(),
    };
    assert_eq!(frame.total_len(), 8);
    assert!(sink.try_push(frame.clone()).is_ok());
    assert_eq!(ring.try_pop().expect("frame"), b"headbody");
    let large = OutboundFrame {
        payload: Bytes::from(vec![0u8; 64]),
        ..frame
    };
    let back = sink.try_push(large).expect_err("too large");
    assert_eq!(back.total_len(), 68);
    sink.close();
    assert!(ring.try_pop().is_none());
    assert!(ring.is_closed(true));
}

#[test]
fn configuration_wants_rings_of_a_power_of_two() {
    let mut config =
        ShmTransportConfig::defaults(PathBuf::from("/tmp/q.sock"), PathBuf::from("/tmp/q"));
    assert_eq!(config.ring_capacity_bytes, DEFAULT_SHM_RING_CAPACITY);
    assert_eq!(config.uds_path, PathBuf::from("/tmp/q.sock"));
    assert_eq!(config.clone().shm_dir, PathBuf::from("/tmp/q"));
    assert!(config.check().is_ok());
    config.ring_capacity_bytes = 1000;
    match config.check() {
        Err(QlasterError::ConfigError(words)) => {
            assert_eq!(words, "ring_capacity_bytes 1000 must be a power of two")
        }
        other => panic!("expected ConfigError, got {other:?}"),
    }
}

#[test]
fn file_names_are_exact() {
    assert_eq!(ring_file_name(4242, 9, 10), "4242-9-10");
    assert_eq!(default_shm_dir_name(77), "qlaster-77");
}

#[test]
fn a_closed_sink_gives_every_frame_back() {
    let (mut sink, mut ring) = sink(4096, 5);
    let frame = OutboundFrame {
        header: Bytes::from_static(b"head"),
        payload: Bytes::from_static(b"body"),
        frame_start: std::time::Instant::now(),
    };
    assert!(sink.try_push(frame.clone()).is_ok());
    sink.close();
    for _ in 0..2 {
        let back = sink.try_push(frame.clone()).expect_err("closed");
        assert_eq!((&back.header, &back.payload), (&frame.header, &frame.payload));
        assert_eq!(back.frame_start, frame.frame_start);
    }
    assert_eq!(*sink.wakeup(), 5);
    assert_eq!(ring.try_pop().as_deref(), Some(&b"headbody"[..]));
    assert!(ring.try_pop().is_none());
    assert!(ring.is_closed(true));
    assert!(ring.try_pop().is_none());
}

#[test]
fn only_a_ring_that_takes_no_more_costs_the_slot() {
    let mut manager: ConnectionManager<u32> = ConnectionManager::new();
    let mut metrics = QlasterSenderMetrics::new();
    let request = SubscriptionRequest::transactions();
    let (_roomy, mut roomy) = connect(&mut manager, &request, 4096, 0);
    let (_tight, _full) = connect(&mut manager, &request, 64, 0);
    // Two frames of 22 bytes fit into 64 bytes, a third one does not.
    for slot in 0..2 {
        let sent = manager.dispatch_at(1, &Update::Slot(SlotUpdate::new(slot)), &mut metrics);
        assert_eq!(sent.woken, vec![0, 1]);
    }
    let sent = manager.dispatch_at(1, &Update::Slot(SlotUpdate::new(2)), &mut metrics);
    assert_eq!(sent.woken, vec![0]);
    assert!(manager.connection(0).is_some());
    assert!(manager.connection(1).is_none());
    let retired = manager.take_retired();
    assert_eq!(retired.len(), 1);
    assert_eq!(retired[0].slot_index(), 1);
    assert_eq!(metrics.shm_send.flush().count, 5);
    assert_eq!(metrics.shm_ring_full.flush(), 1);
    for _ in 0..3 {
        assert!(roomy.try_pop().is_some());
    }
    assert!(roomy.try_pop().is_none());

    let frame = sent.frame.expect("a frame");
    assert!(manager.push_to_entry(0, &frame, &mut metrics));
    assert!(roomy.try_pop().is_some());
}

#[test]
fn account_frames_are_compressed_where_it_pays() {
    let mut update = sample_update(key(1), key(2));
    let plain = encode_account_frame(&update).expect("frame");
    assert_eq!(plain.payload.len(), 0);
    update.payload = AccountPayload::from_slice(&vec![7; 64 * 1024]).expect("payload");
    let small = encode_account_frame(&update).expect("frame");
    assert_eq!(small.payload.len(), 64 * 1024);
    update.payload = AccountPayload::from_slice(&vec![7; 600 * 1024]).expect("payload");
    let packed = encode_account_frame(&update).expect("frame");
    assert!(packed.payload.len() < 60 * 1024);
    let mut bytes = packed.header.to_vec();
    bytes.extend_from_slice(&packed.payload);
    let read = AccountUpdate::decode(&bytes).expect("decode");
    assert_eq!(read.payload.as_slice(), update.payload.as_slice());
}

#[test]
fn a_slot_that_was_taken_meanwhile_is_not_given_twice() {
    let mut manager: ConnectionManager<u32> = ConnectionManager::new();
    let request = SubscriptionRequest::transactions();
    let mut numbers = Vec::new();
    for slot in 0..10 {
        // The slot asked for is free only the first time.
        let mut slot_index = 0;
        let mut filter = SubscriptionFilter::from_request(&request, random_bloom);
        loop {
            match manager.install_or_retry(slot_index, slot + 1, filter, sink(64, 0).0, 5) {
                Installation::Installed(token) => {
                    assert_eq!(u64::from(token.slot_index), slot);
                    assert_eq!(token.generation, slot + 1);
                    assert_eq!(manager.lookup_by_token(token, 5), Some(slot as usize));
                    numbers.push(token.generation);
                    break;
                }
                Installation::Retry { slot_index: next, filter: back } => {
                    assert_eq!(slot_index, 0);
                    assert_eq!(next as u64, slot);
                    assert!(back.matches_transaction());
                    slot_index = next;
                    filter = back;
                }
                Installation::Failed(err) => panic!("no slot: {err:?}"),
            }
        }
    }
    let filter = SubscriptionFilter::from_request(&request, random_bloom);
    match manager.install_or_retry(3, 99, filter, sink(64, 0).0, 5) {
        Installation::Failed(QlasterError::ConfigError(words)) => {
            assert_eq!(words, "connection slots exhausted (max 10)")
        }
        _ => panic!("an eleventh slot was given"),
    }
    assert_eq!(numbers.len(), 10);
}

#[test]
fn numbers_of_connections_grow() {
    let mut manager: ConnectionManager<u32> = ConnectionManager::new();
    let request = SubscriptionRequest::transactions();
    let mut rings = Vec::new();
    for number in 1..=10 {
        let (token, ring) = connect(&mut manager, &request, 64, 0);
        assert_eq!(token.generation, number);
        rings.push(ring);
    }
    // A request that finds no slot uses a number up too.
    assert!(manager.plan_subscription(&request, 0, random_bloom).is_err());
    manager.cleanup_if_same(4, 5);
    let (token, _ring) = connect(&mut manager, &request, 64, 0);
    assert_eq!((token.slot_index, token.generation), (4, 12));
}

#[test]
fn filters_and_clones_keep_their_parts() {
    let request = SubscriptionRequest::new(vec![key(1), key(2), key(1)], vec![key(3)]);
    let filter = SubscriptionFilter::from_request(&request, random_bloom);
    assert_eq!(filter.account_pubkeys().len(), 2);
    assert!(filter.account_pubkeys().contains(&key(2)));
    assert_eq!(filter.account_owners().len(), 1);
    assert!(filter.account_owners().contains(&key(3)));
    let frame = OutboundFrame {
        header: Bytes::from_static(b"he"),
        payload: Bytes::from_static(b"ad"),
        frame_start: std::time::Instant::now(),
    };
    let copy = frame.clone();
    assert_eq!((&copy.header[..], &copy.payload[..]), (&b"he"[..], &b"ad"[..]));
    assert_eq!(copy.frame_start, frame.frame_start);
}
