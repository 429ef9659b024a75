use qlaster::bloom::BloomParams;
use qlaster::consumer::shm::{
    accept_handshake, after_drain, bootstrap_request, AfterDrain, FrameOutcome, HandshakeReply,
    RingPoll, CONSUMER_UPDATE_QUEUE_CAPACITY,
};
use qlaster::consumer::QlasterShmConsumer;
use qlaster::error::QlasterError;
use qlaster::metrics::{QlasterConsumerMetrics, QlasterSenderMetrics};
use qlaster::sender::shm::{handshake_frame, ClientAction};
use qlaster::sender::ConnectionManager;
use qlaster::shm::{ShmRingConsumer, ShmRingProducer};
use qlaster::transport::SlotSink;
use qlaster::types::{
    AccountPayload, AccountUpdate, ConnectionReady, ConnectionReadyShm, Pubkey, ServerFrame,
    SlotToken, SlotUpdate, SubscriptionRequest, TransactionPayload, TransactionUpdate, Update,
};
use solana_bloom::bloom::Bloom;

#[allow(deprecated)]
fn random_bloom(items: usize) -> BloomParams {
    let bloom = Bloom::<[u8; 32]>::random(items, 0.001, 1 << 20);
    BloomParams {
        num_bits: bloom.bits.len() as usize,
        hash_keys: bloom.keys,
    }
}

fn test_pubkey(seed: u8) -> Pubkey {
    Pubkey::new_from_array([seed; 32])
}

struct Publisher {
    manager: ConnectionManager<u32>,
    metrics: QlasterSenderMetrics,
    forwarded: Vec<SubscriptionRequest>,
}

struct Subscriber {
    state: QlasterShmConsumer,
    ring: ShmRingConsumer,
}

impl Publisher {
    fn new() -> Self {
        Self {
            manager: ConnectionManager::new(),
            metrics: QlasterSenderMetrics::new(),
            forwarded: Vec::new(),
        }
    }

    fn send(&mut self, update: Update) {
        let now_ms = ConnectionManager::<u32>::now_ms();
        self.manager.dispatch_at(now_ms, &update, &mut self.metrics);
    }
}

impl Subscriber {
    fn connect(sender: &mut Publisher) -> Self {
        let now_ms = ConnectionManager::<u32>::now_ms();
        let hello = bootstrap_request().encode();
        let capacity = 1024 * 1024;
        match sender.manager.on_client_frame(&hello, now_ms, random_bloom) {
            ClientAction::Provision {
                request,
                slot_index,
                connection_id,
                filter,
            } => {
                let (producer, consumer) = shaq::mpmc::pair::<u8>(capacity).expect("queue");
                let sink = SlotSink::shm(ShmRingProducer::from_queue(producer, capacity), 0);
                let token = match sender
                    .manager
                    .install(slot_index, connection_id, filter, sink, now_ms)
                {
                    Ok(token) => token,
                    Err(_) => panic!("the slot was free"),
                };
                sender.forwarded.push(request);
                let reply = handshake_frame(token, "ring".into(), capacity as u64);
                match accept_handshake(&reply, Some(5)).expect("handshake") {
                    HandshakeReply::Ready(ready, fd) => {
                        assert_eq!(fd, 5);
                        assert_eq!(ready.ring_path, "ring");
                        assert_eq!(ready.ring_capacity, capacity as u64);
                        Subscriber {
                            state: QlasterShmConsumer::new(
                                ready.slot_token,
                                QlasterConsumerMetrics::new(),
                            ),
                            ring: ShmRingConsumer::from_queue(consumer, capacity),
                        }
                    }
                    HandshakeReply::Unexpected(frame) => panic!("unexpected {frame:?}"),
                }
            }
            _ => panic!("expected a provision"),
        }
    }

    fn subscribe(&mut self, sender: &mut Publisher, request: SubscriptionRequest) {
        let now_ms = ConnectionManager::<u32>::now_ms();
        match sender
            .manager
            .on_client_frame(&request.encode(), now_ms, random_bloom)
        {
            ClientAction::Reply { request, frame } => {
                sender.forwarded.push(request);
                self.state.on_subscribe_reply(frame).expect("subscribe");
            }
            _ => panic!("expected a reply"),
        }
    }

    fn drain(&mut self) {
        loop {
            match self.state.poll_ring(&mut self.ring) {
                RingPoll::Frame(FrameOutcome::Enqueued) => {}
                RingPoll::Frame(_) => panic!("a frame that is no update"),
                RingPoll::Empty => return,
            }
        }
    }
}

#[test]
fn shm_end_to_end_filter_and_delivery() {
    let mut sender = Publisher::new();
    let mut consumer = Subscriber::connect(&mut sender);
    assert!(sender.forwarded[0].account_pubkeys.is_empty());
    assert!(sender.forwarded[0].account_owners.is_empty());

    let pk = test_pubkey(1);
    let owner = test_pubkey(2);
    let request = consumer.state.subscribe_request(vec![pk], vec![owner]);
    consumer.subscribe(&mut sender, request);
    assert_eq!(sender.forwarded[1].account_pubkeys, vec![pk]);
    assert_eq!(sender.forwarded[1].account_owners, vec![owner]);

    sender.send(Update::Account(AccountUpdate {
        account_pubkey: test_pubkey(3),
        account_owner: test_pubkey(4),
        lamports: 1,
        executable: false,
        rent_epoch: 0,
        slot: 1,
        write_version: 1,
        payload: AccountPayload::from_slice(b"miss").expect("payload"),
    }));
    consumer.drain();
    assert!(consumer.state.try_next_update().is_none(), "unexpected non-matching delivery");

    sender.send(Update::Account(AccountUpdate {
        account_pubkey: pk,
        account_owner: owner,
        lamports: 42,
        executable: true,
        rent_epoch: 7,
        slot: 2,
        write_version: 2,
        payload: AccountPayload::from_slice(b"hit").expect("payload"),
    }));
    consumer.drain();
    let got = consumer.state.try_next_update().expect("matching update");
    assert_eq!(got.account_pubkey, pk);
    assert_eq!(got.lamports, 42);
    assert_eq!(got.payload.as_slice(), b"hit");

    let ping = consumer.state.ping().expect("ping");
    assert!(matches!(
        sender.manager.on_client_frame(
            &ping,
            ConnectionManager::<u32>::now_ms(),
            random_bloom
        ),
        ClientAction::Pinged
    ));

    assert!(sender.metrics.dispatch.flush().count >= 1);
    assert!(sender.metrics.shm_send.flush().count >= 1);
    assert_eq!(sender.metrics.shm_ring_full.peek(), 0);

    let metrics = consumer.state.metrics();
    assert!(metrics.read.flush().count >= 1);
    assert!(metrics.decode.flush().count >= 1);
    assert!(metrics.enqueue.flush().count >= 1);
    let full_read = metrics.full_read.flush();
    assert!(full_read.count >= 1 && full_read.total_us > 0);
}

#[test]
fn shm_transaction_stream_requires_subscription() {
    let mut sender = Publisher::new();
    let mut consumer = Subscriber::connect(&mut sender);
    let tx_update = TransactionUpdate {
        slot: 7,
        index: 3,
        signature: [9u8; 64],
        is_vote: false,
        payload: TransactionPayload::from_slice(b"tx-bytes").expect("payload"),
    };

    sender.send(Update::Transaction(tx_update.clone()));
    consumer.drain();
    assert!(consumer.state.try_next_transaction().is_none());

    let request = consumer.state.subscribe_transactions_request();
    consumer.subscribe(&mut sender, request);
    sender.send(Update::Transaction(tx_update.clone()));
    consumer.drain();
    let got = consumer.state.try_next_transaction().expect("transaction");
    assert_eq!(got.slot, tx_update.slot);
    assert_eq!(got.index, tx_update.index);
    assert_eq!(got.signature, tx_update.signature);
    assert_eq!(got.payload.as_slice(), b"tx-bytes");

    assert!(sender.metrics.dispatch.flush().count >= 1);
    assert!(sender.metrics.shm_send.flush().count >= 1);
    let metrics = consumer.state.metrics();
    assert!(metrics.read.flush().count >= 1);
    assert!(metrics.decode.flush().count >= 1);
    assert!(metrics.enqueue.flush().count >= 1);
    let full_read = metrics.full_read.flush();
    assert!(full_read.count >= 1 && full_read.total_us > 0);
}

#[test]
fn shm_slot_stream_is_always_on() {
    let mut sender = Publisher::new();
    let mut consumer = Subscriber::connect(&mut sender);
    let slot_update = SlotUpdate::new(44);
    sender.send(Update::Slot(slot_update));
    consumer.drain();
    assert_eq!(consumer.state.try_next_slot().expect("slot"), slot_update);
    assert!(sender.metrics.dispatch.flush().count >= 1);
    assert!(sender.metrics.shm_send.flush().count >= 1);
}

#[test]
fn multiple_shm_consumers_get_disjoint_filters() {
    let mut sender = Publisher::new();
    let mut a = Subscriber::connect(&mut sender);
    let mut b = Subscriber::connect(&mut sender);
    let pk_a = test_pubkey(5);
    let pk_b = test_pubkey(6);
    let dummy_owner = test_pubkey(7);
    let request = a.state.subscribe_request(vec![pk_a], vec![]);
    a.subscribe(&mut sender, request);
    let request = b.state.subscribe_request(vec![pk_b], vec![]);
    b.subscribe(&mut sender, request);

    let mk = |pk| AccountUpdate {
        account_pubkey: pk,
        account_owner: dummy_owner,
        lamports: 1,
        executable: false,
        rent_epoch: 0,
        slot: 1,
        write_version: 1,
        payload: AccountPayload::from_slice(b"x").expect("payload"),
    };
    sender.send(Update::Account(mk(pk_a)));
    sender.send(Update::Account(mk(pk_b)));
    a.drain();
    b.drain();
    assert_eq!(a.state.try_next_update().expect("a missed").account_pubkey, pk_a);
    assert_eq!(b.state.try_next_update().expect("b missed").account_pubkey, pk_b);
    assert!(a.state.try_next_update().is_none(), "a got cross-talk");
    assert!(b.state.try_next_update().is_none(), "b got cross-talk");
}

fn consumer() -> QlasterShmConsumer {
    QlasterShmConsumer::new(SlotToken::new(1, 2), QlasterConsumerMetrics::new())
}

#[test]
fn queue_drops_the_oldest() {
    let mut state = consumer();
    let n = CONSUMER_UPDATE_QUEUE_CAPACITY as u64;
    for slot in 0..n + 3 {
        state.enqueue(Update::Slot(SlotUpdate::new(slot)));
    }
    for slot in 3..n + 3 {
        assert_eq!(state.try_next_slot(), Some(SlotUpdate::new(slot)));
    }
    assert_eq!(state.try_next_slot(), None);
    assert!(state.try_next_update().is_none());
    assert!(state.try_next_transaction().is_none());
}

#[test]
fn frames_that_are_no_updates_change_nothing() {
    let mut state = consumer();
    let ready = ConnectionReady::new(SlotToken::new(3, 4)).encode();
    assert!(matches!(state.on_frame(ready, 1), FrameOutcome::NotAnUpdate(_)));
    assert!(matches!(
        state.on_frame(vec![9], 1),
        FrameOutcome::Failed(QlasterError::MalformedPayload("frame too short for wire tag"))
    ));
    assert_eq!(state.slot_token(), Some(SlotToken::new(1, 2)));
    assert_eq!(state.metrics().read.flush().count, 0);

    let slot = SlotUpdate::new(5).encode().expect("encode");
    assert!(matches!(state.on_frame(slot, 17), FrameOutcome::Enqueued));
    assert_eq!(state.try_next_slot(), Some(SlotUpdate::new(5)));
    let read = state.metrics().read.flush();
    assert_eq!((read.count, read.total_us), (1, 17));
}

#[test]
fn subscribe_replies_are_told_apart() {
    let mut state = consumer();
    state
        .on_subscribe_reply(ConnectionReady::new(SlotToken::new(3, 9)).encode())
        .expect("reply");
    assert_eq!(state.slot_token(), Some(SlotToken::new(3, 9)));
    assert_eq!(
        state.subscribe_transactions_request().slot_token,
        Some(SlotToken::new(3, 9))
    );

    let mut words = |reply: Vec<u8>| match state.on_subscribe_reply(reply) {
        Err(QlasterError::UdsError(words)) => words,
        other => panic!("expected UdsError, got {other:?}"),
    };
    assert_eq!(
        words(ConnectionReadyShm::new(SlotToken::new(1, 1), "p".into(), 64).encode()),
        "unexpected ConnectionReadyShm on re-subscribe"
    );
    assert_eq!(
        words(SlotUpdate::new(1).encode().expect("encode")),
        "SlotUpdate on UDS control channel"
    );
    let account = AccountUpdate {
        account_pubkey: test_pubkey(1),
        account_owner: test_pubkey(2),
        lamports: 0,
        executable: false,
        rent_epoch: 0,
        slot: 0,
        write_version: 0,
        payload: AccountPayload::from_slice(b"").expect("payload"),
    };
    assert_eq!(
        words(account.encode().expect("encode")),
        "AccountUpdate on UDS control channel"
    );
    let transaction = TransactionUpdate {
        slot: 0,
        index: 0,
        signature: [0; 64],
        is_vote: true,
        payload: TransactionPayload::from_slice(b"").expect("payload"),
    };
    assert_eq!(
        words(transaction.encode().expect("encode")),
        "TransactionUpdate on UDS control channel"
    );
    assert!(state.on_subscribe_reply(vec![]).is_err());
    assert_eq!(state.slot_token(), Some(SlotToken::new(3, 9)));
}

#[test]
fn consumer_without_a_slot_cannot_ping() {
    let state = QlasterShmConsumer::new(SlotToken::new(255, 2), QlasterConsumerMetrics::new());
    assert_eq!(state.slot_token(), None);
    assert!(matches!(
        state.ping(),
        Err(QlasterError::MalformedPayload(
            "cannot send ping before slot token is assigned"
        ))
    ));
    assert_eq!(consumer().ping().expect("ping"), vec![9, 4, 1, 2, 0, 0, 0, 0, 0, 0, 0]);
}

#[test]
fn handshakes_are_judged() {
    let reply = handshake_frame(SlotToken::new(1, 2), "path".into(), 64);
    match accept_handshake::<i32>(&reply, None) {
        Err(QlasterError::UdsError(words)) => {
            assert_eq!(words, "ConnectionReadyShm missing eventfd")
        }
        _ => panic!("a handshake without its descriptor was accepted"),
    }
    let other = ConnectionReady::new(SlotToken::new(1, 2)).encode();
    assert!(matches!(
        accept_handshake(&other, Some(1)),
        Ok(HandshakeReply::Unexpected(ServerFrame::ConnectionReady(_)))
    ));
    assert!(accept_handshake(&[9, 5], Some(1)).is_err());
}

#[test]
fn closed_ring_ends_the_reader() {
    let (producer, consumer) = shaq::mpmc::pair::<u8>(64).expect("queue");
    let mut producer = ShmRingProducer::from_queue(producer, 64);
    let mut ring = ShmRingConsumer::from_queue(consumer, 64);
    let mut state = self::consumer();
    assert!(matches!(after_drain(&ring, true), AfterDrain::Wait));
    assert!(matches!(after_drain(&ring, false), AfterDrain::Stop));
    producer.close();
    assert!(matches!(state.poll_ring(&mut ring), RingPoll::Empty));
    assert!(matches!(after_drain(&ring, true), AfterDrain::Stop));
}
