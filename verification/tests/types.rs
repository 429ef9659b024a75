use bytes::Bytes;
use qlaster::error::QlasterError;
use qlaster::types::account::{
    lz4_gain_suffices, should_attempt_lz4, ACCOUNT_UPDATE_COMPRESSION_THRESHOLD_BYTES,
};
use qlaster::types::header::{REQUEST_SUBSCRIBE_TAG, UPDATE_TAG, WIRE_VERSION};
use qlaster::types::{
    decode_client_frame, decode_server_frame, decode_server_frame_owned,
    decode_server_frame_owned_with_meta, AccountPayload, AccountUpdate, AccountUpdateWireMeta,
    ClientFrame, ConnectionReady, ConnectionReadyShm, DecodedAccountUpdate, PingRequest, Pubkey,
    ServerFrame, ServerFrameWithMeta, SlotToken, SlotUpdate, SubscriptionRequest,
    TransactionPayload, TransactionUpdate, MAX_ACCOUNT_PAYLOAD_BYTES,
    MAX_TRANSACTION_PAYLOAD_BYTES,
};

fn new_unique() -> Pubkey {
    Pubkey::new_from_array(solana_pubkey::Pubkey::new_unique().to_bytes())
}

fn high_entropy(len: usize) -> Vec<u8> {
    let mut payload = vec![0u8; len];
    let mut state = 0x9E37_79B9_7F4A_7C15u64;
    for byte in &mut payload {
        state ^= state >> 12;
        state ^= state << 25;
        state ^= state >> 27;
        *byte = state.wrapping_mul(0x2545_F491_4F6C_DD1D) as u8;
    }
    payload
}

#[test]
fn subscription_request_roundtrip() {
    let req = SubscriptionRequest::new(vec![new_unique(), new_unique()], vec![new_unique()])
        .with_transactions()
        .with_slot_token(Some(SlotToken::new(2, 42)));
    let bytes = req.encode();
    let decoded = SubscriptionRequest::decode(&bytes).expect("decode request");
    assert_eq!(decoded, req);
    assert!(decoded.include_transactions);
}

#[test]
fn connection_ready_shm_roundtrip() {
    let token = SlotToken::new(3, 7);
    let ready = ConnectionReadyShm::new(token, "qlaster/test-ring".into(), 64 * 1024);
    let bytes = ready.encode();
    assert_eq!(
        ConnectionReadyShm::decode(&bytes).expect("decode shm ready"),
        ready
    );
    let routed = decode_server_frame(&bytes).expect("route shm ready");
    assert!(matches!(routed, ServerFrame::ConnectionReadyShm(_)));
}

#[test]
fn connection_ready_shm_rejects_missing_fields() {
    let bytes = ConnectionReadyShm::new(SlotToken::new(0, 1), String::new(), 64).encode();
    assert!(matches!(
        ConnectionReadyShm::decode(&bytes),
        Err(QlasterError::MalformedPayload(_))
    ));
    let bytes = ConnectionReadyShm::new(SlotToken::new(0, 1), "/path".into(), 0).encode();
    assert!(matches!(
        ConnectionReadyShm::decode(&bytes),
        Err(QlasterError::MalformedPayload(_))
    ));
}

#[test]
fn ping_and_ready_roundtrip() {
    let token = SlotToken::new(1, 99);
    let ping = PingRequest::new(token);
    assert_eq!(
        PingRequest::decode(&ping.encode()).expect("decode ping"),
        ping
    );

    let ready = ConnectionReady::new(token);
    assert_eq!(
        ConnectionReady::decode(&ready.encode()).expect("decode ready"),
        ready
    );
}

#[test]
fn account_update_roundtrip() {
    let update = AccountUpdate {
        account_pubkey: new_unique(),
        account_owner: new_unique(),
        lamports: 42,
        executable: true,
        rent_epoch: 7,
        slot: 99,
        write_version: 11,
        payload: AccountPayload::from_slice(b"hello").expect("payload"),
    };
    let bytes = update.encode().expect("encode update");
    let decoded = AccountUpdate::decode(&bytes).expect("decode update");
    assert_eq!(decoded, update);
}

#[test]
fn account_update_carries_sender_timestamp_metadata() {
    let update = AccountUpdate {
        account_pubkey: new_unique(),
        account_owner: new_unique(),
        lamports: 42,
        executable: false,
        rent_epoch: 7,
        slot: 99,
        write_version: 11,
        payload: AccountPayload::from_slice(b"hello").expect("payload"),
    };
    let sender_created_at_unix_nanos = 123_456_789;
    let (header, payload) = update
        .encode_parts_at(sender_created_at_unix_nanos)
        .expect("encode update");
    let mut bytes = Vec::with_capacity(header.len() + payload.len());
    bytes.extend_from_slice(&header);
    bytes.extend_from_slice(&payload);

    let (decoded, meta) = AccountUpdate::decode_with_meta(&bytes).expect("decode update");
    assert_eq!(decoded, update);
    assert_eq!(
        meta.sender_created_at_unix_nanos,
        sender_created_at_unix_nanos
    );
}

#[test]
fn transaction_update_roundtrip_and_metadata() {
    let update = TransactionUpdate {
        slot: 123,
        index: 4,
        signature: [7u8; 64],
        is_vote: true,
        payload: TransactionPayload::from_slice(b"transaction bytes").expect("payload"),
    };
    let sender_created_at_unix_nanos = 987_654_321;
    let (header, payload) = update
        .encode_parts_at(sender_created_at_unix_nanos)
        .expect("encode transaction");
    let mut bytes = Vec::with_capacity(header.len() + payload.len());
    bytes.extend_from_slice(&header);
    bytes.extend_from_slice(&payload);

    let (decoded, meta) = TransactionUpdate::decode_with_meta(&bytes).expect("decode transaction");
    assert_eq!(decoded, update);
    assert_eq!(
        meta.sender_created_at_unix_nanos,
        sender_created_at_unix_nanos
    );

    let routed = decode_server_frame(&bytes).expect("route transaction");
    assert!(matches!(routed, ServerFrame::TransactionUpdate(_)));
}

#[test]
fn slot_update_roundtrip_and_metadata() {
    let update = SlotUpdate::new(456);
    let sender_created_at_unix_nanos = 222_333_444;
    let (header, payload) = update
        .encode_parts_at(sender_created_at_unix_nanos)
        .expect("encode slot");
    assert!(payload.is_empty());
    let mut bytes = Vec::with_capacity(header.len() + payload.len());
    bytes.extend_from_slice(&header);
    bytes.extend_from_slice(&payload);

    let (decoded, meta) = SlotUpdate::decode_with_meta(&bytes).expect("decode slot");
    assert_eq!(decoded, update);
    assert_eq!(
        meta.sender_created_at_unix_nanos,
        sender_created_at_unix_nanos
    );

    let decoded_owned = SlotUpdate::decode_owned(bytes.clone()).expect("decode owned slot");
    assert_eq!(decoded_owned, update);

    let routed = decode_server_frame(&bytes).expect("route slot");
    assert!(matches!(routed, ServerFrame::SlotUpdate(_)));
}

#[test]
fn frame_decode_routes_by_tag() {
    let sub = SubscriptionRequest::new(vec![new_unique()], vec![]);
    assert!(matches!(
        decode_client_frame(&sub.encode()).expect("decode client sub"),
        ClientFrame::Subscription(_)
    ));

    let ping = PingRequest::new(SlotToken::new(0, 1));
    assert!(matches!(
        decode_client_frame(&ping.encode()).expect("decode client ping"),
        ClientFrame::Ping(_)
    ));

    let ready = ConnectionReady::new(SlotToken::new(0, 1));
    assert!(matches!(
        decode_server_frame(&ready.encode()).expect("decode server ready"),
        ServerFrame::ConnectionReady(_)
    ));
}

#[test]
fn request_rejects_invalid_version_and_tag() {
    let req = SubscriptionRequest::new(vec![new_unique()], vec![]);
    let mut bytes = req.encode();

    bytes[0] = 99;
    match SubscriptionRequest::decode(&bytes) {
        Err(QlasterError::InvalidWireVersion { found, expected }) => {
            assert_eq!(found, 99);
            assert_eq!(expected, WIRE_VERSION);
        }
        other => panic!("expected InvalidWireVersion, got {other:?}"),
    }

    let mut bytes = req.encode();
    bytes[1] = 99;
    match SubscriptionRequest::decode(&bytes) {
        Err(QlasterError::InvalidMessageTag { found, expected }) => {
            assert_eq!(found, 99);
            assert_eq!(expected, REQUEST_SUBSCRIBE_TAG);
        }
        other => panic!("expected InvalidMessageTag, got {other:?}"),
    }
}

#[test]
fn update_rejects_invalid_version_and_tag() {
    let update = AccountUpdate {
        account_pubkey: new_unique(),
        account_owner: new_unique(),
        lamports: 1,
        executable: false,
        rent_epoch: 0,
        slot: 1,
        write_version: 1,
        payload: AccountPayload::from_slice(&[1, 2, 3]).expect("payload"),
    };
    let mut bytes = update.encode().expect("encode update");
    bytes[0] = 77;
    match AccountUpdate::decode(&bytes) {
        Err(QlasterError::InvalidWireVersion { found, expected }) => {
            assert_eq!(found, 77);
            assert_eq!(expected, WIRE_VERSION);
        }
        other => panic!("expected InvalidWireVersion, got {other:?}"),
    }

    let mut bytes = update.encode().expect("encode update");
    bytes[1] = 77;
    match AccountUpdate::decode(&bytes) {
        Err(QlasterError::InvalidMessageTag { found, expected }) => {
            assert_eq!(found, 77);
            assert_eq!(expected, UPDATE_TAG);
        }
        other => panic!("expected InvalidMessageTag, got {other:?}"),
    }
}

#[test]
fn decode_rejects_truncated_and_garbage_payloads() {
    let req = SubscriptionRequest::new(vec![new_unique()], vec![]);
    let mut bytes = req.encode();
    bytes.truncate(bytes.len() / 2);
    assert!(SubscriptionRequest::decode(&bytes).is_err());
    assert!(SubscriptionRequest::decode(&[1, 2, 3, 4, 5]).is_err());

    let update = AccountUpdate {
        account_pubkey: new_unique(),
        account_owner: new_unique(),
        lamports: 1,
        executable: false,
        rent_epoch: 0,
        slot: 1,
        write_version: 2,
        payload: AccountPayload::from_slice(&[9, 8, 7]).expect("payload"),
    };
    let mut bytes = update.encode().expect("encode update");
    bytes.truncate(bytes.len() / 2);
    assert!(AccountUpdate::decode(&bytes).is_err());
    assert!(AccountUpdate::decode(&[9, 9, 9]).is_err());
}

#[test]
fn account_payload_rejects_oversized_data() {
    let too_large = vec![7u8; MAX_ACCOUNT_PAYLOAD_BYTES + 1];
    match AccountPayload::from_bytes(Bytes::from(too_large)) {
        Err(QlasterError::PayloadTooLarge { found, max }) => {
            assert_eq!(found, MAX_ACCOUNT_PAYLOAD_BYTES + 1);
            assert_eq!(max, MAX_ACCOUNT_PAYLOAD_BYTES);
        }
        other => panic!("expected PayloadTooLarge, got {other:?}"),
    }
}

#[test]
fn compression_probe_accepts_low_entropy_payload() {
    let payload = vec![0u8; ACCOUNT_UPDATE_COMPRESSION_THRESHOLD_BYTES];
    assert!(should_attempt_lz4(&payload));
}

#[test]
fn compression_probe_rejects_high_entropy_payload() {
    let payload = high_entropy(ACCOUNT_UPDATE_COMPRESSION_THRESHOLD_BYTES);
    assert!(!should_attempt_lz4(&payload));
}

#[test]
fn compression_probe_skips_below_threshold() {
    let payload = vec![0u8; ACCOUNT_UPDATE_COMPRESSION_THRESHOLD_BYTES - 1];
    assert!(!should_attempt_lz4(&payload));
}

#[test]
fn gain_is_measured_in_hundredths_of_a_percent() {
    assert!(lz4_gain_suffices(8192, 8192 - 62));
    assert!(!lz4_gain_suffices(8192, 8192 - 61));
    assert!(!lz4_gain_suffices(8192, 8192));
    assert!(!lz4_gain_suffices(8192, 9000));
    assert!(!lz4_gain_suffices(0, 0));
    assert!(lz4_gain_suffices(10_000 / 2, 4000));
}

#[test]
fn large_compressible_payload_goes_out_as_a_shorter_block() {
    let payload = vec![5u8; 600 * 1024];
    let update = AccountUpdate::new(
        Pubkey::new_from_array([1; 32]),
        Pubkey::new_from_array([2; 32]),
        3,
        false,
        4,
        Bytes::from(payload.clone()),
    )
    .expect("update");
    let (header, wire) = update.encode_parts_at(17).expect("encode");
    assert_eq!(header.len(), 116);
    assert_eq!(header[107], 1);
    assert!(wire.len() < payload.len());
    assert_ne!(&wire[..], &payload[..]);
    assert_eq!(&header[108..112], &(600u32 * 1024).to_le_bytes());
    assert_eq!(&header[112..116], &(wire.len() as u32).to_le_bytes());

    let mut frame = header.to_vec();
    frame.extend_from_slice(&wire);
    let (decoded, meta) = AccountUpdate::decode_with_meta(&frame).expect("decode");
    assert_eq!(decoded, update);
    assert_eq!(meta, AccountUpdateWireMeta { sender_created_at_unix_nanos: 17 });
    let (owned, _) = AccountUpdate::decode_owned_with_meta(frame.clone()).expect("decode owned");
    assert_eq!(owned.payload.as_slice(), &payload[..]);

    // A block that decompresses to another size than announced is refused.
    let mut lying = frame.clone();
    lying[108..112].copy_from_slice(&(600u32 * 1024 + 1).to_le_bytes());
    match AccountUpdate::decode(&lying) {
        Err(QlasterError::MalformedPayload(words)) => {
            assert_eq!(words, "account update decompressed payload size mismatch")
        }
        other => panic!("expected MalformedPayload, got {other:?}"),
    }

    // A block that does not fit the announced size is a decoder's error.
    let mut short = frame;
    short[108..112].copy_from_slice(&10u32.to_le_bytes());
    match AccountUpdate::decode_owned(short) {
        Err(QlasterError::DecodeError(words)) => {
            assert!(words.starts_with("account update decompress: "));
            assert!(words.len() > "account update decompress: ".len());
        }
        other => panic!("expected DecodeError, got {other:?}"),
    }
}

#[test]
fn large_incompressible_payload_goes_out_plain() {
    let payload = high_entropy(ACCOUNT_UPDATE_COMPRESSION_THRESHOLD_BYTES);
    let update = AccountUpdate::new(
        Pubkey::new_from_array([1; 32]),
        Pubkey::new_from_array([2; 32]),
        3,
        true,
        4,
        Bytes::from(payload.clone()),
    )
    .expect("update");
    let (header, wire) = update.encode_parts_at(0).expect("encode");
    assert_eq!(header[107], 0);
    assert_eq!(&wire[..], &payload[..]);
}

#[test]
fn account_header_bytes_are_exact() {
    let update = AccountUpdate::new(
        Pubkey::new_from_array([0xAA; 32]),
        Pubkey::new_from_array([0xBB; 32]),
        0x0102,
        true,
        3,
        Bytes::copy_from_slice(b"xyz"),
    )
    .expect("update")
    .with_slot_write_version(4, 5);
    let (header, payload) = update.encode_parts_at(6).expect("encode");
    let mut expected = vec![9u8, 2];
    expected.extend_from_slice(&[6, 0, 0, 0, 0, 0, 0, 0]);
    expected.extend_from_slice(&[0xAA; 32]);
    expected.extend_from_slice(&[0xBB; 32]);
    expected.extend_from_slice(&[2, 1, 0, 0, 0, 0, 0, 0]);
    expected.push(1);
    expected.extend_from_slice(&[3, 0, 0, 0, 0, 0, 0, 0]);
    expected.extend_from_slice(&[4, 0, 0, 0, 0, 0, 0, 0]);
    expected.extend_from_slice(&[5, 0, 0, 0, 0, 0, 0, 0]);
    expected.push(0);
    expected.extend_from_slice(&[3, 0, 0, 0]);
    expected.extend_from_slice(&[3, 0, 0, 0]);
    assert_eq!(&header[..], &expected[..]);
    assert_eq!(&payload[..], b"xyz");
}

fn sample_account_frame() -> Vec<u8> {
    let update = AccountUpdate::new(
        Pubkey::new_from_array([1; 32]),
        Pubkey::new_from_array([2; 32]),
        3,
        false,
        4,
        Bytes::copy_from_slice(b"data"),
    )
    .expect("update");
    let (header, payload) = update.encode_parts_at(9).expect("encode");
    let mut frame = header.to_vec();
    frame.extend_from_slice(&payload);
    frame
}

fn malformed(result: Result<AccountUpdate, QlasterError>) -> &'static str {
    match result {
        Err(QlasterError::MalformedPayload(words)) => words,
        other => panic!("expected MalformedPayload, got {other:?}"),
    }
}

#[test]
fn account_frame_faults_are_told_apart() {
    let good = sample_account_frame();
    assert_eq!(good.len(), 120);
    assert!(AccountUpdate::decode(&good).is_ok());

    assert_eq!(
        malformed(AccountUpdate::decode(&good[..115])),
        "account update frame shorter than fixed header"
    );
    let mut bad = good.clone();
    bad[82] = 2;
    assert_eq!(
        malformed(AccountUpdate::decode(&bad)),
        "account update executable flag must be 0 or 1"
    );
    let mut bad = good.clone();
    bad[107] = 2;
    assert_eq!(
        malformed(AccountUpdate::decode(&bad)),
        "account update has unsupported compression flags"
    );
    let mut bad = good.clone();
    bad[108..112].copy_from_slice(&(MAX_ACCOUNT_PAYLOAD_BYTES as u32 + 1).to_le_bytes());
    match AccountUpdate::decode(&bad) {
        Err(QlasterError::PayloadTooLarge { found, max }) => {
            assert_eq!(found, MAX_ACCOUNT_PAYLOAD_BYTES + 1);
            assert_eq!(max, MAX_ACCOUNT_PAYLOAD_BYTES);
        }
        other => panic!("expected PayloadTooLarge, got {other:?}"),
    }
    let mut bad = good.clone();
    bad.push(0);
    assert_eq!(
        malformed(AccountUpdate::decode(&bad)),
        "account update payload size mismatch"
    );
    let mut bad = good.clone();
    bad[108] = 5;
    assert_eq!(
        malformed(AccountUpdate::decode(&bad)),
        "account update uncompressed payload size mismatch"
    );
    assert_eq!(
        malformed(AccountUpdate::decode_owned(bad)),
        "account update uncompressed payload size mismatch"
    );
    // The first fault is the one that is reported.
    let mut bad = good;
    bad[82] = 7;
    bad[107] = 7;
    assert_eq!(
        malformed(AccountUpdate::decode_owned(bad)),
        "account update executable flag must be 0 or 1"
    );
}

#[test]
fn fixed_part_of_an_account_frame_is_taken_apart() {
    let decoded = DecodedAccountUpdate::parse(&sample_account_frame()).expect("parse");
    assert_eq!(decoded.sender_created_at_unix_nanos, 9);
    assert_eq!(decoded.account_pubkey, [1; 32]);
    assert_eq!(decoded.account_owner, [2; 32]);
    assert_eq!(decoded.lamports, 3);
    assert!(!decoded.executable);
    assert_eq!(decoded.rent_epoch, 4);
    assert!(!decoded.compressed);
    assert_eq!(decoded.raw_payload_len, 4);
    assert_eq!(decoded.payload_offset, 116);
    assert_eq!(decoded.wire_payload_len, 4);
    assert!(decoded.check_plain().is_ok());

    let mut compressed = decoded;
    compressed.compressed = true;
    let payload = compressed
        .accept_decompressed(Ok(b"four".to_vec()))
        .expect("payload of the announced size");
    assert_eq!(&payload[..], b"four");
    assert!(matches!(
        compressed.accept_decompressed(Ok(b"five!".to_vec())),
        Err(QlasterError::MalformedPayload(
            "account update decompressed payload size mismatch"
        ))
    ));
    match compressed.accept_decompressed(Err("no luck".into())) {
        Err(QlasterError::DecodeError(words)) => {
            assert_eq!(words, "account update decompress: no luck")
        }
        other => panic!("expected DecodeError, got {other:?}"),
    }
}

#[test]
fn given_block_goes_out_only_if_it_is_shorter() {
    let update = AccountUpdate::new(
        Pubkey::new_from_array([1; 32]),
        Pubkey::new_from_array([2; 32]),
        3,
        false,
        4,
        Bytes::copy_from_slice(b"data"),
    )
    .expect("update");
    let (header, wire) = update.encode_parts_with(1, Some(b"abc".to_vec()));
    assert_eq!(header[107], 1);
    assert_eq!(&wire[..], b"abc");
    let (header, wire) = update.encode_parts_with(1, Some(b"abcd".to_vec()));
    assert_eq!(header[107], 0);
    assert_eq!(&wire[..], b"data");
    let (header, wire) = update.encode_parts_with(1, None);
    assert_eq!(header[107], 0);
    assert_eq!(&wire[..], b"data");
}

#[test]
fn transaction_header_bytes_and_faults_are_exact() {
    let update = TransactionUpdate::new(
        0x0A0B,
        7,
        [3; 64],
        false,
        Bytes::copy_from_slice(b"tx"),
    )
    .expect("update");
    let (header, payload) = update.encode_parts_at(1).expect("encode");
    let mut expected = vec![9u8, 6, 1, 0, 0, 0, 0, 0, 0, 0];
    expected.extend_from_slice(&[0x0B, 0x0A, 0, 0, 0, 0, 0, 0]);
    expected.extend_from_slice(&[7, 0, 0, 0, 0]);
    expected.extend_from_slice(&[3; 64]);
    expected.extend_from_slice(&[2, 0, 0, 0]);
    assert_eq!(&header[..], &expected[..]);
    let mut good = header.to_vec();
    good.extend_from_slice(&payload);
    assert_eq!(good.len(), 93);
    assert_eq!(
        TransactionUpdate::decode_owned(good.clone()).expect("decode"),
        update
    );

    let fault = |bytes: &[u8]| match TransactionUpdate::decode(bytes) {
        Err(QlasterError::MalformedPayload(words)) => words,
        other => panic!("expected MalformedPayload, got {other:?}"),
    };
    assert_eq!(
        fault(&good[..90]),
        "transaction update frame shorter than fixed header"
    );
    let mut bad = good.clone();
    bad[22] = 2;
    assert_eq!(fault(&bad), "transaction update vote flag must be 0 or 1");
    let mut bad = good.clone();
    bad.pop();
    assert_eq!(fault(&bad), "transaction update payload size mismatch");
    let mut bad = good;
    bad[87..91].copy_from_slice(&(MAX_TRANSACTION_PAYLOAD_BYTES as u32 + 1).to_le_bytes());
    assert!(matches!(
        TransactionUpdate::decode(&bad),
        Err(QlasterError::PayloadTooLarge { found, max })
            if found == MAX_TRANSACTION_PAYLOAD_BYTES + 1 && max == MAX_TRANSACTION_PAYLOAD_BYTES
    ));
    assert!(TransactionPayload::from_slice(&vec![0u8; MAX_TRANSACTION_PAYLOAD_BYTES + 1]).is_err());
}

#[test]
fn slot_frame_bytes_and_faults_are_exact() {
    let (header, _) = SlotUpdate::new(0x0102_0304).encode_parts_at(5).expect("encode");
    assert_eq!(
        &header[..],
        &[9u8, 7, 5, 0, 0, 0, 0, 0, 0, 0, 4, 3, 2, 1, 0, 0, 0, 0]
    );
    let whole = SlotUpdate::new(8).encode().expect("encode");
    assert_eq!(SlotUpdate::decode(&whole).expect("decode").slot, 8);
    assert!(matches!(
        SlotUpdate::decode(&whole[..17]),
        Err(QlasterError::MalformedPayload("slot update frame shorter than fixed header"))
    ));
    let mut long = whole;
    long.push(1);
    assert!(matches!(
        SlotUpdate::decode(&long),
        Err(QlasterError::MalformedPayload("slot update payload size mismatch"))
    ));
}

#[test]
fn token_frame_bytes_and_faults_are_exact() {
    let bytes = PingRequest::new(SlotToken::new(1, 0x0203)).encode();
    assert_eq!(bytes, vec![9, 4, 1, 3, 2, 0, 0, 0, 0, 0, 0]);
    let bytes = ConnectionReady::new(SlotToken::new(4, 5)).encode();
    assert_eq!(bytes, vec![9, 3, 4, 5, 0, 0, 0, 0, 0, 0, 0]);

    match PingRequest::decode(&bytes[..10]) {
        Err(QlasterError::DecodeError(words)) => {
            assert!(words.starts_with("ping request: "));
            assert!(words.len() > "ping request: ".len());
        }
        other => panic!("expected DecodeError, got {other:?}"),
    }
    assert!(matches!(
        PingRequest::decode(&bytes),
        Err(QlasterError::InvalidMessageTag { found: 3, expected: 4 })
    ));
    let unset = PingRequest::new(SlotToken::new(255, 1)).encode();
    assert!(matches!(
        PingRequest::decode(&unset),
        Err(QlasterError::MalformedPayload("ping request missing slot token"))
    ));
    let unset = ConnectionReady::new(SlotToken::new(255, 1)).encode();
    assert!(matches!(
        ConnectionReady::decode(&unset),
        Err(QlasterError::MalformedPayload("connection ready missing slot token"))
    ));
    // Bytes behind the fields are left alone.
    let mut longer = PingRequest::new(SlotToken::new(1, 2)).encode();
    longer.extend_from_slice(&[1, 2, 3]);
    assert_eq!(
        PingRequest::decode(&longer).expect("decode").slot_token,
        SlotToken::new(1, 2)
    );
    assert_eq!(
        PingRequest::from_fields((9, 4, 7, 8)).expect("fields").slot_token,
        SlotToken::new(7, 8)
    );
    assert!(ConnectionReady::from_fields((8, 3, 7, 8)).is_err());
}

#[test]
fn shm_ready_frame_bytes_and_faults_are_exact() {
    let ready = ConnectionReadyShm::new(SlotToken::new(1, 2), "a\u{e9}".into(), 64);
    let bytes = ready.encode();
    let mut expected = vec![9u8, 5, 1, 2, 0, 0, 0, 0, 0, 0, 0];
    expected.extend_from_slice(&[3, 0, 0, 0, 0, 0, 0, 0]);
    expected.extend_from_slice(&[b'a', 0xC3, 0xA9]);
    expected.extend_from_slice(&[64, 0, 0, 0, 0, 0, 0, 0]);
    assert_eq!(bytes, expected);

    let mut not_text = bytes.clone();
    not_text[20] = 0xFF;
    match ConnectionReadyShm::decode(&not_text) {
        Err(QlasterError::DecodeError(words)) => {
            assert!(words.starts_with("connection ready shm: "))
        }
        other => panic!("expected DecodeError, got {other:?}"),
    }
    let mut too_long = bytes.clone();
    too_long[11..19].copy_from_slice(&(4u64 * 1024 * 1024 + 1).to_le_bytes());
    assert!(matches!(
        ConnectionReadyShm::decode(&too_long),
        Err(QlasterError::DecodeError(_))
    ));
    assert!(matches!(
        ConnectionReadyShm::decode(&bytes[..bytes.len() - 1]),
        Err(QlasterError::DecodeError(_))
    ));
    let unset = ConnectionReadyShm::new(SlotToken::new(255, 2), "p".into(), 64).encode();
    assert!(matches!(
        ConnectionReadyShm::decode(&unset),
        Err(QlasterError::MalformedPayload("connection ready shm missing slot token"))
    ));
    assert!(matches!(
        ConnectionReadyShm::from_fields((9, 5, 1, 2, String::new(), 64)),
        Err(QlasterError::MalformedPayload("connection ready shm missing ring path"))
    ));
    assert!(matches!(
        ConnectionReadyShm::from_fields((9, 5, 1, 2, "p".into(), 0)),
        Err(QlasterError::MalformedPayload("connection ready shm has zero ring capacity"))
    ));
}

#[test]
fn subscription_frame_bytes_and_faults_are_exact() {
    let key = Pubkey::new_from_array([7; 32]);
    let bytes = SubscriptionRequest::new(vec![key], vec![]).encode();
    let mut expected = vec![9u8, 1, 255, 0, 0, 0, 0, 0, 0, 0, 0];
    expected.extend_from_slice(&[1, 0, 0, 0, 0, 0, 0, 0]);
    expected.extend_from_slice(&[7; 32]);
    expected.extend_from_slice(&[0; 8]);
    expected.push(0);
    assert_eq!(bytes, expected);

    let transactions = SubscriptionRequest::transactions();
    assert_eq!(
        SubscriptionRequest::decode(&transactions.encode()).expect("decode"),
        transactions
    );
    let mut bad = transactions.encode();
    *bad.last_mut().expect("last byte") = 2;
    match SubscriptionRequest::decode(&bad) {
        Err(QlasterError::DecodeError(words)) => {
            assert!(words.starts_with("subscription request: "))
        }
        other => panic!("expected DecodeError, got {other:?}"),
    }
    let mut too_many = bytes;
    too_many[11..19].copy_from_slice(&(128u64 * 1024 + 1).to_le_bytes());
    too_many.resize(64 + 32 * (128 * 1024 + 1), 0);
    assert!(matches!(
        SubscriptionRequest::decode(&too_many),
        Err(QlasterError::DecodeError(_))
    ));

    // The index that stands for no slot is read as no token.
    let unset = SubscriptionRequest::transactions().with_slot_token(Some(SlotToken::new(255, 3)));
    assert_eq!(
        SubscriptionRequest::decode(&unset.encode()).expect("decode").slot_token,
        None
    );
    let most = SubscriptionRequest::new(vec![key; 128 * 1024], vec![key]);
    assert_eq!(
        SubscriptionRequest::decode(&most.encode()).expect("decode"),
        most
    );
}

#[test]
fn unknown_tags_short_frames_and_wrong_directions_are_refused() {
    assert!(matches!(
        decode_server_frame(&[9]),
        Err(QlasterError::MalformedPayload("frame too short for wire tag"))
    ));
    assert!(matches!(
        decode_client_frame(&[]),
        Err(QlasterError::MalformedPayload("frame too short for wire tag"))
    ));
    assert!(matches!(
        decode_server_frame(&[9, 8]),
        Err(QlasterError::InvalidMessageTag { found: 8, expected: 2 })
    ));
    assert!(matches!(
        decode_client_frame(&[9, 2]),
        Err(QlasterError::InvalidMessageTag { found: 2, expected: 1 })
    ));
    let ping = PingRequest::new(SlotToken::new(0, 1)).encode();
    assert!(decode_server_frame(&ping).is_err());
    let ready = ConnectionReady::new(SlotToken::new(0, 1)).encode();
    assert!(decode_client_frame(&ready).is_err());
    let mut other_version = ready;
    other_version[0] = 8;
    assert!(matches!(
        decode_server_frame_owned(other_version),
        Err(QlasterError::InvalidWireVersion { found: 8, expected: 9 })
    ));
}

#[test]
fn owned_decoding_gives_the_same_with_metadata() {
    let frame = sample_account_frame();
    match decode_server_frame_owned_with_meta(frame.clone()).expect("decode") {
        ServerFrameWithMeta::AccountUpdate { update, meta } => {
            assert_eq!(meta.sender_created_at_unix_nanos, 9);
            assert_eq!(update, AccountUpdate::decode(&frame).expect("decode"));
        }
        other => panic!("expected an account update, got {other:?}"),
    }
    let ready = ConnectionReady::new(SlotToken::new(2, 3)).encode();
    assert!(matches!(
        decode_server_frame_owned_with_meta(ready).expect("decode"),
        ServerFrameWithMeta::ConnectionReady(_)
    ));
    let shm = ConnectionReadyShm::new(SlotToken::new(2, 3), "p".into(), 1).encode();
    assert!(matches!(
        decode_server_frame_owned(shm).expect("decode"),
        ServerFrame::ConnectionReadyShm(_)
    ));
}

#[test]
fn payloads_give_their_bytes_in_every_form() {
    let payload = AccountPayload::try_from(Bytes::copy_from_slice(b"abc")).expect("payload");
    assert_eq!(payload.as_slice(), b"abc");
    assert_eq!(payload.as_ref(), b"abc");
    assert_eq!(payload.len(), 3);
    assert!(!payload.is_empty());
    assert_eq!(&payload.clone_bytes()[..], b"abc");
    assert_eq!(payload.clone(), payload);
    assert_eq!(&payload.into_bytes()[..], b"abc");
    let payload = TransactionPayload::try_from(Bytes::new()).expect("payload");
    assert!(payload.is_empty());
    assert_eq!(payload.len(), 0);
    assert_eq!(payload.as_ref(), b"");
}
