use qlaster::error::QlasterError;
use qlaster::shm::uds::{
    frame_for_fd, judge_sent, keep_first, payload_of_received, Sent, ANCILLARY_RECV_BUF,
};
use qlaster::wire::{frame_payload, read_payload_len, MAX_FRAME_SIZE};

/// Reads the next frame of the stream, `None` where the stream ends too early.
fn next_frame(stream: &mut Vec<u8>) -> Result<Option<Vec<u8>>, QlasterError> {
    if stream.len() < 4 {
        return Ok(None);
    }
    let size = read_payload_len(&stream[..4])?;
    if stream.len() < 4 + size {
        return Ok(None);
    }
    let payload = stream[4..4 + size].to_vec();
    stream.drain(..4 + size);
    Ok(Some(payload))
}

#[test]
fn framed_roundtrip_supports_multiple_and_empty_payloads() {
    let mut stream = frame_payload(b"hello").expect("write first frame");
    stream.extend_from_slice(&frame_payload(&[]).expect("write second empty frame"));

    let first = next_frame(&mut stream).expect("read first frame").expect("first frame");
    let second = next_frame(&mut stream).expect("read second frame").expect("second frame");

    assert_eq!(first, b"hello".to_vec());
    assert!(second.is_empty());
    assert!(stream.is_empty());
}

#[test]
fn read_framed_rejects_oversized_frame_header() {
    let oversized = (MAX_FRAME_SIZE as u32) + 1;
    let mut stream = oversized.to_le_bytes().to_vec();
    match next_frame(&mut stream) {
        Err(QlasterError::FrameTooLarge(size)) => assert_eq!(size, MAX_FRAME_SIZE + 1),
        other => panic!("expected FrameTooLarge, got {other:?}"),
    }
    assert_eq!(
        read_payload_len(&(MAX_FRAME_SIZE as u32).to_le_bytes()).expect("largest frame"),
        MAX_FRAME_SIZE
    );
}

#[test]
fn read_framed_rejects_truncated_payload() {
    let mut stream = 8u32.to_le_bytes().to_vec();
    stream.extend_from_slice(&[1, 2, 3]);
    assert!(next_frame(&mut stream).expect("declared length").is_none());
}

#[test]
fn frame_prefix_bytes_are_exact() {
    assert_eq!(frame_payload(b"abc").expect("frame"), vec![3, 0, 0, 0, b'a', b'b', b'c']);
    assert_eq!(read_payload_len(&[1, 2, 0, 0]).expect("length"), 513);
}

#[test]
fn frame_sent_with_a_descriptor_is_received() {
    let sent = frame_for_fd(b"hello over uds").expect("frame");
    let mut buf = vec![0u8; ANCILLARY_RECV_BUF];
    buf[..sent.len()].copy_from_slice(&sent);
    assert_eq!(
        payload_of_received(&buf[..sent.len()]).expect("payload"),
        b"hello over uds"
    );
    // What follows the payload is ignored.
    assert_eq!(
        payload_of_received(&buf[..sent.len() + 9]).expect("payload"),
        b"hello over uds"
    );
}

#[test]
fn received_frame_faults_are_told_apart() {
    let words = |received: &[u8]| match payload_of_received(received) {
        Err(QlasterError::UdsError(words)) => words,
        other => panic!("expected UdsError, got {other:?}"),
    };
    assert_eq!(words(&[]), "peer closed UDS before sending ready frame");
    assert_eq!(words(&[1, 0, 0]), "short recvmsg (3 bytes)");
    assert_eq!(
        words(&[10, 0, 0, 0, 1]),
        "ancillary frame larger than buffer (14 > 5)"
    );
    assert_eq!(
        words(&[255, 255, 255, 255]),
        "ancillary frame larger than buffer (4294967299 > 4)"
    );
}

#[test]
fn partial_sends_are_noticed() {
    assert!(matches!(judge_sent(-1, 5), Sent::Failed));
    assert!(matches!(judge_sent(5, 5), Sent::Complete));
    match judge_sent(3, 5) {
        Sent::Partial(words) => assert_eq!(words, "partial sendmsg: 3 of 5 bytes"),
        _ => panic!("expected a partial send"),
    }
}

#[test]
fn first_descriptor_is_kept_and_others_are_closed() {
    let none = keep_first(&[]);
    assert_eq!(none.kept, None);
    assert!(none.extra.is_empty());
    let some = keep_first(&[7, 8, 9]);
    assert_eq!(some.kept, Some(7));
    assert_eq!(some.extra, vec![8, 9]);
}
