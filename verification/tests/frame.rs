use etuf::protocol::frame::{frame_encrypted_payload, frame_payload, payload_length, MAX_PAYLOAD_SIZE};
use etuf::protocol::{CryptoSession, ProtocolError};

#[test]
fn frames_carry_their_length() {
  assert_eq!(frame_payload(b"hi"), vec![0, 0, 0, 2, b'h', b'i']);
  assert_eq!(frame_payload(b""), vec![0, 0, 0, 0]);
  let big = vec![7u8; 0x0102];
  let frame = frame_payload(&big);
  assert_eq!(&frame[..4], &[0, 0, 1, 2]);
  assert_eq!(frame.len(), 4 + 0x0102);
}

#[test]
fn payload_length_reads_and_limits() {
  assert_eq!(payload_length([0, 0, 1, 2]), Ok(0x0102));
  assert_eq!(payload_length([0, 0x80, 0, 0]), Ok(MAX_PAYLOAD_SIZE));
  assert_eq!(payload_length([0, 0x80, 0, 1]), Err(ProtocolError::PayloadTooLarge));
  assert_eq!(payload_length([0xff, 0xff, 0xff, 0xff]), Err(ProtocolError::PayloadTooLarge));
}

#[test]
fn frame_header_reads_back() {
  let payload = vec![1u8; 1000];
  let frame = frame_payload(&payload);
  let header = [frame[0], frame[1], frame[2], frame[3]];
  assert_eq!(payload_length(header), Ok(1000));
  assert_eq!(&frame[4..], &payload[..]);
}

#[test]
fn encrypted_frames() {
  let mut session = CryptoSession::new();
  assert_eq!(frame_encrypted_payload(b"x", &mut session), Err(ProtocolError::SessionNotInitialized));
  session.setup(b"secret");
  let mut reader = CryptoSession::new();
  reader.setup(b"secret");
  let frame = frame_encrypted_payload(b"hello", &mut session).unwrap();
  let header = [frame[0], frame[1], frame[2], frame[3]];
  let length = payload_length(header).unwrap() as usize;
  assert_eq!(length, 12 + 5 + 16);
  assert_eq!(reader.decrypt(&frame[4..4 + length]), Ok(b"hello".to_vec()));
  assert_eq!(session.nonce_counter(), 1);
}

#[test]
fn encrypted_frame_header_counts_nonce_and_tag() {
  let mut session = CryptoSession::new();
  session.setup(b"k");
  let frame = frame_encrypted_payload(&[9u8; 300], &mut session).unwrap();
  assert_eq!(frame.len(), 300 + 32);
  assert_eq!(payload_length([frame[0], frame[1], frame[2], frame[3]]), Ok(328));
}
