use aes_gcm::aead::{Aead, KeyInit};
use aes_gcm::{Aes256Gcm, Nonce};
use sha2::{Digest, Sha256};
use x25519_dalek::PublicKey;

use etuf::protocol::packets::PublicKeyExchange;
use etuf::protocol::{CryptoSession, KeyExchange, ProtocolError};

fn keyed(secret: &[u8]) -> CryptoSession {
  let mut session = CryptoSession::new();
  session.setup(secret);
  session
}

#[test]
fn new_session_is_not_initialized() {
  let mut session = CryptoSession::new();
  assert!(!session.is_initialized());
  assert_eq!(session.nonce_counter(), 0);
  assert_eq!(session.encrypt(b"x"), Err(ProtocolError::SessionNotInitialized));
  assert_eq!(session.nonce_counter(), 0);
  assert_eq!(session.decrypt(&[0u8; 40]), Err(ProtocolError::SessionNotInitialized));
}

#[test]
fn encrypt_then_decrypt_with_the_same_secret() {
  let mut sender = keyed(b"shared secret");
  let receiver = keyed(b"shared secret");
  assert!(sender.is_initialized());
  let message = sender.encrypt(b"hello").unwrap();
  assert_eq!(message.len(), 12 + 5 + 16);
  assert_eq!(receiver.decrypt(&message), Ok(b"hello".to_vec()));
  let second = sender.encrypt(b"").unwrap();
  assert_eq!(receiver.decrypt(&second), Ok(Vec::new()));
}

#[test]
fn nonces_count_up() {
  let mut session = keyed(b"k");
  let first = session.encrypt(b"a").unwrap();
  let second = session.encrypt(b"a").unwrap();
  assert_eq!(&first[..12], &[0u8; 12]);
  assert_eq!(&second[..12], &[0, 0, 0, 0, 0, 0, 0, 0, 0, 0, 0, 1]);
  assert_ne!(first, second);
  assert_eq!(session.nonce_counter(), 2);
}

#[test]
fn setup_restarts_the_counter() {
  let mut session = keyed(b"k");
  session.encrypt(b"a").unwrap();
  session.setup(b"other");
  assert_eq!(session.nonce_counter(), 0);
}

#[test]
fn ciphertext_is_aes_gcm_under_the_sha256_of_the_secret() {
  let mut session = keyed(b"secret bytes");
  let message = session.encrypt(b"payload").unwrap();
  let key = Sha256::digest(b"secret bytes");
  let cipher = Aes256Gcm::new_from_slice(&key).unwrap();
  let expected = cipher.encrypt(Nonce::from_slice(&[0u8; 12]), &b"payload"[..]).unwrap();
  assert_eq!(&message[12..], &expected[..]);
  assert_ne!(&message[12..19], b"payload");
}

#[test]
fn decrypt_refuses_other_keys_tampering_and_short_data() {
  let mut sender = keyed(b"one");
  let other = keyed(b"two");
  let message = sender.encrypt(b"data").unwrap();
  assert_eq!(other.decrypt(&message), Err(ProtocolError::DecryptionFailed));
  let mut tampered = message.clone();
  let last = tampered.len() - 1;
  tampered[last] ^= 1;
  let receiver = keyed(b"one");
  assert_eq!(receiver.decrypt(&tampered), Err(ProtocolError::DecryptionFailed));
  assert_eq!(receiver.decrypt(&message[..11]), Err(ProtocolError::InsufficientData));
  assert_eq!(receiver.decrypt(&message[..12]), Err(ProtocolError::DecryptionFailed));
}

#[test]
fn key_exchange_agrees_on_a_secret() {
  let alice = KeyExchange::new();
  let bob = KeyExchange::new();
  let alice_public = alice.public_key_bytes();
  let bob_public = *bob.public_key();
  assert_eq!(bob_public.to_bytes(), bob.public_key_bytes());
  let alice_secret = alice.generate_shared_secret(&bob_public);
  let bob_secret = bob.generate_shared_secret(&PublicKey::from(alice_public));
  assert_eq!(alice_secret, bob_secret);

  let mut alice_session = keyed(&alice_secret);
  let bob_session = keyed(&bob_secret);
  let message = alice_session.encrypt(b"over the wire").unwrap();
  assert_eq!(bob_session.decrypt(&message), Ok(b"over the wire".to_vec()));
}

#[test]
fn public_keys_travel_as_packets() {
  let server = KeyExchange::new();
  let client = KeyExchange::new();
  let server_packet = PublicKeyExchange { public_key: server.public_key_bytes() };
  let client_packet = PublicKeyExchange::decode(&PublicKeyExchange { public_key: client.public_key_bytes() }.encode()).unwrap();
  assert_eq!(server_packet.to_public_key(), *server.public_key());
  assert_eq!(client_packet.to_public_key(), *client.public_key());
  let client_secret = client.generate_shared_secret(&server_packet.to_public_key());
  let server_secret = server.generate_shared_secret(&client_packet.to_public_key());
  assert_eq!(client_secret, server_secret);
}

#[test]
fn a_cloned_session_decrypts_and_messages_grow_by_28() {
  let mut sender = keyed(b"secret");
  let receiver = sender.clone();
  assert_eq!(receiver.nonce_counter(), sender.nonce_counter());
  for len in [0usize, 1, 100, 8192] {
    let data = vec![0x5au8; len];
    let message = sender.encrypt(&data).unwrap();
    assert_eq!(message.len(), len + 28);
    assert_eq!(receiver.decrypt(&message), Ok(data));
  }
}
