//! The encrypted channel: an AES-256-GCM session keyed by the SHA-256 of an
//! x25519 shared secret, with a message counter as nonce.
use vstd::prelude::*;

use aes_gcm::aead::{Aead, KeyInit, OsRng};
use aes_gcm::{Aes256Gcm, Nonce};
use sha2::{Digest, Sha256};
use x25519_dalek::{EphemeralSecret, PublicKey};

use crate::protocol::error::ProtocolError;
use crate::protocol::wire::{append_bytes, sub_bytes, u64_be_bytes, u64_to_be_bytes, lemma_u64_be_bytes_injective};

verus! {

// ---------------------------------------------------------------------------
// Outside items
// ---------------------------------------------------------------------------

#[verifier::external_type_specification]
#[verifier::external_body]
pub struct ExEphemeralSecret(EphemeralSecret);

#[verifier::external_type_specification]
#[verifier::external_body]
pub struct ExPublicKey(PublicKey);

/// The SHA-256 digest of some bytes.
pub uninterp spec fn sha256_digest(data: Seq<u8>) -> Seq<u8>;

/// Calls `sha2::Sha256::digest`: the result is the digest of `data`.
#[verifier::external_body]
fn sha256(data: &[u8]) -> (r: [u8; 32])
    ensures
        r@ == sha256_digest(data@),
{
    Sha256::digest(data).into()
}

/// The largest plaintext AES-GCM accepts (`aes_gcm::P_MAX`).
pub open spec fn aes_gcm_plaintext_max() -> int {
    0x10_0000_0000
}

/// The AES-256-GCM ciphertext (with its 16-byte tag appended) of a
/// plaintext under a key and a nonce, without associated data.
pub uninterp spec fn aes256gcm_seal(key: Seq<u8>, nonce: Seq<u8>, plaintext: Seq<u8>) -> Seq<u8>;

/// What AES-256-GCM decryption gives for a ciphertext (tag appended) under a
/// key and a nonce, without associated data: `None` where the tag does not
/// authenticate it.
pub uninterp spec fn aes256gcm_open(key: Seq<u8>, nonce: Seq<u8>, ciphertext: Seq<u8>) -> Option<Seq<u8>>;

/// Calls `Aead::encrypt` of `aes_gcm::Aes256Gcm` (built by `new_from_slice`
/// from the key). Per the crate's source it refuses exactly the plaintexts
/// longer than `P_MAX`, and appends a 16-byte tag; the ciphertext itself goes
/// by the name `aes256gcm_seal`.
#[verifier::external_body]
fn aes256gcm_encrypt(key: &[u8], nonce: &[u8], plaintext: &[u8]) -> (r: Option<Vec<u8>>)
    requires
        key@.len() == 32,
        nonce@.len() == 12,
    ensures
        r is Some <==> plaintext@.len() <= aes_gcm_plaintext_max(),
        r matches Some(c) ==> c@ == aes256gcm_seal(key@, nonce@, plaintext@),
        r matches Some(c) ==> c@.len() == plaintext@.len() + 16,
{
    match Aes256Gcm::new_from_slice(key) {
        Ok(cipher) => cipher.encrypt(Nonce::from_slice(nonce), plaintext).ok(),
        Err(_) => None,
    }
}

/// Calls `Aead::decrypt` of `aes_gcm::Aes256Gcm` (built by `new_from_slice`
/// from the key). The result goes by the name `aes256gcm_open`; as for any
/// AEAD, a ciphertext that encryption produced under the same key and nonce
/// decrypts to its plaintext.
#[verifier::external_body]
fn aes256gcm_decrypt(key: &[u8], nonce: &[u8], ciphertext: &[u8]) -> (r: Option<Vec<u8>>)
    requires
        key@.len() == 32,
        nonce@.len() == 12,
    ensures
        r matches Some(p) ==> aes256gcm_open(key@, nonce@, ciphertext@) == Some(p@),
        r is None ==> aes256gcm_open(key@, nonce@, ciphertext@) is None,
        forall|p: Seq<u8>|
            p.len() <= aes_gcm_plaintext_max() && #[trigger] aes256gcm_seal(key@, nonce@, p) == ciphertext@
                ==> r is Some && r.unwrap()@ == p,
{
    match Aes256Gcm::new_from_slice(key) {
        Ok(cipher) => cipher.decrypt(Nonce::from_slice(nonce), ciphertext).ok(),
        Err(_) => None,
    }
}

/// Calls `EphemeralSecret::random_from_rng` with the operating system's
/// random source. The secret is random, so nothing is promised of it.
#[verifier::external_body]
fn fresh_ephemeral_secret() -> EphemeralSecret {
    EphemeralSecret::random_from_rng(OsRng)
}

/// The x25519 public key of a secret: the clamped secret times the base point.
pub uninterp spec fn x25519_public(secret: EphemeralSecret) -> PublicKey;

/// The 32 bytes that stand for a public key.
pub uninterp spec fn public_key_bytes_of(key: PublicKey) -> Seq<u8>;

/// The x25519 shared secret of a secret and another side's public key: the
/// clamped secret times that key, as bytes.
pub uninterp spec fn x25519_shared(secret: EphemeralSecret, their_public: PublicKey) -> Seq<u8>;

/// Calls `PublicKey::from(&EphemeralSecret)`: the public key of the secret.
#[verifier::external_body]
fn public_key_of(secret: &EphemeralSecret) -> (r: PublicKey)
    ensures
        r == x25519_public(*secret),
{
    PublicKey::from(secret)
}

/// Calls `PublicKey::to_bytes`: the key's bytes.
#[verifier::external_body]
fn public_key_to_bytes(key: &PublicKey) -> (r: [u8; 32])
    ensures
        r@ == public_key_bytes_of(*key),
{
    key.to_bytes()
}

/// Calls `PublicKey::from([u8; 32])`, which wraps the bytes as they are
/// (`PublicKey(MontgomeryPoint(bytes))`): the key whose bytes they are, and
/// the only such key.
#[verifier::external_body]
pub(crate) fn public_key_from_bytes(bytes: [u8; 32]) -> (r: PublicKey)
    ensures
        public_key_bytes_of(r) == bytes@,
        forall|k: PublicKey| #[trigger] public_key_bytes_of(k) == bytes@ ==> r == k,
{
    PublicKey::from(bytes)
}

/// Calls `EphemeralSecret::diffie_hellman` and `SharedSecret::to_bytes`: the
/// shared secret with the other side's key. As the crate documents, a side
/// whose public key is `their_public` computes the same secret from this
/// side's public key.
#[verifier::external_body]
fn diffie_hellman_bytes(secret: EphemeralSecret, their_public: &PublicKey) -> (r: [u8; 32])
    ensures
        r@ == x25519_shared(secret, *their_public),
        forall|peer_secret: EphemeralSecret|
            *their_public == #[trigger] x25519_public(peer_secret)
                ==> r@ == x25519_shared(peer_secret, x25519_public(secret)),
{
    secret.diffie_hellman(their_public).to_bytes()
}

// ---------------------------------------------------------------------------
// The session
// ---------------------------------------------------------------------------

/// The nonce of the message with a given counter: four zero bytes, then the
/// counter, most significant byte first.
pub open spec fn nonce_for(counter: u64) -> Seq<u8> {
    seq![0u8, 0u8, 0u8, 0u8] + u64_be_bytes(counter)
}

/// What `encrypt` produces under a key for the message with a given counter:
/// the nonce followed by the ciphertext, or the cipher's refusal.
pub open spec fn spec_encrypt(key: Seq<u8>, counter: u64, data: Seq<u8>) -> Result<Seq<u8>, ProtocolError> {
    if data.len() <= aes_gcm_plaintext_max() {
        Ok(nonce_for(counter) + aes256gcm_seal(key, nonce_for(counter), data))
    } else {
        Err(ProtocolError::EncryptionFailed)
    }
}

/// What `decrypt` makes of a message under a key: the first 12 bytes are the
/// nonce, the rest the ciphertext.
pub open spec fn spec_decrypt(key: Seq<u8>, data: Seq<u8>) -> Result<Seq<u8>, ProtocolError> {
    if data.len() < 12 {
        Err(ProtocolError::InsufficientData)
    } else {
        match aes256gcm_open(key, data.subrange(0, 12), data.subrange(12, data.len() as int)) {
            Some(p) => Ok(p),
            None => Err(ProtocolError::DecryptionFailed),
        }
    }
}

/// The state of a session: its key, once a shared secret was set up, and
/// the counter of the next message it encrypts.
pub struct CryptoSessionView {
    pub key: Option<Seq<u8>>,
    pub nonce_counter: u64,
}

/// One direction-agnostic encrypted channel.
pub struct CryptoSession {
    key: Option<[u8; 32]>,
    nonce_counter: u64,
}

impl View for CryptoSession {
    type V = CryptoSessionView;

    closed spec fn view(&self) -> CryptoSessionView {
        CryptoSessionView {
            key: match self.key {
                Some(k) => Some(k@),
                None => None,
            },
            nonce_counter: self.nonce_counter,
        }
    }
}

impl Clone for CryptoSession {
    /// A session with the same key and counter.
    fn clone(&self) -> (r: CryptoSession)
        ensures
            r@ == self@,
    {
        CryptoSession { key: self.key, nonce_counter: self.nonce_counter }
    }
}

impl CryptoSession {
    pub fn new() -> (r: CryptoSession)
        ensures
            r@.key is None,
            r@.nonce_counter == 0,
    {
        CryptoSession { key: None, nonce_counter: 0 }
    }

    /// Keys the session with the SHA-256 of the shared secret and restarts
    /// the message counter.
    pub fn setup(&mut self, shared_secret: &[u8])
        ensures
            final(self)@.key == Some(sha256_digest(shared_secret@)),
            final(self)@.nonce_counter == 0,
    {
        let key = sha256(shared_secret);
        self.key = Some(key);
        self.nonce_counter = 0;
    }

    pub fn is_initialized(&self) -> (r: bool)
        ensures
            r == self@.key is Some,
    {
        self.key.is_some()
    }

    /// The counter of the next message this session encrypts.
    pub fn nonce_counter(&self) -> (r: u64)
        ensures
            r == self@.nonce_counter,
    {
        self.nonce_counter
    }

    /// Encrypts one message under the next nonce. Every attempt on a keyed
    /// session uses up a nonce, also one the cipher refuses.
    pub fn encrypt(&mut self, data: &[u8]) -> (r: Result<Vec<u8>, ProtocolError>)
        requires
            old(self)@.key is Some ==> old(self)@.nonce_counter < u64::MAX,
        ensures
            match old(self)@.key {
                None => {
                    &&& r == Err::<Vec<u8>, ProtocolError>(ProtocolError::SessionNotInitialized)
                    &&& final(self)@ == old(self)@
                },
                Some(k) => {
                    &&& final(self)@.key == old(self)@.key
                    &&& final(self)@.nonce_counter == old(self)@.nonce_counter + 1
                    &&& match r {
                        Ok(c) => spec_encrypt(k, old(self)@.nonce_counter, data@) == Ok::<Seq<u8>, ProtocolError>(c@),
                        Err(e) => spec_encrypt(k, old(self)@.nonce_counter, data@) == Err::<Seq<u8>, ProtocolError>(e),
                    }
                },
            },
            r is Ok ==> r.unwrap()@.len() == data@.len() + 28,
            old(self)@.key is Some && data@.len() <= 0x10_0000_0000 ==> {
                &&& r is Ok
                &&& r.unwrap()@ == nonce_for(old(self)@.nonce_counter) + aes256gcm_seal(
                    old(self)@.key.unwrap(),
                    nonce_for(old(self)@.nonce_counter),
                    data@,
                )
            },
    {
        let counter = self.nonce_counter;
        let mut nonce: Vec<u8> = Vec::new();
        nonce.push(0);
        nonce.push(0);
        nonce.push(0);
        nonce.push(0);
        append_bytes(&mut nonce, u64_to_be_bytes(counter).as_slice());
        assert(nonce@ == nonce_for(counter));
        let encrypted = match &self.key {
            None => return Err(ProtocolError::SessionNotInitialized),
            Some(key) => aes256gcm_encrypt(key.as_slice(), nonce.as_slice(), data),
        };
        self.nonce_counter = counter + 1;
        match encrypted {
            Some(ciphertext) => {
                let mut message = nonce;
                append_bytes(&mut message, ciphertext.as_slice());
                Ok(message)
            },
            None => Err(ProtocolError::EncryptionFailed),
        }
    }

    /// Decrypts one message. A message that a session with the same key
    /// encrypted decrypts to the data it was made of.
    pub fn decrypt(&self, data: &[u8]) -> (r: Result<Vec<u8>, ProtocolError>)
        ensures
            match self@.key {
                None => r == Err::<Vec<u8>, ProtocolError>(ProtocolError::SessionNotInitialized),
                Some(k) => match r {
                    Ok(p) => spec_decrypt(k, data@) == Ok::<Seq<u8>, ProtocolError>(p@),
                    Err(e) => spec_decrypt(k, data@) == Err::<Seq<u8>, ProtocolError>(e),
                },
            },
            forall|counter: u64, p: Seq<u8>|
                #![trigger aes256gcm_seal(self@.key.unwrap(), nonce_for(counter), p)]
                self@.key is Some && p.len() <= 0x10_0000_0000 && data@ == nonce_for(counter) + aes256gcm_seal(
                    self@.key.unwrap(),
                    nonce_for(counter),
                    p,
                ) ==> r is Ok && r.unwrap()@ == p,
            forall|counter: u64, p: Seq<u8>|
                self@.key is Some && #[trigger] spec_encrypt(self@.key.unwrap(), counter, p)
                    == Ok::<Seq<u8>, ProtocolError>(data@) ==> r is Ok && r.unwrap()@ == p,
    {
        let key = match &self.key {
            None => return Err(ProtocolError::SessionNotInitialized),
            Some(key) => key,
        };
        if data.len() < 12 {
            proof {
                assert forall|counter: u64, p: Seq<u8>|
                    #![trigger aes256gcm_seal(key@, nonce_for(counter), p)]
                    data@ != nonce_for(counter) + aes256gcm_seal(key@, nonce_for(counter), p) by {
                    assert(nonce_for(counter).len() == 12);
                }
                assert forall|counter: u64, p: Seq<u8>|
                    #[trigger] spec_encrypt(key@, counter, p) != Ok::<Seq<u8>, ProtocolError>(data@) by {
                    assert(nonce_for(counter).len() == 12);
                }
            }
            return Err(ProtocolError::InsufficientData);
        }
        let nonce = sub_bytes(data, 0, 12);
        let ciphertext = sub_bytes(data, 12, data.len());
        let opened = aes256gcm_decrypt(key.as_slice(), nonce, ciphertext);
        proof {
            assert forall|counter: u64, p: Seq<u8>|
                #![trigger aes256gcm_seal(key@, nonce_for(counter), p)]
                p.len() <= 0x10_0000_0000 && data@ == nonce_for(counter) + aes256gcm_seal(key@, nonce_for(counter), p)
                    implies opened is Some && opened.unwrap()@ == p by {
                let m = data@;
                assert(nonce_for(counter).len() == 12);
                assert(m.subrange(0, 12) == nonce_for(counter));
                assert(m.subrange(12, m.len() as int) == aes256gcm_seal(key@, nonce_for(counter), p));
                assert(aes256gcm_seal(key@, nonce@, p) == ciphertext@);
            }
            assert forall|counter: u64, p: Seq<u8>|
                #[trigger] spec_encrypt(key@, counter, p) == Ok::<Seq<u8>, ProtocolError>(data@)
                    implies opened is Some && opened.unwrap()@ == p by {
                assert(p.len() <= 0x10_0000_0000);
                assert(data@ == nonce_for(counter) + aes256gcm_seal(key@, nonce_for(counter), p));
            }
        }
        match opened {
            Some(plaintext) => Ok(plaintext),
            None => Err(ProtocolError::DecryptionFailed),
        }
    }

    /// Encryption on a keyed session succeeds for every plaintext that
    /// AES-GCM accepts (up to `P_MAX`, 2^36 bytes), giving the four zero
    /// bytes and the big-endian counter as nonce, then the AES-256-GCM
    /// ciphertext of the plaintext under that nonce; longer plaintexts are
    /// refused.
    pub proof fn lemma_encrypt_result(key: Seq<u8>, counter: u64, data: Seq<u8>)
        ensures
            data.len() <= 0x10_0000_0000 ==> spec_encrypt(key, counter, data) == Ok::<Seq<u8>, ProtocolError>(
                nonce_for(counter) + aes256gcm_seal(key, nonce_for(counter), data),
            ),
            data.len() > 0x10_0000_0000 ==> spec_encrypt(key, counter, data) == Err::<Seq<u8>, ProtocolError>(
                ProtocolError::EncryptionFailed,
            ),
    {
    }

    /// The nonce of the message with counter `c`: four zero bytes, then the
    /// eight big-endian bytes of `c`.
    pub proof fn lemma_nonce_layout(c: u64)
        ensures
            nonce_for(c) == seq![0u8, 0u8, 0u8, 0u8] + u64_be_bytes(c),
            nonce_for(c).len() == 12,
    {
    }

    /// Messages with different counters carry different nonces, so a session
    /// never uses one nonce twice under its key.
    pub proof fn lemma_nonces_distinct(a: u64, b: u64)
        requires
            a != b,
        ensures
            nonce_for(a) != nonce_for(b),
    {
        lemma_u64_be_bytes_injective(a, b);
        if nonce_for(a) == nonce_for(b) {
            assert(nonce_for(a).subrange(4, 12) == u64_be_bytes(a));
            assert(nonce_for(b).subrange(4, 12) == u64_be_bytes(b));
        }
    }
}

// ---------------------------------------------------------------------------
// Key exchange
// ---------------------------------------------------------------------------

/// One side of an x25519 key exchange.
pub struct KeyExchange {
    secret: EphemeralSecret,
    public: PublicKey,
    public_bytes: [u8; 32],
}

impl KeyExchange {
    /// The public key belongs to the secret, and the bytes are the key's.
    #[verifier::type_invariant]
    closed spec fn keys_match(self) -> bool {
        &&& self.public == x25519_public(self.secret)
        &&& self.public_bytes@ == public_key_bytes_of(self.public)
    }

    /// The secret of this side of the exchange.
    pub closed spec fn spec_secret(&self) -> EphemeralSecret {
        self.secret
    }

    /// The public key of this side of the exchange.
    pub closed spec fn spec_public_key(&self) -> PublicKey {
        self.public
    }

    /// The bytes of this side's public key.
    pub closed spec fn spec_public_key_bytes(&self) -> Seq<u8> {
        self.public_bytes@
    }

    /// A fresh random secret and its public key.
    pub fn new() -> (r: KeyExchange)
        ensures
            r.spec_public_key() == x25519_public(r.spec_secret()),
            r.spec_public_key_bytes() == public_key_bytes_of(r.spec_public_key()),
    {
        let secret = fresh_ephemeral_secret();
        let public = public_key_of(&secret);
        let public_bytes = public_key_to_bytes(&public);
        KeyExchange { secret, public, public_bytes }
    }

    pub fn public_key(&self) -> (r: &PublicKey)
        ensures
            *r == self.spec_public_key(),
            *r == x25519_public(self.spec_secret()),
    {
        proof {
            use_type_invariant(self);
        }
        &self.public
    }

    pub fn public_key_bytes(&self) -> (r: [u8; 32])
        ensures
            r@ == self.spec_public_key_bytes(),
            r@ == public_key_bytes_of(self.spec_public_key()),
    {
        proof {
            use_type_invariant(self);
        }
        self.public_bytes
    }

    /// The shared secret with the other side's public key; the secret is used
    /// up. Another exchange whose public key this is computes the same
    /// secret from this side's public key.
    pub fn generate_shared_secret(self, public_key: &PublicKey) -> (r: [u8; 32])
        ensures
            r@ == x25519_shared(self.spec_secret(), *public_key),
            forall|peer: KeyExchange|
                *public_key == #[trigger] peer.spec_public_key() && peer.spec_public_key() == x25519_public(
                    peer.spec_secret(),
                ) ==> r@ == x25519_shared(peer.spec_secret(), self.spec_public_key()),
    {
        proof {
            use_type_invariant(&self);
        }
        let ghost me = self;
        let r = diffie_hellman_bytes(self.secret, public_key);
        proof {
            assert forall|peer: KeyExchange|
                *public_key == #[trigger] peer.spec_public_key() && peer.spec_public_key() == x25519_public(
                    peer.spec_secret(),
                ) implies r@ == x25519_shared(peer.spec_secret(), me.spec_public_key()) by {
                assert(*public_key == x25519_public(peer.spec_secret()));
            }
        }
        r
    }
}

} // verus!
