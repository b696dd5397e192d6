use vstd::prelude::*;

use x25519_dalek::PublicKey;

use crate::protocol::crypto::{public_key_bytes_of, public_key_from_bytes};
use crate::protocol::error::ProtocolError;
use crate::protocol::wire::append_bytes;

verus! {

/// A peer's x25519 public key.
#[derive(Debug, Clone, Copy, PartialEq, Eq)]
pub struct PublicKeyExchange {
    pub public_key: [u8; 32],
}

impl PublicKeyExchange {
    /// The payload that `encode` writes: the 32 key bytes.
    pub open spec fn spec_encode(self) -> Seq<u8> {
        self.public_key@
    }

    /// Whether `payload` is shorter than a key, so that `decode` cannot read
    /// it (slicing it out of range panics).
    pub open spec fn spec_is_truncated(b: Seq<u8>) -> bool {
        b.len() < 32
    }

    pub fn encode(&self) -> (r: Vec<u8>)
        ensures
            r@ == self.spec_encode(),
    {
        let mut payload: Vec<u8> = Vec::new();
        append_bytes(&mut payload, &self.public_key);
        payload
    }

    pub fn is_truncated(payload: &[u8]) -> (r: bool)
        ensures
            r == Self::spec_is_truncated(payload@),
    {
        payload.len() < 32
    }

    /// Reads the key from the first 32 bytes; bytes after them are ignored.
    pub fn decode(payload: &[u8]) -> (r: Result<PublicKeyExchange, ProtocolError>)
        requires
            !Self::spec_is_truncated(payload@),
        ensures
            r matches Ok(p) && p.public_key@ == payload@.subrange(0, 32),
    {
        let mut public_key = [0u8; 32];
        let mut i: usize = 0;
        while i < 32
            invariant
                i <= 32,
                32 <= payload@.len(),
                forall|j: int| 0 <= j < i ==> public_key@[j] == payload@[j],
            decreases 32 - i,
        {
            public_key[i] = payload[i];
            i = i + 1;
        }
        assert(public_key@ == payload@.subrange(0, 32));
        Ok(PublicKeyExchange { public_key })
    }

    /// The x25519 public key whose bytes the packet carries (the only one).
    pub fn to_public_key(&self) -> (r: PublicKey)
        ensures
            public_key_bytes_of(r) == self.public_key@,
            forall|k: PublicKey| #[trigger] public_key_bytes_of(k) == self.public_key@ ==> r == k,
    {
        public_key_from_bytes(self.public_key)
    }

    /// Decoding an encoded key gives the key back.
    pub proof fn lemma_encode_decode(v: PublicKeyExchange)
        ensures
            !Self::spec_is_truncated(v.spec_encode()),
            v.spec_encode().subrange(0, 32) == v.public_key@,
    {
        assert(v.spec_encode().subrange(0, 32) == v.public_key@);
    }
}

} // verus!
