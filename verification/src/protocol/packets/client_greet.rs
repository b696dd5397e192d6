use vstd::prelude::*;

use crate::protocol::error::ProtocolError;
use crate::protocol::wire::{be_u16, u16_be_bytes, u16_to_be_bytes, append_bytes};

verus! {

/// The first packet of a client: the protocol version it speaks.
#[derive(Debug, Clone, Copy, PartialEq, Eq, Structural)]
pub struct ClientGreet {
    pub version: u16,
}

impl ClientGreet {
    /// The payload that `encode` writes: the version, most significant byte first.
    pub open spec fn spec_encode(self) -> Seq<u8> {
        u16_be_bytes(self.version)
    }

    /// What `decode` makes of a payload; bytes after the version are ignored.
    pub open spec fn spec_decode(b: Seq<u8>) -> Result<ClientGreet, ProtocolError> {
        if b.len() < 2 {
            Err(ProtocolError::UnexpectedEnd)
        } else {
            Ok(ClientGreet { version: be_u16(b[0], b[1]) })
        }
    }

    pub fn encode(&self) -> (r: Vec<u8>)
        ensures
            r@ == self.spec_encode(),
    {
        let mut payload: Vec<u8> = Vec::new();
        append_bytes(&mut payload, &u16_to_be_bytes(self.version));
        payload
    }

    pub fn decode(payload: &[u8]) -> (r: Result<ClientGreet, ProtocolError>)
        ensures
            r == Self::spec_decode(payload@),
    {
        if payload.len() < 2 {
            return Err(ProtocolError::UnexpectedEnd);
        }
        Ok(ClientGreet { version: payload[0] as u16 * 256 + payload[1] as u16 })
    }

    /// Decoding an encoded greeting gives the greeting back.
    pub proof fn lemma_encode_decode(v: ClientGreet)
        ensures
            Self::spec_decode(v.spec_encode()) == Ok::<ClientGreet, ProtocolError>(v),
    {
    }
}

} // verus!
