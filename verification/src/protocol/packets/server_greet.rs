use vstd::prelude::*;

use crate::protocol::error::ProtocolError;
use crate::protocol::wire::{be_u16, u16_be_bytes, u16_to_be_bytes, append_bytes};

verus! {

/// The server's answer to a greeting: its protocol version and whether it
/// asks for credentials.
#[derive(Debug, Clone, Copy, PartialEq, Eq, Structural)]
pub struct ServerGreet {
    pub version: u16,
    pub require_auth: bool,
}

impl ServerGreet {
    /// The payload that `encode` writes: the version, most significant byte
    /// first, then 1 where credentials are required and 0 where not.
    pub open spec fn spec_encode(self) -> Seq<u8> {
        u16_be_bytes(self.version) + seq![if self.require_auth { 1u8 } else { 0u8 }]
    }

    /// What `decode` makes of a payload: any flag byte other than 1 reads
    /// as "no credentials"; bytes after the flag are ignored.
    pub open spec fn spec_decode(b: Seq<u8>) -> Result<ServerGreet, ProtocolError> {
        if b.len() < 3 {
            Err(ProtocolError::UnexpectedEnd)
        } else {
            Ok(ServerGreet { version: be_u16(b[0], b[1]), require_auth: b[2] == 1 })
        }
    }

    pub fn encode(&self) -> (r: Vec<u8>)
        ensures
            r@ == self.spec_encode(),
    {
        let mut payload: Vec<u8> = Vec::new();
        append_bytes(&mut payload, &u16_to_be_bytes(self.version));
        payload.push(if self.require_auth { 0x01 } else { 0x00 });
        payload
    }

    pub fn decode(payload: &[u8]) -> (r: Result<ServerGreet, ProtocolError>)
        ensures
            r == Self::spec_decode(payload@),
    {
        if payload.len() < 3 {
            return Err(ProtocolError::UnexpectedEnd);
        }
        Ok(ServerGreet { version: payload[0] as u16 * 256 + payload[1] as u16, require_auth: payload[2] == 0x01 })
    }

    /// Decoding an encoded greeting gives the greeting back.
    pub proof fn lemma_encode_decode(v: ServerGreet)
        ensures
            Self::spec_decode(v.spec_encode()) == Ok::<ServerGreet, ProtocolError>(v),
    {
    }
}

} // verus!
