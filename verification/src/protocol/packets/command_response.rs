use vstd::prelude::*;

use crate::protocol::error::ProtocolError;
use crate::protocol::types::CommandStatus;

verus! {

/// The server's answer to a command request.
#[derive(Debug, Clone, Copy, PartialEq, Eq, Structural)]
pub struct CommandResponse {
    pub status: CommandStatus,
}

impl CommandResponse {
    /// The payload that `encode` writes: the status byte.
    pub open spec fn spec_encode(self) -> Seq<u8> {
        seq![self.status.spec_to_byte()]
    }

    /// What `decode` makes of a payload; bytes after the status are ignored.
    pub open spec fn spec_decode(b: Seq<u8>) -> Result<CommandResponse, ProtocolError> {
        if b.len() < 1 {
            Err(ProtocolError::UnexpectedEnd)
        } else {
            match CommandStatus::spec_from_byte(b[0]) {
                Some(status) => Ok(CommandResponse { status }),
                None => Err(ProtocolError::InvalidCommandStatus),
            }
        }
    }

    pub fn encode(&self) -> (r: Vec<u8>)
        ensures
            r@ == self.spec_encode(),
    {
        let mut payload: Vec<u8> = Vec::new();
        payload.push(self.status.to_byte());
        payload
    }

    pub fn decode(payload: &[u8]) -> (r: Result<CommandResponse, ProtocolError>)
        ensures
            r == Self::spec_decode(payload@),
    {
        if payload.len() < 1 {
            return Err(ProtocolError::UnexpectedEnd);
        }
        match CommandStatus::from_byte(payload[0]) {
            Some(status) => Ok(CommandResponse { status }),
            None => Err(ProtocolError::InvalidCommandStatus),
        }
    }

    /// Decoding an encoded response gives the response back.
    pub proof fn lemma_encode_decode(v: CommandResponse)
        ensures
            Self::spec_decode(v.spec_encode()) == Ok::<CommandResponse, ProtocolError>(v),
    {
        CommandStatus::lemma_byte_roundtrip(v.status, 0);
    }
}

} // verus!
