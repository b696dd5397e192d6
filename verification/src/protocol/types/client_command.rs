use vstd::prelude::*;

verus! {

/// What a client asks the server to do once the channel is encrypted.
#[derive(Debug, Clone, Copy, PartialEq, Eq, Structural)]
pub enum ClientCommand {
    /// Keep talking to the server itself.
    Direct,
    /// Connect to a target host and relay to it.
    Proxy,
}

impl ClientCommand {
    /// The command a byte stands for on the wire, if any.
    pub open spec fn spec_from_byte(value: u8) -> Option<ClientCommand> {
        if value == 0x00 {
            Some(ClientCommand::Direct)
        } else if value == 0x01 {
            Some(ClientCommand::Proxy)
        } else {
            None
        }
    }

    /// The byte that stands for this command on the wire.
    pub open spec fn spec_to_byte(self) -> u8 {
        match self {
            ClientCommand::Direct => 0x00,
            ClientCommand::Proxy => 0x01,
        }
    }

    pub fn from_byte(value: u8) -> (r: Option<ClientCommand>)
        ensures
            r == Self::spec_from_byte(value),
    {
        match value {
            0x00 => Some(ClientCommand::Direct),
            0x01 => Some(ClientCommand::Proxy),
            _ => None,
        }
    }

    pub fn to_byte(&self) -> (r: u8)
        ensures
            r == self.spec_to_byte(),
    {
        match self {
            ClientCommand::Direct => 0x00,
            ClientCommand::Proxy => 0x01,
        }
    }

    /// Every command survives a trip through its byte, and every byte that
    /// names a command is the byte of that command.
    pub proof fn lemma_byte_roundtrip(x: ClientCommand, b: u8)
        ensures
            Self::spec_from_byte(x.spec_to_byte()) == Some(x),
            Self::spec_from_byte(b) matches Some(y) ==> y.spec_to_byte() == b,
    {
    }
}

} // verus!
