use vstd::prelude::*;

verus! {

/// Outcome of a client command, as the server reports it.
#[derive(Debug, Clone, Copy, PartialEq, Eq, Structural)]
pub enum CommandStatus {
    /// The command was carried out.
    Success,
    /// The command could not be carried out.
    Failed,
    /// The server does not support the command.
    Unsupported,
}

impl CommandStatus {
    /// The status a byte stands for on the wire, if any.
    pub open spec fn spec_from_byte(value: u8) -> Option<CommandStatus> {
        if value == 0x00 {
            Some(CommandStatus::Success)
        } else if value == 0x01 {
            Some(CommandStatus::Failed)
        } else if value == 0x02 {
            Some(CommandStatus::Unsupported)
        } else {
            None
        }
    }

    /// The byte that stands for this status on the wire.
    pub open spec fn spec_to_byte(self) -> u8 {
        match self {
            CommandStatus::Success => 0x00,
            CommandStatus::Failed => 0x01,
            CommandStatus::Unsupported => 0x02,
        }
    }

    pub fn from_byte(value: u8) -> (r: Option<CommandStatus>)
        ensures
            r == Self::spec_from_byte(value),
    {
        match value {
            0x00 => Some(CommandStatus::Success),
            0x01 => Some(CommandStatus::Failed),
            0x02 => Some(CommandStatus::Unsupported),
            _ => None,
        }
    }

    pub fn to_byte(&self) -> (r: u8)
        ensures
            r == self.spec_to_byte(),
    {
        match self {
            CommandStatus::Success => 0x00,
            CommandStatus::Failed => 0x01,
            CommandStatus::Unsupported => 0x02,
        }
    }

    /// Every status survives a trip through its byte, and every byte that
    /// names a status is the byte of that status.
    pub proof fn lemma_byte_roundtrip(x: CommandStatus, b: u8)
        ensures
            Self::spec_from_byte(x.spec_to_byte()) == Some(x),
            Self::spec_from_byte(b) matches Some(y) ==> y.spec_to_byte() == b,
    {
    }
}

} // verus!
