use vstd::prelude::*;

verus! {

/// Outcome of an authorization, as the server reports it.
#[derive(Debug, Clone, Copy, PartialEq, Eq, Structural)]
pub enum AuthStatus {
    /// Authorization passed.
    Success,
    /// The client chose a method the server does not accept.
    UnexpectedMethod,
    /// The client sent no credentials.
    MissingData,
    /// The credentials were wrong.
    Failed,
}

impl AuthStatus {
    /// The status a byte stands for on the wire, if any.
    pub open spec fn spec_from_byte(value: u8) -> Option<AuthStatus> {
        if value == 0x00 {
            Some(AuthStatus::Success)
        } else if value == 0x01 {
            Some(AuthStatus::UnexpectedMethod)
        } else if value == 0x02 {
            Some(AuthStatus::MissingData)
        } else if value == 0x03 {
            Some(AuthStatus::Failed)
        } else {
            None
        }
    }

    /// The byte that stands for this status on the wire.
    pub open spec fn spec_to_byte(self) -> u8 {
        match self {
            AuthStatus::Success => 0x00,
            AuthStatus::UnexpectedMethod => 0x01,
            AuthStatus::MissingData => 0x02,
            AuthStatus::Failed => 0x03,
        }
    }

    pub fn from_byte(value: u8) -> (r: Option<AuthStatus>)
        ensures
            r == Self::spec_from_byte(value),
    {
        match value {
            0x00 => Some(AuthStatus::Success),
            0x01 => Some(AuthStatus::UnexpectedMethod),
            0x02 => Some(AuthStatus::MissingData),
            0x03 => Some(AuthStatus::Failed),
            _ => None,
        }
    }

    pub fn to_byte(&self) -> (r: u8)
        ensures
            r == self.spec_to_byte(),
    {
        match self {
            AuthStatus::Success => 0x00,
            AuthStatus::UnexpectedMethod => 0x01,
            AuthStatus::MissingData => 0x02,
            AuthStatus::Failed => 0x03,
        }
    }

    /// Every status survives a trip through its byte, and every byte that
    /// names a status is the byte of that status.
    pub proof fn lemma_byte_roundtrip(x: AuthStatus, b: u8)
        ensures
            Self::spec_from_byte(x.spec_to_byte()) == Some(x),
            Self::spec_from_byte(b) matches Some(y) ==> y.spec_to_byte() == b,
    {
    }
}

} // verus!
