use vstd::prelude::*;

verus! {

/// How a client proves who it is.
#[derive(Debug, Clone, Copy, PartialEq, Eq, Structural)]
pub enum AuthMethod {
    /// No authorization.
    Skip,
    /// Username and password.
    Basic,
}

impl AuthMethod {
    /// The method a byte stands for on the wire, if any.
    pub open spec fn spec_from_byte(value: u8) -> Option<AuthMethod> {
        if value == 0x00 {
            Some(AuthMethod::Skip)
        } else if value == 0x01 {
            Some(AuthMethod::Basic)
        } else {
            None
        }
    }

    /// The byte that stands for this method on the wire.
    pub open spec fn spec_to_byte(self) -> u8 {
        match self {
            AuthMethod::Skip => 0x00,
            AuthMethod::Basic => 0x01,
        }
    }

    pub fn from_byte(value: u8) -> (r: Option<AuthMethod>)
        ensures
            r == Self::spec_from_byte(value),
    {
        match value {
            0x00 => Some(AuthMethod::Skip),
            0x01 => Some(AuthMethod::Basic),
            _ => None,
        }
    }

    pub fn to_byte(&self) -> (r: u8)
        ensures
            r == self.spec_to_byte(),
    {
        match self {
            AuthMethod::Skip => 0x00,
            AuthMethod::Basic => 0x01,
        }
    }

    /// Every method survives a trip through its byte, and every byte that
    /// names a method is the byte of that method.
    pub proof fn lemma_byte_roundtrip(m: AuthMethod, b: u8)
        ensures
            Self::spec_from_byte(m.spec_to_byte()) == Some(m),
            Self::spec_from_byte(b) matches Some(m2) ==> m2.spec_to_byte() == b,
    {
    }
}

} // verus!
