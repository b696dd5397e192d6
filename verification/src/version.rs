use vstd::prelude::*;

verus! {

/// Version of the protocol spoken by this crate; both peers send it in their greeting.
pub const PROTOCOL_VERSION: u16 = 1;

} // verus!
