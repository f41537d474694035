use vstd::prelude::*;

verus! {

/// Internal failure; here, a buffer too small for the answer.
pub const NETDB_INTERNAL: i32 = -1;

/// No error.
pub const NETDB_SUCCESS: i32 = 0;

/// The name has no address.
pub const HOST_NOT_FOUND: i32 = 3;

/// A failure that retrying will not mend.
pub const NO_RECOVERY: i32 = 3;

} // verus!
