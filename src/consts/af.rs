use vstd::prelude::*;

verus! {

/// Family tag of an IPv4 address.
pub const INET: i32 = 2;

/// Family tag of an IPv6 address.
pub const INET6: i32 = 10;

} // verus!
