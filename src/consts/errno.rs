use vstd::prelude::*;

verus! {

/// Invalid argument: the resolver failed.
pub const EINVAL: i32 = 22;

/// No such entry: nothing was found for the name.
pub const ESRCH: i32 = 3;

/// Result out of range: the buffer is too small.
pub const ERANGE: i32 = 34;

} // verus!
