//! The status protocol: the outcome of a call and the error pair that goes
//! with it.
use vstd::prelude::*;
use crate::consts::{errno, netdb};
use crate::structs::nss_status;

verus! {

/// The library error code that accompanies a status.
pub open spec fn spec_errno(s: nss_status) -> i32 {
    match s {
        nss_status::Success => 0,
        nss_status::NotFound => errno::ESRCH,
        nss_status::TryAgain => errno::ERANGE,
        nss_status::Unavail => errno::EINVAL,
    }
}

/// The resolution error code that accompanies a status.
pub open spec fn spec_h_errno(s: nss_status) -> i32 {
    match s {
        nss_status::Success => netdb::NETDB_SUCCESS,
        nss_status::NotFound => netdb::HOST_NOT_FOUND,
        nss_status::TryAgain => netdb::NETDB_INTERNAL,
        nss_status::Unavail => netdb::NO_RECOVERY,
    }
}

/// Outcome of encoding `n` addresses whose layout needs `planned` bytes into
/// a buffer of `buflen` bytes.
pub open spec fn encode_status(n: nat, planned: nat, buflen: nat) -> nss_status {
    if n == 0 {
        nss_status::NotFound
    } else if buflen < planned {
        nss_status::TryAgain
    } else {
        nss_status::Success
    }
}

/// A status together with its error pair.
#[derive(Debug, Clone, Copy)]
pub struct Report {
    pub status: nss_status,
    pub errno: i32,
    pub h_errno: i32,
}

impl Report {
    /// Whether the error pair is the one that belongs to the status.
    pub open spec fn consistent(&self) -> bool {
        self.errno == spec_errno(self.status) && self.h_errno == spec_h_errno(self.status)
    }

    /// The report for a status.
    pub fn of(status: nss_status) -> (r: Report)
        ensures
            r.status == status,
            r.consistent(),
    {
        match status {
            nss_status::Success => Report { status, errno: 0, h_errno: netdb::NETDB_SUCCESS },
            nss_status::NotFound => Report {
                status,
                errno: errno::ESRCH,
                h_errno: netdb::HOST_NOT_FOUND,
            },
            nss_status::TryAgain => Report {
                status,
                errno: errno::ERANGE,
                h_errno: netdb::NETDB_INTERNAL,
            },
            nss_status::Unavail => Report {
                status,
                errno: errno::EINVAL,
                h_errno: netdb::NO_RECOVERY,
            },
        }
    }
}

} // verus!
