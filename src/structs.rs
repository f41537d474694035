//! The values that cross the host runtime's interface.
use vstd::prelude::*;
use crate::consts::af;
use crate::layout::zeros;

verus! {

/// Outcome of a lookup, as the host runtime reads it.
#[allow(non_camel_case_types)]
#[derive(Debug, Clone, Copy, PartialEq, Eq, Structural)]
pub enum nss_status {
    /// The buffer is too small; the caller may retry with a larger one.
    TryAgain,
    /// The resolver failed; a larger buffer will not help.
    Unavail,
    /// The resolver answered, but with no usable address.
    NotFound,
    Success,
}

/// One resolved address: a family tag and sixteen address bytes, of which an
/// IPv4 address uses the first four and leaves the rest zero.
#[derive(Debug, Clone, Copy)]
pub struct AddrTuple {
    pub family: i32,
    pub addr: [u8; 16],
}

impl AddrTuple {
    /// Whether this is an IPv6 address; every other tag is read as IPv4.
    pub open spec fn is_v6(&self) -> bool {
        self.family == af::INET6
    }

    /// The family tag written for this address.
    pub open spec fn tag(&self) -> i32 {
        if self.is_v6() { af::INET6 } else { af::INET }
    }

    /// Number of address bytes in use: 16 for IPv6, 4 for IPv4.
    pub open spec fn width(&self) -> nat {
        if self.is_v6() { 16 } else { 4 }
    }

    /// The sixteen-byte address slot: the bytes in use, zero-filled.
    pub open spec fn slot16(&self) -> Seq<u8> {
        self.addr@.subrange(0, self.width() as int) + zeros((16 - self.width()) as nat)
    }

    /// An IPv4 address from its four octets.
    pub fn from_v4(octets: [u8; 4]) -> (r: AddrTuple)
        ensures
            r.family == af::INET,
            r.addr@ == octets@ + zeros(12),
    {
        let mut data: [u8; 16] = [0u8; 16];
        let mut i: usize = 0;
        while i < 4
            invariant
                i <= 4,
                data@.len() == 16,
                forall|k: int| 0 <= k < i ==> data@[k] == octets@[k],
                forall|k: int| i <= k < 16 ==> data@[k] == 0,
            decreases 4 - i,
        {
            data[i] = octets[i];
            i = i + 1;
        }
        assert(data@ =~= octets@ + zeros(12));
        AddrTuple { family: af::INET, addr: data }
    }

    /// An IPv6 address from its sixteen octets.
    pub fn from_v6(octets: [u8; 16]) -> (r: AddrTuple)
        ensures
            r.family == af::INET6,
            r.addr@ == octets@,
    {
        AddrTuple { family: af::INET6, addr: octets }
    }
}

/// One record of the extended layout, as read back from the buffer. The two
/// links are addresses (0 for none); the address words hold the slot bytes
/// in little-endian order.
#[allow(non_camel_case_types)]
#[derive(Debug, Clone, Copy)]
pub struct gaih_addrtuple {
    pub next: u64,
    pub name: u64,
    pub family: i32,
    pub addr: [u32; 4],
    pub scopeid: u32,
}

/// The host record of the classic layout; the three links are addresses
/// inside the caller's buffer.
#[allow(non_camel_case_types)]
#[derive(Debug, Clone, Copy)]
pub struct hostent {
    pub h_name: u64,
    pub h_aliases: u64,
    pub h_addrtype: i32,
    pub h_length: i32,
    pub h_addr_list: u64,
}

} // verus!
