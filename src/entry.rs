//! What the entry points decide around the encoders: the family filter, the
//! mapping of a failed resolution, and the IPv6-then-IPv4 fallback.
use vstd::prelude::*;
use crate::consts::af;
use crate::layout::{classic_size, extended_size, spec_align, spec_family_address_size};
use crate::status::{encode_status, Report};
use crate::structs::{nss_status, AddrTuple};
use crate::write::{
    classic_host, classic_image, empty_host, extended_image, failed_classic, write_addresses3, write_addresses4,
    ClassicReply, ExtendedReply,
};

verus! {

/// Whether an address passes the filter for a requested family: IPv4 only,
/// IPv6 only, or everything for any other family value.
pub open spec fn family_matches(t: AddrTuple, family: i32) -> bool {
    if family == af::INET {
        t.family == af::INET
    } else if family == af::INET6 {
        t.family == af::INET6
    } else {
        true
    }
}

/// The addresses of `addrs` that pass the filter for `family`, in order.
pub open spec fn filtered(addrs: Seq<AddrTuple>, family: i32) -> Seq<AddrTuple> {
    addrs.filter(|t: AddrTuple| family_matches(t, family))
}

/// Keeps the addresses of the requested family, in their order.
pub fn filter_family(addrs: &[AddrTuple], family: i32) -> (r: Vec<AddrTuple>)
    ensures
        r@ == filtered(addrs@, family),
{
    let ghost pred = |t: AddrTuple| family_matches(t, family);
    let mut out: Vec<AddrTuple> = Vec::new();
    let mut i: usize = 0;
    while i < addrs.len()
        invariant
            i <= addrs@.len(),
            pred == (|t: AddrTuple| family_matches(t, family)),
            out@ == addrs@.subrange(0, i as int).filter(pred),
        decreases addrs@.len() - i,
    {
        let t = addrs[i];
        let keep = if family == af::INET {
            t.family == af::INET
        } else if family == af::INET6 {
            t.family == af::INET6
        } else {
            true
        };
        proof {
            let next = addrs@.subrange(0, i + 1);
            assert(next.drop_last() =~= addrs@.subrange(0, i as int));
            reveal(Seq::filter);
        }
        if keep {
            out.push(t);
        }
        i = i + 1;
    }
    assert(addrs@.subrange(0, addrs@.len() as int) =~= addrs@);
    out
}

/// The classic lookup once the resolver has answered: `None` when it failed,
/// which is `Unavail`; otherwise the answer is filtered to the requested
/// family and encoded.
pub fn lookup_classic(
    name: &[u8],
    family: i32,
    resolved: Option<Vec<AddrTuple>>,
    buffer: &mut Vec<u8>,
    base: u64,
) -> (r: ClassicReply)
    requires
        base + old(buffer)@.len() <= u64::MAX,
    ensures
        r.report.consistent(),
        final(buffer)@.len() == old(buffer)@.len(),
        resolved is None ==> {
            &&& r.report.status == nss_status::Unavail
            &&& final(buffer)@ == old(buffer)@
            &&& r.host == empty_host()
            &&& r.canon == 0
        },
        resolved matches Some(list) ==> {
            let addrs = filtered(list@, family);
            let image = classic_image(name@, addrs, family, base as nat);
            &&& r.report.status == encode_status(
                addrs.len(),
                classic_size(name@.len(), addrs.len(), spec_family_address_size(family)),
                old(buffer)@.len(),
            )
            &&& r.report.status == nss_status::Success ==> {
                &&& final(buffer)@ == image + old(buffer)@.subrange(
                    image.len() as int,
                    old(buffer)@.len() as int,
                )
                &&& r.host == classic_host(name@, addrs, family, base as nat)
                &&& r.canon == base
            }
            &&& r.report.status != nss_status::Success ==> {
                &&& final(buffer)@ == old(buffer)@
                &&& r.host == empty_host()
                &&& r.canon == 0
            }
        },
{
    match resolved {
        None => failed_classic(nss_status::Unavail),
        Some(list) => {
            let addrs = filter_family(list.as_slice(), family);
            write_addresses3(name, family, addrs.as_slice(), buffer, base)
        },
    }
}

/// The extended lookup once the resolver has answered: `None` when it
/// failed, which is `Unavail`; otherwise the whole answer is encoded.
pub fn lookup_extended(
    name: &[u8],
    resolved: Option<Vec<AddrTuple>>,
    buffer: &mut Vec<u8>,
    base: u64,
) -> (r: ExtendedReply)
    requires
        base + old(buffer)@.len() <= u64::MAX,
    ensures
        r.report.consistent(),
        final(buffer)@.len() == old(buffer)@.len(),
        resolved is None ==> {
            &&& r.report.status == nss_status::Unavail
            &&& final(buffer)@ == old(buffer)@
            &&& r.first == 0
        },
        resolved matches Some(list) ==> {
            let image = extended_image(name@, list@, base as nat);
            &&& r.report.status == encode_status(
                list@.len(),
                extended_size(name@.len(), list@.len()),
                old(buffer)@.len(),
            )
            &&& r.report.status == nss_status::Success ==> {
                &&& final(buffer)@ == image + old(buffer)@.subrange(
                    image.len() as int,
                    old(buffer)@.len() as int,
                )
                &&& r.first == base + spec_align(name@.len() + 1)
            }
            &&& r.report.status != nss_status::Success ==> {
                &&& final(buffer)@ == old(buffer)@
                &&& r.first == 0
            }
        },
{
    match resolved {
        None => ExtendedReply { report: Report::of(nss_status::Unavail), first: 0 },
        Some(list) => write_addresses4(name, list.as_slice(), buffer, base),
    }
}

/// The family the family-less lookup asks for first.
pub const FIRST_FAMILY: i32 = af::INET6;

/// The family-less lookup asks for IPv6 first; after its outcome `first`,
/// this says which family to ask for next: IPv4 exactly when the first
/// attempt found nothing, and no second attempt after any other outcome.
pub fn fallback_family(first: nss_status) -> (r: Option<i32>)
    ensures
        first == nss_status::NotFound ==> r == Some(af::INET),
        first != nss_status::NotFound ==> r is None,
{
    match first {
        nss_status::NotFound => Some(af::INET),
        _ => None,
    }
}

} // verus!
