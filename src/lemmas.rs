//! Properties that hold across the planner, the encoders and the status
//! protocol, proved over the layouts' images.
use vstd::prelude::*;
use vstd::arithmetic::power::pow;
use crate::consts::{af, errno, netdb};
use crate::layout::{
    classic_size, extended_size, lemma_le_bytes_len, lemma_read_le_bytes, le_bytes, name_region,
    read_le, spec_align, spec_family_address_size, zeros, POINTER_SIZE, TUPLE_SIZE,
};
use crate::status::{encode_status, spec_errno, spec_h_errno};
use crate::structs::{nss_status, AddrTuple};
use crate::write::{
    classic_host, classic_image, classic_ptrs, classic_slot, classic_slots, ext_link, ext_record,
    ext_records, extended_image, lemma_classic_image_len, lemma_classic_ptrs_len,
    lemma_classic_slots_len, lemma_ext_record_len, lemma_ext_records_len,
};

verus! {

proof fn lemma_pow_256_8()
    ensures
        pow(256, 8) == 0x1_0000_0000_0000_0000,
        pow(256, 4) == 0x1_0000_0000,
{
    reveal_with_fuel(pow, 9);
}

/// Both layouts start with the name, followed by a single terminating zero
/// byte and zero padding up to the first aligned region.
pub proof fn lemma_name_copied_once(name: Seq<u8>, addrs: Seq<AddrTuple>, family: i32, base: nat)
    ensures
        ({
            let l = name.len() as int;
            let a = spec_align(name.len() + 1) as int;
            let ext = extended_image(name, addrs, base);
            let cls = classic_image(name, addrs, family, base);
            &&& ext.subrange(0, l) == name
            &&& ext[l] == 0
            &&& ext.subrange((l + 1) as int, a) == zeros((a - l - 1) as nat)
            &&& cls.subrange(0, l) == name
            &&& cls[l] == 0
            &&& cls.subrange((l + 1) as int, a) == zeros((a - l - 1) as nat)
        }),
{
    let l = name.len() as int;
    let a = spec_align(name.len() + 1) as int;
    let region = name_region(name);
    assert(region.len() == a);
    let ext = extended_image(name, addrs, base);
    let cls = classic_image(name, addrs, family, base);
    assert(ext.subrange(0, a) =~= region);
    assert(cls.subrange(0, a) =~= region);
    assert(ext.subrange(0, l) =~= name);
    assert(cls.subrange(0, l) =~= name);
    assert(ext[l] == region[l]);
    assert(cls[l] == region[l]);
    assert(ext.subrange((l + 1) as int, a) =~= zeros((a - l - 1) as nat));
    assert(cls.subrange((l + 1) as int, a) =~= zeros((a - l - 1) as nat));
}

proof fn lemma_ext_records_at(addrs: Seq<AddrTuple>, base: nat, first: nat, k: nat, i: nat)
    requires
        i < k <= addrs.len(),
    ensures
        ext_records(addrs, base, first, k).subrange((i * 40) as int, (i * 40 + 40) as int) == ext_record(
            ext_link(base, first, addrs.len(), i),
            base,
            addrs[i as int],
        ),
    decreases k,
{
    let j = (k - 1) as nat;
    lemma_ext_records_len(addrs, base, first, j);
    let rec = ext_record(ext_link(base, first, addrs.len(), j), base, addrs[j as int]);
    lemma_ext_record_len(ext_link(base, first, addrs.len(), j), base, addrs[j as int]);
    let all = ext_records(addrs, base, first, k);
    let prefix = ext_records(addrs, base, first, j);
    assert(all == prefix + rec);
    if i < j {
        lemma_ext_records_at(addrs, base, first, j, i);
        assert(i * 40 + 40 <= j * 40) by (nonlinear_arith)
            requires
                i < j,
        ;
        assert(all.subrange((i * 40) as int, (i * 40 + 40) as int) =~= prefix.subrange((i * 40) as int, (i * 40 + 40) as int));
    } else {
        assert(all.subrange((i * 40) as int, (i * 40 + 40) as int) =~= rec);
    }
}

/// The extended layout holds one forty-byte record per address, in the
/// order of the list. Record `i` links to record `i + 1`, the last one to
/// nothing (0); every record points at the one copy of the name at the
/// buffer's start, and carries its address's family tag, its zero-filled
/// address slot and a zero scope id.
pub proof fn lemma_extended_chain(name: Seq<u8>, addrs: Seq<AddrTuple>, base: nat, i: nat)
    requires
        i < addrs.len(),
        base + extended_size(name.len(), addrs.len()) <= u64::MAX,
    ensures
        ({
            let n = addrs.len();
            let first = spec_align(name.len() + 1);
            let image = extended_image(name, addrs, base);
            let at = first + i * 40;
            let rec = image.subrange(at as int, (at + 40) as int);
            &&& image.len() == first + n * 40
            &&& read_le(rec.subrange(0, 8)) == (if i + 1 < n {
                base + at + 40
            } else {
                0
            })
            &&& read_le(rec.subrange(8, 16)) == base
            &&& read_le(rec.subrange(16, 20)) == addrs[i as int].tag()
            &&& rec.subrange(20, 36) == addrs[i as int].slot16()
            &&& rec.subrange(36, 40) == zeros(4)
        }),
{
    let n = addrs.len();
    let first = spec_align(name.len() + 1);
    let image = extended_image(name, addrs, base);
    let region = name_region(name);
    let recs = ext_records(addrs, base, first, n);
    lemma_ext_records_len(addrs, base, first, n);
    lemma_ext_records_at(addrs, base, first, n, i);
    let at = first + i * 40;
    assert(i * 40 + 40 <= n * 40) by (nonlinear_arith)
        requires
            i < n,
    ;
    assert(image.subrange(at as int, (at + 40) as int) =~= recs.subrange((i * 40) as int, (i * 40 + 40) as int));
    let t = addrs[i as int];
    let next = ext_link(base, first, n, i);
    let rec = ext_record(next, base, t);
    lemma_le_bytes_len(next, 8);
    lemma_le_bytes_len(base, 8);
    lemma_le_bytes_len(t.tag() as nat, 4);
    assert(rec.subrange(0, 8) =~= le_bytes(next, 8));
    assert(rec.subrange(8, 16) =~= le_bytes(base, 8));
    assert(rec.subrange(16, 20) =~= le_bytes(t.tag() as nat, 4));
    assert(rec.subrange(20, 36) =~= t.slot16());
    assert(rec.subrange(36, 40) =~= zeros(4));
    lemma_pow_256_8();
    assert(next <= base + extended_size(name.len(), n)) by (nonlinear_arith)
        requires
            next == (if i + 1 < n { base + first + (i + 1) * 40 } else { 0 }),
            extended_size(name.len(), n) == first + n * 40,
            i < n,
    ;
    lemma_read_le_bytes(next, 8);
    lemma_read_le_bytes(base, 8);
    lemma_read_le_bytes(t.tag() as nat, 4);
}

proof fn lemma_classic_slot_at(addrs: Seq<AddrTuple>, s: nat, k: nat, i: nat)
    requires
        i < k <= addrs.len(),
        s == 4 || s == 16,
    ensures
        classic_slots(addrs, s, k).subrange(
            (i * spec_align(s)) as int,
            (i * spec_align(s) + spec_align(s)) as int,
        ) == classic_slot(addrs[i as int], s),
    decreases k,
{
    let j = (k - 1) as nat;
    let sa = spec_align(s);
    lemma_classic_slots_len(addrs, s, j);
    let all = classic_slots(addrs, s, k);
    let prefix = classic_slots(addrs, s, j);
    let last = classic_slot(addrs[j as int], s);
    assert(all == prefix + last);
    if i < j {
        lemma_classic_slot_at(addrs, s, j, i);
        assert(i * sa + sa <= j * sa) by (nonlinear_arith)
            requires
                i < j,
        ;
        assert(all.subrange((i * sa) as int, (i * sa + sa) as int) =~= prefix.subrange((i * sa) as int, (i * sa + sa) as int));
    } else {
        assert(all.subrange((i * sa) as int, (i * sa + sa) as int) =~= last);
    }
}

proof fn lemma_classic_ptr_at(slots_at: nat, s: nat, k: nat, i: nat)
    requires
        i < k,
    ensures
        classic_ptrs(slots_at, s, k).subrange((i * 8) as int, (i * 8 + 8) as int) == le_bytes(
            slots_at + i * spec_align(s),
            8,
        ),
    decreases k,
{
    let j = (k - 1) as nat;
    lemma_classic_ptrs_len(slots_at, s, j);
    lemma_le_bytes_len(slots_at + j * spec_align(s), 8);
    let all = classic_ptrs(slots_at, s, k);
    let prefix = classic_ptrs(slots_at, s, j);
    let last = le_bytes(slots_at + j * spec_align(s), 8);
    assert(all == prefix + last);
    if i < j {
        lemma_classic_ptr_at(slots_at, s, j, i);
        assert(all.subrange((i * 8) as int, (i * 8 + 8) as int) =~= prefix.subrange((i * 8) as int, (i * 8 + 8) as int));
    } else {
        assert(all.subrange((i * 8) as int, (i * 8 + 8) as int) =~= last);
    }
}

/// The classic layout's pointer array has one entry per address, where the
/// host record says it is; entry `i` is the address of a slot whose first
/// `h_length` bytes are the bytes of address `i`. The alias list is a
/// single null pointer.
pub proof fn lemma_classic_pointers(
    name: Seq<u8>,
    addrs: Seq<AddrTuple>,
    family: i32,
    base: nat,
    i: nat,
)
    requires
        i < addrs.len(),
        base + classic_size(name.len(), addrs.len(), spec_family_address_size(family))
            <= u64::MAX,
    ensures
        ({
            let n = addrs.len();
            let s = spec_family_address_size(family);
            let a = spec_align(name.len() + 1);
            let list = a + 8 + n * spec_align(s);
            let image = classic_image(name, addrs, family, base);
            let host = classic_host(name, addrs, family, base);
            let ptr = read_le(image.subrange((list + i * 8) as int, (list + i * 8 + 8) as int));
            &&& image.len() == list + n * 8
            &&& host.h_addr_list == base + list
            &&& host.h_aliases == base + a
            &&& host.h_length == s
            &&& image.subrange(a as int, (a + 8) as int) == zeros(8)
            &&& ptr == base + a + 8 + i * spec_align(s)
            &&& image.subrange((ptr - base) as int, (ptr - base + s) as int) == addrs[i as int].addr@.subrange(
                0,
                s as int,
            )
        }),
{
    let n = addrs.len();
    let s = spec_family_address_size(family);
    let sa = spec_align(s);
    let a = spec_align(name.len() + 1);
    let list = a + 8 + n * sa;
    let image = classic_image(name, addrs, family, base);
    let slots_at = base + a + POINTER_SIZE as nat;
    let head = name_region(name) + zeros(POINTER_SIZE as nat);
    let slots = classic_slots(addrs, s, n);
    let ptrs = classic_ptrs(slots_at, s, n);
    lemma_classic_image_len(name, addrs, family, base);
    lemma_classic_slots_len(addrs, s, n);
    lemma_classic_ptrs_len(slots_at, s, n);
    assert(image == head + slots + ptrs);
    assert(head.len() == a + 8);
    assert(image.subrange(a as int, (a + 8) as int) =~= zeros(8));
    lemma_classic_ptr_at(slots_at, s, n, i);
    assert(image.subrange((list + i * 8) as int, (list + i * 8 + 8) as int) =~= ptrs.subrange((i * 8) as int, (i * 8 + 8) as int));
    let p = slots_at + i * sa;
    assert(i * sa + sa <= n * sa) by (nonlinear_arith)
        requires
            i < n,
    ;
    lemma_pow_256_8();
    assert(p < pow(256, 8));
    lemma_read_le_bytes(p, 8);
    lemma_classic_slot_at(addrs, s, n, i);
    assert(image.subrange((a + 8 + i * sa) as int, (a + 8 + i * sa + sa) as int) =~= slots.subrange(
        (i * sa) as int,
        (i * sa + sa) as int,
    ));
    assert(image.subrange((a + 8 + i * sa) as int, (a + 8 + i * sa + s) as int) =~= addrs[i as int].addr@.subrange(
        0,
        s as int,
    ));
}

/// The planner is exact for both layouts: a non-empty list is encoded
/// exactly when the buffer holds the planned size, and one byte less turns
/// success into `TryAgain`.
pub proof fn lemma_capacity_exact(name_len: nat, n: nat, family: i32, buflen: nat)
    requires
        n >= 1,
    ensures
        ({
            let ext = extended_size(name_len, n);
            let cls = classic_size(name_len, n, spec_family_address_size(family));
            &&& (encode_status(n, ext, buflen) == nss_status::Success) == (buflen >= ext)
            &&& encode_status(n, ext, ext) == nss_status::Success
            &&& encode_status(n, ext, (ext - 1) as nat) == nss_status::TryAgain
            &&& (encode_status(n, cls, buflen) == nss_status::Success) == (buflen >= cls)
            &&& encode_status(n, cls, cls) == nss_status::Success
            &&& encode_status(n, cls, (cls - 1) as nat) == nss_status::TryAgain
        }),
{
}

/// An empty list is never a success: it is `NotFound`, whatever the buffer.
pub proof fn lemma_empty_not_found(planned: nat, buflen: nat)
    ensures
        encode_status(0, planned, buflen) == nss_status::NotFound,
{
}

/// The error pair that accompanies each status.
pub proof fn lemma_error_pairs()
    ensures
        spec_errno(nss_status::NotFound) == errno::ESRCH == 3,
        spec_h_errno(nss_status::NotFound) == netdb::HOST_NOT_FOUND == 3,
        spec_errno(nss_status::Unavail) == errno::EINVAL == 22,
        spec_h_errno(nss_status::Unavail) == netdb::NO_RECOVERY == 3,
        spec_errno(nss_status::TryAgain) == errno::ERANGE == 34,
        spec_h_errno(nss_status::TryAgain) == netdb::NETDB_INTERNAL == -1,
        spec_errno(nss_status::Success) == 0,
        spec_h_errno(nss_status::Success) == netdb::NETDB_SUCCESS == 0,
{
}

} // verus!
