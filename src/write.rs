//! The two layout encoders. Each builds the exact image of its layout and
//! copies it to the front of the caller's buffer, or leaves the buffer as it
//! was and reports why.
use vstd::prelude::*;
use crate::consts::af;
use crate::layout::{
    align, classic_buffer_size, classic_size, copy_prefix, extended_buffer_size, extended_size,
    family_address_size, le_bytes, lemma_le_bytes_len, name_region, push_le, push_zeros, read_le,
    read_le_at, spec_align, spec_family_address_size, zeros, POINTER_SIZE, TUPLE_SIZE,
};
use crate::status::{encode_status, Report};
use crate::structs::{gaih_addrtuple, hostent, nss_status, AddrTuple};

verus! {

/// Link of record `i` of `n` in an extended chain whose first record lies at
/// offset `first` of a buffer at address `base`: the next record's address,
/// or 0 after the last.
pub open spec fn ext_link(base: nat, first: nat, n: nat, i: nat) -> nat {
    if i + 1 < n {
        base + first + (i + 1) * (TUPLE_SIZE as nat)
    } else {
        0
    }
}

/// One extended record: link, name address, family tag, address slot and a
/// zero scope id.
pub open spec fn ext_record(next: nat, name_ptr: nat, t: AddrTuple) -> Seq<u8> {
    le_bytes(next, 8) + le_bytes(name_ptr, 8) + le_bytes(t.tag() as nat, 4) + t.slot16() + zeros(4)
}

/// The first `k` records of the chain for `addrs`.
pub open spec fn ext_records(addrs: Seq<AddrTuple>, base: nat, first: nat, k: nat) -> Seq<u8>
    decreases k,
{
    if k == 0 {
        seq![]
    } else {
        let i = (k - 1) as nat;
        ext_records(addrs, base, first, i) + ext_record(
            ext_link(base, first, addrs.len(), i),
            base,
            addrs[i as int],
        )
    }
}

/// Everything the extended layout writes for `name` and `addrs` into a
/// buffer at address `base`.
pub open spec fn extended_image(name: Seq<u8>, addrs: Seq<AddrTuple>, base: nat) -> Seq<u8> {
    name_region(name) + ext_records(addrs, base, spec_align(name.len() + 1), addrs.len())
}

/// Appends a name, its terminator and the padding to the next boundary.
fn push_name(out: &mut Vec<u8>, name: &[u8])
    requires
        name@.len() + 8 <= usize::MAX,
    ensures
        final(out)@ == old(out)@ + name_region(name@),
{
    let ghost start = out@;
    let mut i: usize = 0;
    while i < name.len()
        invariant
            i <= name@.len(),
            out@ == start + name@.subrange(0, i as int),
        decreases name@.len() - i,
    {
        out.push(name[i]);
        i = i + 1;
        assert(out@ =~= start + name@.subrange(0, i as int));
    }
    out.push(0u8);
    let l = name.len() + 1;
    push_zeros(out, align(l) - l);
    assert(out@ =~= start + name_region(name@));
}

/// Appends the sixteen-byte address slot of `t`.
fn push_slot16(out: &mut Vec<u8>, t: &AddrTuple)
    ensures
        final(out)@ == old(out)@ + t.slot16(),
{
    let ghost start = out@;
    let width: usize = if t.family == af::INET6 { 16 } else { 4 };
    let mut j: usize = 0;
    while j < width
        invariant
            j <= width,
            width == t.width(),
            out@ == start + t.addr@.subrange(0, j as int),
        decreases width - j,
    {
        out.push(t.addr[j]);
        j = j + 1;
        assert(out@ =~= start + t.addr@.subrange(0, j as int));
    }
    push_zeros(out, 16 - width);
    assert(out@ =~= start + t.slot16());
}

/// Appends one extended record.
fn push_record(out: &mut Vec<u8>, next: u64, name_ptr: u64, t: &AddrTuple)
    ensures
        final(out)@ == old(out)@ + ext_record(next as nat, name_ptr as nat, *t),
{
    let ghost start = out@;
    push_le(out, next, 8);
    push_le(out, name_ptr, 8);
    let tag: u64 = if t.family == af::INET6 {
        af::INET6 as u64
    } else {
        af::INET as u64
    };
    push_le(out, tag, 4);
    push_slot16(out, t);
    push_zeros(out, 4);
    assert(out@ =~= start + ext_record(next as nat, name_ptr as nat, *t));
}

/// Result of the extended encoder: the report, and on success the address
/// of the first record (0 otherwise).
#[derive(Debug, Clone, Copy)]
pub struct ExtendedReply {
    pub report: Report,
    pub first: u64,
}

/// Encodes `addrs` for `name` in the extended layout into `buffer`, which
/// lies at address `base`: a chain of records, one per address in order,
/// all naming the one copy of the name at the front of the buffer.
///
/// An empty list is `NotFound`; a buffer shorter than the planned size is
/// `TryAgain`; either way the buffer is left as it was.
pub fn write_addresses4(name: &[u8], addrs: &[AddrTuple], buffer: &mut Vec<u8>, base: u64) -> (r:
    ExtendedReply)
    requires
        base + old(buffer)@.len() <= u64::MAX,
    ensures
        r.report.consistent(),
        r.report.status == encode_status(
            addrs@.len(),
            extended_size(name@.len(), addrs@.len()),
            old(buffer)@.len(),
        ),
        final(buffer)@.len() == old(buffer)@.len(),
        r.report.status == nss_status::Success ==> {
            let image = extended_image(name@, addrs@, base as nat);
            &&& final(buffer)@ == image + old(buffer)@.subrange(
                image.len() as int,
                old(buffer)@.len() as int,
            )
            &&& r.first == base + spec_align(name@.len() + 1)
        },
        r.report.status != nss_status::Success ==> final(buffer)@ == old(buffer)@ && r.first == 0,
{
    let n = addrs.len();
    if n == 0 {
        return ExtendedReply { report: Report::of(nss_status::NotFound), first: 0 };
    }
    let buflen = buffer.len();
    let planned = match extended_buffer_size(name.len(), n) {
        None => {
            return ExtendedReply { report: Report::of(nss_status::TryAgain), first: 0 };
        },
        Some(p) => p,
    };
    if buflen < planned {
        return ExtendedReply { report: Report::of(nss_status::TryAgain), first: 0 };
    }
    let ghost name_s = name@;
    let ghost addrs_s = addrs@;
    let mut image: Vec<u8> = Vec::new();
    push_name(&mut image, name);
    let first = image.len();
    assert(first == spec_align(name@.len() + 1));
    let mut i: usize = 0;
    while i < n
        invariant
            n == addrs_s.len(),
            addrs@ == addrs_s,
            i <= n,
            first + n * 40 == planned,
            planned <= old(buffer)@.len(),
            base + old(buffer)@.len() <= u64::MAX,
            image@ == name_region(name_s) + ext_records(addrs_s, base as nat, first as nat, i as nat),
        decreases n - i,
    {
        let next: u64 = if i + 1 < n {
            assert((i + 1) * 40 <= n * 40) by (nonlinear_arith)
                requires
                    i + 1 <= n,
            ;
            base + (first + (i + 1) * TUPLE_SIZE) as u64
        } else {
            0
        };
        let ghost before = image@;
        push_record(&mut image, next, base, &addrs[i]);
        i = i + 1;
        assert(image@ =~= name_region(name_s) + ext_records(addrs_s, base as nat, first as nat, i as nat));
    }
    assert(image@ =~= extended_image(name_s, addrs_s, base as nat));
    proof {
        lemma_ext_records_len(addrs_s, base as nat, first as nat, n as nat);
    }
    copy_prefix(buffer, &image);
    ExtendedReply { report: Report::of(nss_status::Success), first: base + first as u64 }
}

/// Reads back the extended record at offset `off` of `bytes`; `None` when
/// it does not fit. Each field is the little-endian value of its bytes.
pub fn read_record(bytes: &[u8], off: usize) -> (r: Option<gaih_addrtuple>)
    ensures
        r is Some <==> off + TUPLE_SIZE <= bytes@.len(),
        r matches Some(g) ==> {
            let rec = bytes@.subrange(off as int, off + TUPLE_SIZE);
            &&& g.next == read_le(rec.subrange(0, 8))
            &&& g.name == read_le(rec.subrange(8, 16))
            &&& g.family == read_le(rec.subrange(16, 20)) as u32 as i32
            &&& forall|w: int|
                0 <= w < 4 ==> g.addr@[w] == read_le(rec.subrange(20 + 4 * w, 24 + 4 * w))
            &&& g.scopeid == read_le(rec.subrange(36, 40))
        },
{
    let len = bytes.len();
    if off > len || len - off < TUPLE_SIZE {
        return None;
    }
    let ghost rec = bytes@.subrange(off as int, off + TUPLE_SIZE);
    let next = read_le_at(bytes, off, 8);
    let name = read_le_at(bytes, off + 8, 8);
    let family = read_le_at(bytes, off + 16, 4);
    let mut addr: [u32; 4] = [0u32; 4];
    let mut w: usize = 0;
    proof {
        crate::layout::lemma_read_le_bound(bytes@.subrange(off + 16, off + 20));
    }
    while w < 4
        invariant
            w <= 4,
            off + TUPLE_SIZE <= len,
            len == bytes@.len(),
            rec == bytes@.subrange(off as int, off + TUPLE_SIZE),
            forall|v: int| 0 <= v < w ==> addr@[v] == read_le(rec.subrange(20 + 4 * v, 24 + 4 * v)),
        decreases 4 - w,
    {
        let word = read_le_at(bytes, off + 20 + 4 * w, 4);
        proof {
            crate::layout::lemma_read_le_bound(bytes@.subrange(off + 20 + 4 * w, off + 24 + 4 * w));
            assert(rec.subrange(20 + 4 * w, 24 + 4 * w) =~= bytes@.subrange(
                off + 20 + 4 * w,
                off + 24 + 4 * w,
            ));
        }
        addr[w] = word as u32;
        w = w + 1;
    }
    let scopeid = read_le_at(bytes, off + 36, 4);
    proof {
        crate::layout::lemma_read_le_bound(bytes@.subrange(off + 36, off + 40));
    }
    assert(rec.subrange(0, 8) =~= bytes@.subrange(off as int, off + 8));
    assert(rec.subrange(8, 16) =~= bytes@.subrange(off + 8, off + 16));
    assert(rec.subrange(16, 20) =~= bytes@.subrange(off + 16, off + 20));
    assert(rec.subrange(36, 40) =~= bytes@.subrange(off + 36, off + 40));
    Some(
        gaih_addrtuple {
            next,
            name,
            family: family as u32 as i32,
            addr,
            scopeid: scopeid as u32,
        },
    )
}

/// The chain of `k` records is `k` records long.
pub proof fn lemma_ext_records_len(addrs: Seq<AddrTuple>, base: nat, first: nat, k: nat)
    requires
        k <= addrs.len(),
    ensures
        ext_records(addrs, base, first, k).len() == k * (TUPLE_SIZE as nat),
    decreases k,
{
    if k > 0 {
        let i = (k - 1) as nat;
        lemma_ext_records_len(addrs, base, first, i);
        lemma_ext_record_len(ext_link(base, first, addrs.len(), i), base, addrs[i as int]);
    }
}

/// One extended record is forty bytes long.
pub proof fn lemma_ext_record_len(next: nat, name_ptr: nat, t: AddrTuple)
    ensures
        ext_record(next, name_ptr, t).len() == TUPLE_SIZE,
{
    lemma_le_bytes_len(next, 8);
    lemma_le_bytes_len(name_ptr, 8);
    lemma_le_bytes_len(t.tag() as nat, 4);
}

/// One classic address slot of `s` bytes, padded to the boundary.
pub open spec fn classic_slot(t: AddrTuple, s: nat) -> Seq<u8> {
    t.addr@.subrange(0, s as int) + zeros((spec_align(s) - s) as nat)
}

/// The first `k` address slots of the classic layout.
pub open spec fn classic_slots(addrs: Seq<AddrTuple>, s: nat, k: nat) -> Seq<u8>
    decreases k,
{
    if k == 0 {
        seq![]
    } else {
        classic_slots(addrs, s, (k - 1) as nat) + classic_slot(addrs[k - 1], s)
    }
}

/// The first `k` entries of the classic address-pointer array, where the
/// slots start at address `slots_at`.
pub open spec fn classic_ptrs(slots_at: nat, s: nat, k: nat) -> Seq<u8>
    decreases k,
{
    if k == 0 {
        seq![]
    } else {
        let i = (k - 1) as nat;
        classic_ptrs(slots_at, s, i) + le_bytes(slots_at + i * spec_align(s), 8)
    }
}

/// Everything the classic layout writes for `name` and `addrs`, in the
/// requested family, into a buffer at address `base`: the name, the empty
/// alias list, the address slots and the pointer array.
pub open spec fn classic_image(name: Seq<u8>, addrs: Seq<AddrTuple>, family: i32, base: nat) -> Seq<
    u8,
> {
    let s = spec_family_address_size(family);
    let a = spec_align(name.len() + 1);
    name_region(name) + zeros(POINTER_SIZE as nat) + classic_slots(addrs, s, addrs.len())
        + classic_ptrs(base + a + POINTER_SIZE as nat, s, addrs.len())
}

/// The host record that describes `classic_image(name, addrs, family, base)`.
pub open spec fn classic_host(name: Seq<u8>, addrs: Seq<AddrTuple>, family: i32, base: nat) -> hostent {
    let s = spec_family_address_size(family);
    let a = spec_align(name.len() + 1);
    hostent {
        h_name: base as u64,
        h_aliases: (base + a) as u64,
        h_addrtype: family,
        h_length: s as i32,
        h_addr_list: (base + a + POINTER_SIZE + addrs.len() * spec_align(s)) as u64,
    }
}

/// The host record returned when nothing was written.
pub open spec fn empty_host() -> hostent {
    hostent { h_name: 0, h_aliases: 0, h_addrtype: 0, h_length: 0, h_addr_list: 0 }
}

/// Result of the classic encoder: the report, the host record, and the
/// address of the canonical name (0 when nothing was written).
#[derive(Debug, Clone, Copy)]
pub struct ClassicReply {
    pub report: Report,
    pub host: hostent,
    pub canon: u64,
}

pub(crate) fn failed_classic(status: nss_status) -> (r: ClassicReply)
    ensures
        r.report.status == status,
        r.report.consistent(),
        r.host == empty_host(),
        r.canon == 0,
{
    ClassicReply {
        report: Report::of(status),
        host: hostent { h_name: 0, h_aliases: 0, h_addrtype: 0, h_length: 0, h_addr_list: 0 },
        canon: 0,
    }
}

/// Appends one classic address slot of `s` bytes.
fn push_classic_slot(out: &mut Vec<u8>, t: &AddrTuple, s: usize)
    requires
        s == 4 || s == 16,
    ensures
        final(out)@ == old(out)@ + classic_slot(*t, s as nat),
{
    let ghost start = out@;
    let mut j: usize = 0;
    while j < s
        invariant
            j <= s,
            s <= 16,
            out@ == start + t.addr@.subrange(0, j as int),
        decreases s - j,
    {
        out.push(t.addr[j]);
        j = j + 1;
        assert(out@ =~= start + t.addr@.subrange(0, j as int));
    }
    push_zeros(out, align(s) - s);
    assert(out@ =~= start + classic_slot(*t, s as nat));
}

/// Encodes `addrs`, already restricted to the requested `family`, for
/// `name` in the classic layout into `buffer`, which lies at address `base`:
/// the name, an empty alias list, one slot per address in order and an array
/// of pointers to the slots, described by the returned host record.
///
/// An empty list is `NotFound`; a buffer shorter than the planned size is
/// `TryAgain`; either way the buffer is left as it was.
pub fn write_addresses3(
    name: &[u8],
    family: i32,
    addrs: &[AddrTuple],
    buffer: &mut Vec<u8>,
    base: u64,
) -> (r: ClassicReply)
    requires
        base + old(buffer)@.len() <= u64::MAX,
    ensures
        r.report.consistent(),
        r.report.status == encode_status(
            addrs@.len(),
            classic_size(name@.len(), addrs@.len(), spec_family_address_size(family)),
            old(buffer)@.len(),
        ),
        final(buffer)@.len() == old(buffer)@.len(),
        r.report.status == nss_status::Success ==> {
            let image = classic_image(name@, addrs@, family, base as nat);
            &&& final(buffer)@ == image + old(buffer)@.subrange(
                image.len() as int,
                old(buffer)@.len() as int,
            )
            &&& r.host == classic_host(name@, addrs@, family, base as nat)
            &&& r.canon == base
        },
        r.report.status != nss_status::Success ==> {
            &&& final(buffer)@ == old(buffer)@
            &&& r.host == empty_host()
            &&& r.canon == 0
        },
{
    let n = addrs.len();
    if n == 0 {
        return failed_classic(nss_status::NotFound);
    }
    let buflen = buffer.len();
    let planned = match classic_buffer_size(name.len(), n, family) {
        None => {
            return failed_classic(nss_status::TryAgain);
        },
        Some(p) => p,
    };
    if buflen < planned {
        return failed_classic(nss_status::TryAgain);
    }
    let ghost name_s = name@;
    let ghost addrs_s = addrs@;
    let s = family_address_size(family);
    let slot = align(s);
    let mut image: Vec<u8> = Vec::new();
    push_name(&mut image, name);
    let a = image.len();
    assert(a == spec_align(name@.len() + 1));
    push_zeros(&mut image, POINTER_SIZE);
    let ghost head = image@;
    assert(n * slot + n * 8 == n * (slot + 8)) by (nonlinear_arith);
    let mut i: usize = 0;
    while i < n
        invariant
            n == addrs_s.len(),
            addrs@ == addrs_s,
            s == spec_family_address_size(family),
            s == 4 || s == 16,
            i <= n,
            image@ == head + classic_slots(addrs_s, s as nat, i as nat),
        decreases n - i,
    {
        push_classic_slot(&mut image, &addrs[i], s);
        i = i + 1;
        assert(image@ =~= head + classic_slots(addrs_s, s as nat, i as nat));
    }
    let ghost mid = image@;
    let slots_at: u64 = base + (a + POINTER_SIZE) as u64;
    let mut i: usize = 0;
    while i < n
        invariant
            n == addrs_s.len(),
            s == spec_family_address_size(family),
            slot == spec_align(s as nat),
            i <= n,
            a + 8 + n * slot + n * 8 == planned,
            planned <= buflen,
            base + buflen <= u64::MAX,
            slots_at == base + a + 8,
            image@ == mid + classic_ptrs(slots_at as nat, s as nat, i as nat),
        decreases n - i,
    {
        assert(i * slot <= n * slot) by (nonlinear_arith)
            requires
                i <= n,
        ;
        push_le(&mut image, slots_at + (i * slot) as u64, 8);
        i = i + 1;
        assert(image@ =~= mid + classic_ptrs(slots_at as nat, s as nat, i as nat));
    }
    assert(image@ =~= classic_image(name_s, addrs_s, family, base as nat));
    proof {
        lemma_classic_image_len(name_s, addrs_s, family, base as nat);
    }
    copy_prefix(buffer, &image);
    let host = hostent {
        h_name: base,
        h_aliases: base + a as u64,
        h_addrtype: family,
        h_length: s as i32,
        h_addr_list: slots_at + (n * slot) as u64,
    };
    ClassicReply { report: Report::of(nss_status::Success), host, canon: base }
}

/// The classic image is exactly as long as the capacity planner says.
pub proof fn lemma_classic_image_len(name: Seq<u8>, addrs: Seq<AddrTuple>, family: i32, base: nat)
    ensures
        classic_image(name, addrs, family, base).len() == classic_size(
            name.len(),
            addrs.len(),
            spec_family_address_size(family),
        ),
{
    let s = spec_family_address_size(family);
    let a = spec_align(name.len() + 1);
    lemma_classic_slots_len(addrs, s, addrs.len());
    lemma_classic_ptrs_len(base + a + POINTER_SIZE as nat, s, addrs.len());
}

/// `k` classic slots take `k` aligned slot sizes.
pub proof fn lemma_classic_slots_len(addrs: Seq<AddrTuple>, s: nat, k: nat)
    requires
        k <= addrs.len(),
        s == 4 || s == 16,
    ensures
        classic_slots(addrs, s, k).len() == k * spec_align(s),
    decreases k,
{
    if k > 0 {
        lemma_classic_slots_len(addrs, s, (k - 1) as nat);
        assert((k - 1) * spec_align(s) + spec_align(s) == k * spec_align(s)) by (nonlinear_arith);
    }
}

/// `k` pointer-array entries take `k` pointer sizes.
pub proof fn lemma_classic_ptrs_len(slots_at: nat, s: nat, k: nat)
    ensures
        classic_ptrs(slots_at, s, k).len() == k * (POINTER_SIZE as nat),
    decreases k,
{
    if k > 0 {
        let i = (k - 1) as nat;
        lemma_classic_ptrs_len(slots_at, s, i);
        lemma_le_bytes_len(slots_at + i * spec_align(s), 8);
    }
}

} // verus!
