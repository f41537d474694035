//! Byte-level vocabulary of the two layouts: alignment, the capacity planner
//! and little-endian words.
use vstd::prelude::*;
use vstd::arithmetic::power::pow;
use crate::consts::af;

verus! {

/// Boundary every region of the buffer starts on: the alignment of the
/// pointer-bearing records the host runtime reads.
pub const ALIGNMENT: usize = 8;

/// Size of an address (a pointer) in the host runtime.
pub const POINTER_SIZE: usize = 8;

/// Size of one extended-layout record: two links, the family, a 16-byte
/// address slot and the scope id.
pub const TUPLE_SIZE: usize = 40;

/// Bytes the extended layout needs for a name of `l` bytes and `n`
/// addresses: the aligned name with its terminator, then one aligned record
/// per address.
pub open spec fn extended_size(l: nat, n: nat) -> nat {
    spec_align(l + 1) + n * spec_align(TUPLE_SIZE as nat)
}

/// Bytes the classic layout needs for a name of `l` bytes and `n` addresses
/// of `s` bytes each: the aligned name with its terminator, the empty alias
/// list's terminating pointer, one aligned slot per address, and one pointer
/// per address.
pub open spec fn classic_size(l: nat, n: nat, s: nat) -> nat {
    spec_align(l + 1) + POINTER_SIZE as nat + n * spec_align(s) + n * (POINTER_SIZE as nat)
}

proof fn lemma_align_past_max(l: nat)
    requires
        l + 8 > usize::MAX,
    ensures
        spec_align(l + 1) > usize::MAX,
{
    let m: int = usize::MAX as int + 1;
    assert(m == 0x1_0000_0000_0000_0000 || m == 0x1_0000_0000);
    assert(spec_align(l + 1) >= m) by (nonlinear_arith)
        requires
            l + 8 >= m,
            m == 0x1_0000_0000_0000_0000 || m == 0x1_0000_0000,
    ;
}

/// Plans the extended layout; `None` when the size does not fit in `usize`.
pub fn extended_buffer_size(name_len: usize, count: usize) -> (r: Option<usize>)
    ensures
        r is Some <==> extended_size(name_len as nat, count as nat) <= usize::MAX,
        r matches Some(x) ==> x == extended_size(name_len as nat, count as nat),
{
    if name_len > usize::MAX - 8 {
        proof {
            lemma_align_past_max(name_len as nat);
        }
        return None;
    }
    let a = align(name_len + 1);
    let rec = align(TUPLE_SIZE);
    match count.checked_mul(rec) {
        None => None,
        Some(m) => a.checked_add(m),
    }
}

/// Plans the classic layout for the requested family; `None` when the size
/// does not fit in `usize`.
pub fn classic_buffer_size(name_len: usize, count: usize, family: i32) -> (r: Option<usize>)
    ensures
        r is Some <==> classic_size(
            name_len as nat,
            count as nat,
            spec_family_address_size(family),
        ) <= usize::MAX,
        r matches Some(x) ==> x == classic_size(
            name_len as nat,
            count as nat,
            spec_family_address_size(family),
        ),
{
    let ghost n = count as nat;
    let ghost s = spec_family_address_size(family);
    if name_len > usize::MAX - 8 {
        proof {
            lemma_align_past_max(name_len as nat);
        }
        return None;
    }
    let a = align(name_len + 1);
    let slot = align(family_address_size(family));
    let per = slot + POINTER_SIZE;
    assert(n * spec_align(s) + n * 8 == n * (spec_align(s) + 8)) by (nonlinear_arith);
    if a > usize::MAX - POINTER_SIZE {
        return None;
    }
    match count.checked_mul(per) {
        None => None,
        Some(m) => (a + POINTER_SIZE).checked_add(m),
    }
}

/// `k` zero bytes.
pub open spec fn zeros(k: nat) -> Seq<u8> {
    Seq::new(k, |i: int| 0u8)
}

/// `l` rounded up to the next multiple of the alignment.
pub open spec fn spec_align(l: nat) -> nat {
    (((l + ALIGNMENT as nat - 1) / ALIGNMENT as int) * ALIGNMENT as int) as nat
}

/// Rounds a byte count up to the alignment boundary.
pub fn align(l: usize) -> (r: usize)
    requires
        l + (ALIGNMENT - 1) <= usize::MAX,
    ensures
        r == spec_align(l as nat),
{
    (l + (ALIGNMENT - 1)) / ALIGNMENT * ALIGNMENT
}

/// Address-slot size of a requested family: 16 for IPv6, 4 otherwise.
pub open spec fn spec_family_address_size(family: i32) -> nat {
    if family == af::INET6 { 16 } else { 4 }
}

pub fn family_address_size(family: i32) -> (r: usize)
    ensures
        r == spec_family_address_size(family),
{
    if family == af::INET6 {
        16
    } else {
        4
    }
}

/// The `k` low bytes of `v`, least significant first.
pub open spec fn le_bytes(v: nat, k: nat) -> Seq<u8>
    decreases k,
{
    if k == 0 {
        seq![]
    } else {
        seq![(v % 256) as u8] + le_bytes(v / 256, (k - 1) as nat)
    }
}

/// `le_bytes(v, k)` holds `k` bytes.
pub proof fn lemma_le_bytes_len(v: nat, k: nat)
    ensures
        le_bytes(v, k).len() == k,
    decreases k,
{
    if k > 0 {
        lemma_le_bytes_len(v / 256, (k - 1) as nat);
    }
}

/// The number that little-endian bytes spell.
pub open spec fn read_le(s: Seq<u8>) -> nat
    decreases s.len(),
{
    if s.len() == 0 {
        0
    } else {
        s[0] as nat + 256 * read_le(s.drop_first())
    }
}

/// Reading back `k` little-endian bytes gives the value written, when it fits.
pub proof fn lemma_read_le_bytes(v: nat, k: nat)
    requires
        v < pow(256, k),
    ensures
        le_bytes(v, k).len() == k,
        read_le(le_bytes(v, k)) == v,
    decreases k,
{
    if k == 0 {
        reveal(pow);
    } else {
        reveal(pow);
        let km1 = (k - 1) as nat;
        assert(pow(256, k) == 256 * pow(256, km1));
        assert(v / 256 < pow(256, km1)) by (nonlinear_arith)
            requires
                v < 256 * pow(256, km1),
        ;
        lemma_read_le_bytes(v / 256, km1);
        let s = le_bytes(v, k);
        assert(s.drop_first() =~= le_bytes(v / 256, km1));
        assert(v == v % 256 + 256 * (v / 256)) by (nonlinear_arith);
    }
}

/// Reads the `k` little-endian bytes at `off`, with `k` at most 8.
pub fn read_le_at(bytes: &[u8], off: usize, k: usize) -> (r: u64)
    requires
        k <= 8,
        off + k <= bytes@.len(),
    ensures
        r == read_le(bytes@.subrange(off as int, off + k)),
{
    let ghost s = bytes@.subrange(off as int, off + k);
    let len = bytes.len();
    let mut acc: u64 = 0;
    let mut j: usize = k;
    proof {
        reveal(pow);
    }
    while j > 0
        invariant
            j <= k <= 8,
            off + k <= len,
            len == bytes@.len(),
            s == bytes@.subrange(off as int, off + k),
            acc == read_le(s.subrange(j as int, k as int)),
            acc < pow(256, (k - j) as nat),
        decreases j,
    {
        let ghost tail = s.subrange(j as int, k as int);
        j = j - 1;
        let b = bytes[off + j];
        let ghost e = (k - j - 1) as nat;
        proof {
            reveal(pow);
            lemma_pow_256_le_2_56(e);
            assert(pow(256, e + 1) == 256 * pow(256, e));
            assert(acc * 256 + b < 256 * pow(256, e)) by (nonlinear_arith)
                requires
                    acc < pow(256, e),
                    b < 256,
            ;
            assert(s.subrange(j as int, k as int).drop_first() =~= tail);
        }
        acc = acc * 256 + b as u64;
        assert(acc == read_le(s.subrange(j as int, k as int)));
    }
    assert(s.subrange(0, k as int) =~= s);
    acc
}

proof fn lemma_pow_256_le_2_56(e: nat)
    requires
        e <= 7,
    ensures
        pow(256, e) <= 0x100_0000_0000_0000,
        pow(256, e) > 0,
{
    reveal_with_fuel(pow, 8);
    if e == 0 {
    } else if e == 1 {
    } else if e == 2 {
    } else if e == 3 {
    } else if e == 4 {
    } else if e == 5 {
    } else if e == 6 {
    } else {
    }
}

/// Four bytes spell a number below 2^32.
pub proof fn lemma_read_le_bound(s: Seq<u8>)
    requires
        s.len() == 4,
    ensures
        read_le(s) < 0x1_0000_0000,
{
    let s1 = s.drop_first();
    let s2 = s1.drop_first();
    let s3 = s2.drop_first();
    let s4 = s3.drop_first();
    assert(read_le(s4) == 0);
    assert(read_le(s3) < 256);
    assert(read_le(s2) < 0x1_0000);
    assert(read_le(s1) < 0x100_0000);
}

/// The bytes a name occupies: the name, its terminator, and zero padding up
/// to the alignment boundary.
pub open spec fn name_region(name: Seq<u8>) -> Seq<u8> {
    name + seq![0u8] + zeros((spec_align(name.len() + 1) - (name.len() + 1)) as nat)
}

/// Appends `k` zero bytes.
pub fn push_zeros(out: &mut Vec<u8>, k: usize)
    ensures
        final(out)@ == old(out)@ + zeros(k as nat),
{
    let ghost start = out@;
    let mut i: usize = 0;
    while i < k
        invariant
            i <= k,
            out@ == start + zeros(i as nat),
        decreases k - i,
    {
        out.push(0u8);
        i = i + 1;
        assert(out@ =~= start + zeros(i as nat));
    }
}

/// Appends the `k` low bytes of `v`, least significant first.
pub fn push_le(out: &mut Vec<u8>, v: u64, k: usize)
    ensures
        final(out)@ == old(out)@ + le_bytes(v as nat, k as nat),
{
    let ghost target = out@ + le_bytes(v as nat, k as nat);
    let mut cur: u64 = v;
    let mut i: usize = 0;
    while i < k
        invariant
            i <= k,
            out@ + le_bytes(cur as nat, (k - i) as nat) == target,
        decreases k - i,
    {
        let ghost before = out@;
        let ghost rest = le_bytes((cur / 256) as nat, (k - i - 1) as nat);
        assert(le_bytes(cur as nat, (k - i) as nat) == seq![(cur % 256) as u8] + rest);
        out.push((cur % 256) as u8);
        cur = cur / 256;
        i = i + 1;
        assert(out@ + rest =~= before + (seq![out@.last()] + rest));
        assert(out@ + le_bytes(cur as nat, (k - i) as nat) =~= target);
    }
    assert(le_bytes(cur as nat, 0) =~= seq![]);
    assert(out@ =~= target);
}

/// Copies `src` over the front of `buffer`, leaving the rest and the length
/// as they were.
pub fn copy_prefix(buffer: &mut Vec<u8>, src: &Vec<u8>)
    requires
        src@.len() <= old(buffer)@.len(),
    ensures
        final(buffer)@ == src@ + old(buffer)@.subrange(src@.len() as int, old(buffer)@.len() as int),
{
    let ghost start = buffer@;
    let mut i: usize = 0;
    while i < src.len()
        invariant
            i <= src@.len(),
            src@.len() <= start.len(),
            buffer@.len() == start.len(),
            forall|j: int| 0 <= j < i ==> buffer@[j] == src@[j],
            forall|j: int| i <= j < start.len() ==> buffer@[j] == start[j],
        decreases src@.len() - i,
    {
        buffer[i] = src[i];
        i = i + 1;
    }
    assert(buffer@ =~= src@ + start.subrange(src@.len() as int, start.len() as int));
}

} // verus!
