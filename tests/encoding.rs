use nss_dnsoverhttps::entry::{fallback_family, filter_family, lookup_classic, lookup_extended, FIRST_FAMILY};
use nss_dnsoverhttps::layout::{align, classic_buffer_size, extended_buffer_size, family_address_size};
use nss_dnsoverhttps::status::Report;
use nss_dnsoverhttps::write::{read_record, write_addresses3, write_addresses4};
use nss_dnsoverhttps::{nss_status, AddrTuple};

const V6: [u8; 16] = [
    0x26, 0x06, 0x28, 0x00, 0x02, 0x20, 0x00, 0x01, 0x02, 0x48, 0x18, 0x93, 0x25, 0xc8, 0x19,
    0x46,
];
const V4: [u8; 4] = [93, 184, 216, 34];

fn answer() -> Vec<AddrTuple> {
    vec![AddrTuple::from_v6(V6), AddrTuple::from_v4(V4)]
}

fn word_at(buf: &[u8], off: usize) -> u64 {
    let mut b = [0u8; 8];
    b.copy_from_slice(&buf[off..off + 8]);
    u64::from_le_bytes(b)
}

#[test]
fn align_rounds_up_to_eight() {
    assert_eq!(0, align(0));
    assert_eq!(8, align(1));
    assert_eq!(8, align(8));
    assert_eq!(16, align(9));
    assert_eq!(16, align(12));
}

#[test]
fn address_size_per_family() {
    assert_eq!(16, family_address_size(10));
    assert_eq!(4, family_address_size(2));
    assert_eq!(4, family_address_size(0));
}

#[test]
fn planner_sizes() {
    // "example.com": 11 bytes, 12 with the terminator, 16 aligned.
    assert_eq!(Some(96), extended_buffer_size(11, 2));
    assert_eq!(Some(16), extended_buffer_size(11, 0));
    assert_eq!(Some(48), classic_buffer_size(11, 1, 10));
    assert_eq!(Some(40), classic_buffer_size(11, 1, 2));
    assert_eq!(Some(56), classic_buffer_size(11, 2, 2));
    assert_eq!(None, extended_buffer_size(usize::MAX, 1));
    assert_eq!(None, extended_buffer_size(11, usize::MAX));
    assert_eq!(None, classic_buffer_size(11, usize::MAX, 10));
}

#[test]
fn extended_capacity_threshold() {
    let name = b"example.com";
    let planned = extended_buffer_size(name.len(), 2).unwrap();
    let mut buf = vec![0u8; planned];
    let base = buf.as_ptr() as u64;
    assert_eq!(nss_status::Success, write_addresses4(name, &answer(), &mut buf, base).report.status);
    let mut small = vec![0xaau8; planned - 1];
    let base = small.as_ptr() as u64;
    let r = write_addresses4(name, &answer(), &mut small, base);
    assert_eq!(nss_status::TryAgain, r.report.status);
    assert_eq!((34, -1), (r.report.errno, r.report.h_errno));
    assert!(small.iter().all(|b| *b == 0xaa));
}

#[test]
fn classic_capacity_threshold() {
    let name = b"example.com";
    let only_v6 = vec![AddrTuple::from_v6(V6)];
    let planned = classic_buffer_size(name.len(), 1, 10).unwrap();
    let mut buf = vec![0u8; planned];
    let base = buf.as_ptr() as u64;
    assert_eq!(nss_status::Success, write_addresses3(name, 10, &only_v6, &mut buf, base).report.status);
    let mut small = vec![0u8; planned - 1];
    let base = small.as_ptr() as u64;
    let r = write_addresses3(name, 10, &only_v6, &mut small, base);
    assert_eq!(nss_status::TryAgain, r.report.status);
    assert_eq!(0, r.canon);
}

#[test]
fn extended_chain_in_order() {
    let name = b"example.com";
    let mut buf = vec![0xffu8; 200];
    let base = buf.as_ptr() as u64;
    let r = write_addresses4(name, &answer(), &mut buf, base);
    assert_eq!(nss_status::Success, r.report.status);
    assert_eq!(&buf[0..11], &name[..]);
    assert_eq!(0, buf[11]);
    assert_eq!(base + 16, r.first);
    let a = read_record(&buf, 16).unwrap();
    assert_eq!(base + 56, a.next);
    assert_eq!(base, a.name);
    assert_eq!(10, a.family);
    assert_eq!(0, a.scopeid);
    let b = read_record(&buf, 56).unwrap();
    assert_eq!(0, b.next);
    assert_eq!(base, b.name);
    assert_eq!(2, b.family);
    assert_eq!([u32::from_le_bytes(V4), 0, 0, 0], b.addr);
    // Nothing past the planned size is touched.
    assert!(buf[96..].iter().all(|x| *x == 0xff));
}

#[test]
fn classic_layout_bytes() {
    let name = b"example.com";
    let mut buf = vec![0xffu8; 100];
    let base = buf.as_ptr() as u64;
    let v4s = vec![AddrTuple::from_v4(V4), AddrTuple::from_v4([10, 0, 0, 1])];
    let r = write_addresses3(name, 2, &v4s, &mut buf, base);
    assert_eq!(nss_status::Success, r.report.status);
    assert_eq!(base, r.host.h_name);
    assert_eq!(base, r.canon);
    assert_eq!(base + 16, r.host.h_aliases);
    assert_eq!(0, word_at(&buf, 16));
    assert_eq!(base + 40, r.host.h_addr_list);
    assert_eq!(base + 24, word_at(&buf, 40));
    assert_eq!(base + 32, word_at(&buf, 48));
    assert_eq!(&V4[..], &buf[24..28]);
    assert_eq!(&[10u8, 0, 0, 1][..], &buf[32..36]);
    assert!(buf[56..].iter().all(|x| *x == 0xff));
}

#[test]
fn resolver_failure_is_unavail() {
    let mut buf = vec![0u8; 64];
    let base = buf.as_ptr() as u64;
    let r = lookup_classic(b"example.com", 10, None, &mut buf, base);
    assert_eq!(nss_status::Unavail, r.report.status);
    assert_eq!((22, 3), (r.report.errno, r.report.h_errno));
    let e = lookup_extended(b"example.com", None, &mut buf, base);
    assert_eq!(nss_status::Unavail, e.report.status);
    assert_eq!((22, 3), (e.report.errno, e.report.h_errno));
    assert_eq!(0, e.first);
}

#[test]
fn empty_answer_not_found_any_family() {
    for family in [2, 10, 0] {
        let mut buf = vec![0u8; 1024];
        let base = buf.as_ptr() as u64;
        let r = lookup_classic(b"foobarfoo", family, Some(Vec::new()), &mut buf, base);
        assert_eq!(nss_status::NotFound, r.report.status);
        assert_eq!((3, 3), (r.report.errno, r.report.h_errno));
    }
}

#[test]
fn family_filter_keeps_order() {
    let list = vec![
        AddrTuple::from_v4([1, 1, 1, 1]),
        AddrTuple::from_v6(V6),
        AddrTuple::from_v4([2, 2, 2, 2]),
    ];
    let v4 = filter_family(&list, 2);
    assert_eq!(2, v4.len());
    assert_eq!([1, 1, 1, 1], v4[0].addr[0..4]);
    assert_eq!([2, 2, 2, 2], v4[1].addr[0..4]);
    let v6 = filter_family(&list, 10);
    assert_eq!(1, v6.len());
    assert_eq!(V6, v6[0].addr);
    assert_eq!(3, filter_family(&list, 0).len());
}

#[test]
fn v4_only_answer_for_v6_request_is_not_found() {
    let mut buf = vec![0u8; 1024];
    let base = buf.as_ptr() as u64;
    let list = vec![AddrTuple::from_v4(V4)];
    let r = lookup_classic(b"example.com", 10, Some(list), &mut buf, base);
    assert_eq!(nss_status::NotFound, r.report.status);
}

#[test]
fn fallback_only_after_not_found() {
    assert_eq!(10, FIRST_FAMILY);
    assert_eq!(Some(2), fallback_family(nss_status::NotFound));
    assert_eq!(None, fallback_family(nss_status::Unavail));
    assert_eq!(None, fallback_family(nss_status::TryAgain));
    assert_eq!(None, fallback_family(nss_status::Success));
}

#[test]
fn v4_tuple_is_zero_padded() {
    let t = AddrTuple::from_v4(V4);
    assert_eq!(2, t.family);
    assert_eq!([93, 184, 216, 34, 0, 0, 0, 0, 0, 0, 0, 0, 0, 0, 0, 0], t.addr);
    let u = AddrTuple::from_v6(V6);
    assert_eq!(10, u.family);
}

#[test]
fn record_reader_bounds() {
    let buf = vec![0u8; 40];
    assert!(read_record(&buf, 0).is_some());
    assert!(read_record(&buf, 1).is_none());
    assert!(read_record(&buf, 41).is_none());
}

#[test]
fn reports_carry_their_pairs() {
    let r = Report::of(nss_status::Success);
    assert_eq!((0, 0), (r.errno, r.h_errno));
    let r = Report::of(nss_status::TryAgain);
    assert_eq!((34, -1), (r.errno, r.h_errno));
}
