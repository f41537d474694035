use nss_dnsoverhttps::entry::lookup_extended;
use nss_dnsoverhttps::write::read_record;
use nss_dnsoverhttps::{nss_status, AddrTuple};

const EXAMPLE_V6: [u8; 16] = [
    0x26, 0x06, 0x28, 0x00, 0x02, 0x20, 0x00, 0x01, 0x02, 0x48, 0x18, 0x93, 0x25, 0xc8, 0x19,
    0x46,
];
const EXAMPLE_V4: [u8; 4] = [93, 184, 216, 34];

fn words_to_bytes(words: [u32; 4]) -> [u8; 16] {
    let mut out = [0u8; 16];
    for (i, w) in words.iter().enumerate() {
        out[4 * i..4 * i + 4].copy_from_slice(&w.to_le_bytes());
    }
    out
}

#[test]
fn resolves() {
    let name = b"example.com";
    let buflen = 1024;
    let mut buf: Vec<u8> = vec![0u8; buflen];
    let base = buf.as_ptr() as u64;
    let answer = vec![AddrTuple::from_v6(EXAMPLE_V6), AddrTuple::from_v4(EXAMPLE_V4)];
    let r = lookup_extended(name, Some(answer), &mut buf, base);
    assert_eq!(nss_status::Success, r.report.status);
    assert_eq!(0, r.report.errno);
    assert_eq!(0, r.report.h_errno);

    let first = read_record(&buf, (r.first - base) as usize).unwrap();
    {
        assert_eq!(10, first.family);
        let ip = words_to_bytes(first.addr);
        assert_eq!(EXAMPLE_V6, ip);
    }

    let next = read_record(&buf, (first.next - base) as usize).unwrap();
    {
        assert_eq!(2, next.family);
        let ip = words_to_bytes(next.addr);
        assert_eq!(EXAMPLE_V4, ip[0..4]);
    }
}

#[test]
fn gethostbyname4_resolves_nonexistent() {
    let name = b"foobarfoo";
    let buflen = 1024;
    let mut buf: Vec<u8> = vec![0u8; buflen];
    let base = buf.as_ptr() as u64;
    let r = lookup_extended(name, Some(Vec::new()), &mut buf, base);
    assert_eq!(nss_status::NotFound, r.report.status);
    assert_eq!(3, r.report.errno);
    assert_eq!(3, r.report.h_errno);
}

#[test]
fn gethostbyname4_resolves_smallbuffer() {
    let name = b"google.com";
    let buflen = 32;
    let mut buf: Vec<u8> = vec![0u8; buflen];
    let base = buf.as_ptr() as u64;
    let answer = vec![
        AddrTuple::from_v6([0x2a, 0x00, 0x14, 0x50, 0x40, 0x01, 0x08, 0x2a, 0, 0, 0, 0, 0, 0, 0x20, 0x0e]),
        AddrTuple::from_v4([142, 250, 185, 78]),
    ];
    let r = lookup_extended(name, Some(answer), &mut buf, base);
    assert_eq!(nss_status::TryAgain, r.report.status);
    assert_eq!(34, r.report.errno);
    assert_eq!(-1, r.report.h_errno);
}
