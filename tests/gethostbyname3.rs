use nss_dnsoverhttps::entry::lookup_classic;
use nss_dnsoverhttps::{nss_status, AddrTuple};

const EXAMPLE_V6: [u8; 16] = [
    0x26, 0x06, 0x28, 0x00, 0x02, 0x20, 0x00, 0x01, 0x02, 0x48, 0x18, 0x93, 0x25, 0xc8, 0x19,
    0x46,
];
const EXAMPLE_V4: [u8; 4] = [93, 184, 216, 34];

fn example_answer() -> Vec<AddrTuple> {
    vec![AddrTuple::from_v6(EXAMPLE_V6), AddrTuple::from_v4(EXAMPLE_V4)]
}

fn word_at(buf: &[u8], off: usize) -> u64 {
    let mut b = [0u8; 8];
    b.copy_from_slice(&buf[off..off + 8]);
    u64::from_le_bytes(b)
}

#[test]
fn resolves_v6() {
    let name = b"example.com";
    let buflen = 1024;
    let mut buf: Vec<u8> = vec![0u8; buflen];
    let base = buf.as_ptr() as u64;
    let r = lookup_classic(name, 10, Some(example_answer()), &mut buf, base);
    assert_eq!(nss_status::Success, r.report.status);
    assert_eq!(0, r.report.errno);
    assert_eq!(0, r.report.h_errno);
    assert_eq!(10, r.host.h_addrtype);
    assert_eq!(16, r.host.h_length);
    let src = word_at(&buf, (r.host.h_addr_list - base) as usize);
    let at = (src - base) as usize;
    let mut ip = [0u8; 16];
    ip.copy_from_slice(&buf[at..at + 16]);
    assert_eq!(EXAMPLE_V6, ip);
}

#[test]
fn resolves_v4() {
    let name = b"example.com";
    let buflen = 1024;
    let mut buf: Vec<u8> = vec![0u8; buflen];
    let base = buf.as_ptr() as u64;
    let r = lookup_classic(name, 2, Some(example_answer()), &mut buf, base);
    assert_eq!(nss_status::Success, r.report.status);
    assert_eq!(0, r.report.errno);
    assert_eq!(0, r.report.h_errno);
    assert_eq!(2, r.host.h_addrtype);
    assert_eq!(4, r.host.h_length);
    let src = word_at(&buf, (r.host.h_addr_list - base) as usize);
    let at = (src - base) as usize;
    let mut ip = [0u8; 4];
    ip.copy_from_slice(&buf[at..at + 4]);
    assert_eq!(EXAMPLE_V4, ip);
}

#[test]
fn gethostbyname3_resolves_nonexistent() {
    let name = b"foobarfoo";
    let buflen = 1024;
    let mut buf: Vec<u8> = vec![0u8; buflen];
    let base = buf.as_ptr() as u64;
    let r = lookup_classic(name, 10, Some(Vec::new()), &mut buf, base);
    assert_eq!(nss_status::NotFound, r.report.status);
    assert_eq!(3, r.report.errno);
    assert_eq!(3, r.report.h_errno);
    assert!(buf.iter().all(|b| *b == 0));
}

#[test]
fn gethostbyname3_resolves_smallbuffer() {
    let name = b"google.com";
    let buflen = 32;
    let mut buf: Vec<u8> = vec![0u8; buflen];
    let base = buf.as_ptr() as u64;
    let answer = vec![
        AddrTuple::from_v6([0x2a, 0x00, 0x14, 0x50, 0x40, 0x01, 0x08, 0x2a, 0, 0, 0, 0, 0, 0, 0x20, 0x0e]),
        AddrTuple::from_v4([142, 250, 185, 78]),
    ];
    let r = lookup_classic(name, 10, Some(answer), &mut buf, base);
    assert_eq!(nss_status::TryAgain, r.report.status);
    assert_eq!(34, r.report.errno);
    assert_eq!(-1, r.report.h_errno);
}
