use wisp_core::ip::IpAddress;
use wisp_core::ip::Ipv4Address;
use wisp_core::ip::Ipv6Address;
use wisp_core::ip::parse_ip;
use wisp_core::ip::parse_ipv4;
use wisp_core::ip::parse_ipv6;

fn v4(o0: u8, o1: u8, o2: u8, o3: u8) -> Ipv4Address {
    Ipv4Address { o0, o1, o2, o3 }
}

fn v6(s: [u16; 8]) -> Ipv6Address {
    Ipv6Address { s0: s[0], s1: s[1], s2: s[2], s3: s[3], s4: s[4], s5: s[5], s6: s[6], s7: s[7] }
}

#[test]
fn parse_ipv4_literals() {
    assert_eq!(parse_ipv4(b"127.0.0.1"), Some(v4(127, 0, 0, 1)));
    assert_eq!(parse_ipv4(b"10.0.0.5"), Some(v4(10, 0, 0, 5)));
    assert_eq!(parse_ipv4(b"93.184.216.34"), Some(v4(93, 184, 216, 34)));
    assert_eq!(parse_ipv4(b"255.255.255.255"), Some(v4(255, 255, 255, 255)));
    assert_eq!(parse_ipv4(b"0.0.0.0"), Some(v4(0, 0, 0, 0)));
}

#[test]
fn reject_bad_ipv4() {
    assert_eq!(parse_ipv4(b""), None);
    assert_eq!(parse_ipv4(b"1.2.3"), None);
    assert_eq!(parse_ipv4(b"1.2.3.4.5"), None);
    assert_eq!(parse_ipv4(b"256.1.1.1"), None);
    assert_eq!(parse_ipv4(b"01.2.3.4"), None);
    assert_eq!(parse_ipv4(b"1.2.3."), None);
    assert_eq!(parse_ipv4(b"1.2.3.x"), None);
    assert_eq!(parse_ipv4(b"example.com"), None);
}

#[test]
fn parse_ipv6_literals() {
    assert_eq!(parse_ipv6(b"::1"), Some(v6([0, 0, 0, 0, 0, 0, 0, 1])));
    assert_eq!(parse_ipv6(b"::"), Some(v6([0; 8])));
    assert_eq!(parse_ipv6(b"fe80::1"), Some(v6([0xfe80, 0, 0, 0, 0, 0, 0, 1])));
    assert_eq!(parse_ipv6(b"fc00::"), Some(v6([0xfc00, 0, 0, 0, 0, 0, 0, 0])));
    assert_eq!(
        parse_ipv6(b"2001:db8::8a2e:370:7334"),
        Some(v6([0x2001, 0x0db8, 0, 0, 0, 0x8a2e, 0x0370, 0x7334]))
    );
    assert_eq!(
        parse_ipv6(b"1:2:3:4:5:6:7:8"),
        Some(v6([1, 2, 3, 4, 5, 6, 7, 8]))
    );
    assert_eq!(parse_ipv6(b"1::"), Some(v6([1, 0, 0, 0, 0, 0, 0, 0])));
    assert_eq!(parse_ipv6(b"1:2::3"), Some(v6([1, 2, 0, 0, 0, 0, 0, 3])));
    assert_eq!(parse_ipv6(b"ABCD::ef01"), Some(v6([0xabcd, 0, 0, 0, 0, 0, 0, 0xef01])));
}

#[test]
fn reject_bad_ipv6() {
    assert_eq!(parse_ipv6(b""), None);
    assert_eq!(parse_ipv6(b":"), None);
    assert_eq!(parse_ipv6(b":::"), None);
    assert_eq!(parse_ipv6(b"1:2"), None);
    assert_eq!(parse_ipv6(b"1:2:3:4:5:6:7"), None);
    assert_eq!(parse_ipv6(b"1:2:3:4:5:6:7:8:9"), None);
    assert_eq!(parse_ipv6(b"1::2::3"), None);
    assert_eq!(parse_ipv6(b"12345::"), None);
    assert_eq!(parse_ipv6(b"g::1"), None);
    assert_eq!(parse_ipv6(b":1:2:3:4:5:6:7"), None);
    assert_eq!(parse_ipv6(b"1:2:3:4:5:6:7:"), None);
}

#[test]
fn parse_ip_prefers_ipv4_then_ipv6() {
    assert_eq!(parse_ip(b"127.0.0.1"), Some(IpAddress::V4(v4(127, 0, 0, 1))));
    assert_eq!(parse_ip(b"::1"), Some(IpAddress::V6(v6([0, 0, 0, 0, 0, 0, 0, 1]))));
    assert_eq!(parse_ip(b"example.com"), None);
    assert_eq!(parse_ip(b""), None);
}

#[test]
fn loopback_classification() {
    assert!(IpAddress::V4(v4(127, 0, 0, 1)).is_loopback());
    assert!(IpAddress::V4(v4(127, 255, 0, 7)).is_loopback());
    assert!(!IpAddress::V4(v4(128, 0, 0, 1)).is_loopback());
    assert!(IpAddress::V6(v6([0, 0, 0, 0, 0, 0, 0, 1])).is_loopback());
    assert!(!IpAddress::V6(v6([0, 0, 0, 0, 0, 0, 0, 2])).is_loopback());
}

#[test]
fn private_classification() {
    assert!(IpAddress::V4(v4(10, 1, 2, 3)).is_private());
    assert!(IpAddress::V4(v4(172, 16, 0, 1)).is_private());
    assert!(IpAddress::V4(v4(172, 31, 255, 255)).is_private());
    assert!(!IpAddress::V4(v4(172, 32, 0, 1)).is_private());
    assert!(IpAddress::V4(v4(192, 168, 1, 1)).is_private());
    assert!(IpAddress::V4(v4(169, 254, 0, 1)).is_private());
    assert!(IpAddress::V4(v4(127, 0, 0, 1)).is_private());
    assert!(!IpAddress::V4(v4(93, 184, 216, 34)).is_private());
    assert!(IpAddress::V6(v6([0, 0, 0, 0, 0, 0, 0, 1])).is_private());
    assert!(IpAddress::V6(v6([0xfc00, 0, 0, 0, 0, 0, 0, 1])).is_private());
    assert!(IpAddress::V6(v6([0xfdff, 0, 0, 0, 0, 0, 0, 1])).is_private());
    assert!(IpAddress::V6(v6([0xfe80, 0, 0, 0, 0, 0, 0, 1])).is_private());
    assert!(IpAddress::V6(v6([0xfebf, 0, 0, 0, 0, 0, 0, 1])).is_private());
    assert!(!IpAddress::V6(v6([0x2001, 0x0db8, 0, 0, 0, 0, 0, 1])).is_private());
}
