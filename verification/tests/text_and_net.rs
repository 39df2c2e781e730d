use terracotta::net::{IpAddr, Ipv4Addr, Ipv6Addr, SocketAddr};
use terracotta::text::{parse_decimal, push_decimal, push_hexadecimal, to_text};

fn v6(segments: [u16; 8]) -> String {
    let mut out = Vec::new();
    Ipv6Addr::new(segments).write_text(&mut out);
    String::from_utf8(out).unwrap()
}

fn socket(addr: SocketAddr) -> String {
    let mut out = Vec::new();
    addr.write_text(&mut out);
    String::from_utf8(out).unwrap()
}

#[test]
fn decimal_numerals() {
    for (n, text) in [(0u64, "0"), (7, "7"), (10, "10"), (25565, "25565"), (65535, "65535"),
        (18446744073709551615, "18446744073709551615")] {
        let mut out = b"=".to_vec();
        push_decimal(&mut out, n);
        assert_eq!(String::from_utf8(out).unwrap(), format!("={}", text));
    }
}

#[test]
fn hexadecimal_numerals() {
    for (n, text) in [(0u64, "0"), (9, "9"), (10, "a"), (15, "f"), (16, "10"), (0x230, "230"),
        (0xff75, "ff75"), (0xffff, "ffff"), (u64::MAX, "ffffffffffffffff")] {
        let mut out = Vec::new();
        push_hexadecimal(&mut out, n);
        assert_eq!(String::from_utf8(out).unwrap(), text);
    }
}

#[test]
fn decimal_numerals_agree_with_the_standard_library() {
    for n in (0..=70000u64).chain([99999, 100000, 4294967295, 4294967296]) {
        let mut out = Vec::new();
        push_decimal(&mut out, n);
        assert_eq!(String::from_utf8(out).unwrap(), n.to_string());
    }
}

#[test]
fn reading_decimal_numerals() {
    let bytes = b"[AD]25565[/AD]".to_vec();
    assert_eq!(parse_decimal(&bytes, 4, 9, 65535), Some(25565));
    assert_eq!(parse_decimal(&bytes, 4, 8, 65535), Some(2556));
    assert_eq!(parse_decimal(&bytes, 4, 4, 65535), None);
    assert_eq!(parse_decimal(&bytes, 3, 9, 65535), None);
    assert_eq!(parse_decimal(&bytes, 4, 10, 65535), None);
    assert_eq!(parse_decimal(&bytes, 9, 4, 65535), None);
    assert_eq!(parse_decimal(&bytes, 4, 99, 65535), None);
    assert_eq!(parse_decimal(&bytes, 4, 9, 25564), None);
    assert_eq!(parse_decimal(&bytes, 4, 9, 25565), Some(25565));
}

#[test]
fn only_the_shortest_numeral_is_read() {
    for (text, want) in [("0", Some(0u32)), ("00", None), ("007", None), ("07", None), ("7", Some(7)),
        ("65535", Some(65535)), ("65536", None), ("99999", None), ("100000", None), ("+1", None),
        ("-1", None), (" 1", None), ("1 ", None), ("1a", None), ("", None),
        ("4294967295", None), ("99999999999", None)] {
        let bytes = text.as_bytes().to_vec();
        assert_eq!(parse_decimal(&bytes, 0, bytes.len(), 65535), want, "{:?}", text);
    }
    let bytes = b"4294967295".to_vec();
    assert_eq!(parse_decimal(&bytes, 0, 10, u32::MAX), Some(u32::MAX));
    let bytes = b"4294967296".to_vec();
    assert_eq!(parse_decimal(&bytes, 0, 10, u32::MAX), None);
}

#[test]
fn every_port_is_read_back() {
    for port in 0..=u16::MAX {
        let mut bytes = Vec::new();
        push_decimal(&mut bytes, port as u64);
        assert_eq!(parse_decimal(&bytes, 0, bytes.len(), 65535), Some(port as u32));
    }
}

#[test]
fn bytes_to_text() {
    assert_eq!(to_text(&b"tcp://0.0.0.0:11010".to_vec()), "tcp://0.0.0.0:11010");
    assert_eq!(to_text(&Vec::new()), "");
    assert_eq!(to_text(&vec![0xe9]), "\u{e9}");
}

#[test]
fn ipv4_text() {
    let mut out = Vec::new();
    Ipv4Addr::new(10, 144, 144, 1).write_text(&mut out);
    assert_eq!(out, b"10.144.144.1".to_vec());
    let mut out = Vec::new();
    Ipv4Addr::unspecified().write_text(&mut out);
    out.push(b' ');
    Ipv4Addr::localhost().write_text(&mut out);
    out.push(b' ');
    Ipv4Addr::new(255, 255, 255, 255).write_text(&mut out);
    assert_eq!(out, b"0.0.0.0 127.0.0.1 255.255.255.255".to_vec());
}

#[test]
fn ipv4_bits_and_octets() {
    let ip = Ipv4Addr::new(192, 168, 1, 20);
    assert_eq!(ip.octets(), [192, 168, 1, 20]);
    assert_eq!(ip.to_bits(), 0xc0a80114);
    assert_eq!(Ipv4Addr::from_bits(0xc0a80114), ip);
    assert_eq!(Ipv4Addr::from_bits(0), Ipv4Addr::unspecified());
    assert_eq!(Ipv4Addr::from_bits(u32::MAX), Ipv4Addr::new(255, 255, 255, 255));
    assert_eq!(Ipv4Addr::from_bits(0x0a909001), Ipv4Addr::new(10, 144, 144, 1));
}

#[test]
fn ipv6_text_compresses_the_first_longest_run_of_zeros() {
    assert_eq!(v6([0, 0, 0, 0, 0, 0, 0, 0]), "::");
    assert_eq!(v6([0, 0, 0, 0, 0, 0, 0, 1]), "::1");
    assert_eq!(v6([1, 0, 0, 0, 0, 0, 0, 0]), "1::");
    assert_eq!(v6([0xff75, 0x230, 0, 0, 0, 0, 0, 0x60]), "ff75:230::60");
    assert_eq!(v6([0x2001, 0xdb8, 0, 0, 0, 0, 0, 1]), "2001:db8::1");
    assert_eq!(v6([1, 0, 0, 2, 0, 0, 0, 3]), "1:0:0:2::3");
    assert_eq!(v6([1, 0, 0, 0, 2, 0, 0, 3]), "1::2:0:0:3");
    assert_eq!(v6([1, 0, 0, 2, 3, 0, 0, 4]), "1::2:3:0:0:4");
    assert_eq!(v6([0, 0, 1, 0, 0, 0, 0, 0]), "0:0:1::");
    assert_eq!(v6([0, 0, 0, 1, 0, 0, 0, 1]), "::1:0:0:0:1");
}

#[test]
fn ipv6_text_leaves_a_single_zero_alone() {
    assert_eq!(v6([1, 2, 3, 0, 5, 6, 7, 8]), "1:2:3:0:5:6:7:8");
    assert_eq!(v6([0, 2, 3, 4, 5, 6, 7, 8]), "0:2:3:4:5:6:7:8");
    assert_eq!(v6([1, 2, 3, 4, 5, 6, 7, 0]), "1:2:3:4:5:6:7:0");
    assert_eq!(v6([1, 0, 3, 0, 5, 0, 7, 0]), "1:0:3:0:5:0:7:0");
    assert_eq!(v6([0xffff; 8]), "ffff:ffff:ffff:ffff:ffff:ffff:ffff:ffff");
    assert_eq!(v6([0xfe80, 0, 0, 0, 0x1, 0x20, 0x300, 0x4000]), "fe80::1:20:300:4000");
}

#[test]
fn ipv6_text_of_a_mapped_ipv4_address() {
    assert_eq!(v6([0, 0, 0, 0, 0, 0xffff, 0xc0a8, 0x0114]), "::ffff:192.168.1.20");
    assert_eq!(v6([0, 0, 0, 0, 0, 0xffff, 0, 0]), "::ffff:0.0.0.0");
    assert_eq!(v6([0, 0, 0, 0, 0, 0xfffe, 0xc0a8, 0x0114]), "::fffe:c0a8:114");
    assert_eq!(v6([0, 0, 0, 0, 0, 0, 0xc0a8, 0x0114]), "::c0a8:114");
}

#[test]
fn ipv6_text_of_every_place_of_a_run_of_two_zeros() {
    let want = [
        "::3:4:5:6:7:8", "1::4:5:6:7:8", "1:2::5:6:7:8", "1:2:3::6:7:8", "1:2:3:4::7:8",
        "1:2:3:4:5::8", "1:2:3:4:5:6::",
    ];
    for (at, text) in want.iter().enumerate() {
        let mut segments = [1u16, 2, 3, 4, 5, 6, 7, 8];
        segments[at] = 0;
        segments[at + 1] = 0;
        assert_eq!(&v6(segments), text);
    }
}

#[test]
fn ipv6_text_of_runs_of_every_length() {
    let want = [
        "1:1:1:1:1:1:1:1", "0:1:1:1:1:1:1:1", "::1:1:1:1:1:1", "::1:1:1:1:1", "::1:1:1:1", "::1:1:1",
        "::1:1", "::1", "::",
    ];
    for (zeros, text) in want.iter().enumerate() {
        let mut segments = [1u16; 8];
        for s in segments.iter_mut().take(zeros) {
            *s = 0;
        }
        assert_eq!(&v6(segments), text);
    }
    assert_eq!(v6([0, 0, 0, 0, 0, 1, 1, 1]), "::1:1:1");
    assert_eq!(v6([0, 0, 0, 1, 0, 0, 0, 0]), "0:0:0:1::");
    assert_eq!(v6([0, 0, 0, 0, 1, 0, 0, 0]), "::1:0:0:0");
    assert_eq!(v6([0xa, 0xb0, 0xc00, 0xd000, 0, 0, 0x10, 0x100]), "a:b0:c00:d000::10:100");
}

#[test]
fn socket_address_text() {
    let v4 = SocketAddr::new(IpAddr::V4(Ipv4Addr::localhost()), 25565);
    assert_eq!(socket(v4), "127.0.0.1:25565");
    let any = SocketAddr::new(IpAddr::V6(Ipv6Addr::unspecified()), 4445);
    assert_eq!(socket(any), "[::]:4445");
    let group = SocketAddr::new(IpAddr::V6(Ipv6Addr::new([0xff75, 0x230, 0, 0, 0, 0, 0, 0x60])), 0);
    assert_eq!(socket(group), "[ff75:230::60]:0");
    assert_eq!(socket(SocketAddr::new(IpAddr::V4(Ipv4Addr::unspecified()), 65535)), "0.0.0.0:65535");
}

#[test]
fn sameness_of_addresses() {
    let a = SocketAddr::new(IpAddr::V4(Ipv4Addr::new(1, 2, 3, 4)), 5);
    let b = SocketAddr::new(IpAddr::V4(Ipv4Addr::new(1, 2, 3, 4)), 5);
    let c = SocketAddr::new(IpAddr::V4(Ipv4Addr::new(1, 2, 3, 4)), 6);
    let d = SocketAddr::new(IpAddr::V4(Ipv4Addr::new(1, 2, 3, 5)), 5);
    let e = SocketAddr::new(IpAddr::V6(Ipv6Addr::new([0, 0, 0, 0, 0, 0xffff, 0x0102, 0x0304])), 5);
    assert!(a.same(&b));
    assert!(!a.same(&c));
    assert!(!a.same(&d));
    assert!(!a.same(&e));
    assert!(e.same(&e));
    assert!(Ipv6Addr::localhost().same(&Ipv6Addr::new([0, 0, 0, 0, 0, 0, 0, 1])));
    assert!(!Ipv6Addr::localhost().same(&Ipv6Addr::unspecified()));
}

#[test]
fn order_of_addresses() {
    let low = IpAddr::V4(Ipv4Addr::new(10, 0, 0, 1));
    let high = IpAddr::V4(Ipv4Addr::new(10, 0, 1, 0));
    let top = IpAddr::V4(Ipv4Addr::new(255, 255, 255, 255));
    let any6 = IpAddr::V6(Ipv6Addr::unspecified());
    let one6 = IpAddr::V6(Ipv6Addr::localhost());
    let big6 = IpAddr::V6(Ipv6Addr::new([0xfe80, 0, 0, 0, 0, 0, 0, 1]));
    assert!(high.outranks(&low));
    assert!(!low.outranks(&high));
    assert!(!low.outranks(&low));
    assert!(any6.outranks(&top));
    assert!(!top.outranks(&any6));
    assert!(one6.outranks(&any6));
    assert!(big6.outranks(&one6));
    assert!(!one6.outranks(&big6));
    assert_eq!(Ipv6Addr::new([0xffff; 8]).to_bits(), u128::MAX);
    assert_eq!(Ipv6Addr::new([0, 0, 0, 0, 0, 0, 1, 2]).to_bits(), 0x10002);
}
