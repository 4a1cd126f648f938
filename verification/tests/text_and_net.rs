use kagami::net::{IpAddress, SocketAddress};
use kagami::text::{decimal_string, join_strings, parse_u16_str, split_nonempty, trim_str};

#[test]
fn trim_removes_unicode_white_space() {
    assert_eq!(trim_str("  10.0.0.2:9292\t\n"), "10.0.0.2:9292");
    assert_eq!(trim_str("\u{3000}host\u{a0}"), "host");
    assert_eq!(trim_str(" \t "), "");
    assert_eq!(trim_str("a b"), "a b");
}

#[test]
fn parse_u16_follows_str_parse() {
    assert_eq!(parse_u16_str("9292"), Some(9292));
    assert_eq!(parse_u16_str("+80"), Some(80));
    assert_eq!(parse_u16_str("065535"), Some(65535));
    assert_eq!(parse_u16_str("65536"), None);
    assert_eq!(parse_u16_str(""), None);
    assert_eq!(parse_u16_str("+"), None);
    assert_eq!(parse_u16_str("-1"), None);
    assert_eq!(parse_u16_str(" 1"), None);
    assert_eq!(parse_u16_str("12a"), None);
    for text in ["0", "7", "+0", "00042", "65535", "99999", "4294967296"] {
        assert_eq!(parse_u16_str(text), text.parse::<u16>().ok());
    }
}

#[test]
fn split_drops_empty_fields() {
    assert_eq!(split_nonempty("a,,b,", ','), vec!["a".to_owned(), "b".to_owned()]);
    assert_eq!(split_nonempty("", ','), Vec::<String>::new());
    assert_eq!(split_nonempty(",,,", ','), Vec::<String>::new());
    assert_eq!(split_nonempty("Kagami-Audio", ','), vec!["Kagami-Audio".to_owned()]);
}

#[test]
fn join_puts_separator_between_parts() {
    let parts = vec!["a".to_owned(), "b".to_owned(), "c".to_owned()];
    assert_eq!(join_strings(&parts, ", "), "a, b, c");
    assert_eq!(join_strings(&Vec::new(), ", "), "");
    assert_eq!(join_strings(&vec!["x".to_owned()], ","), "x");
}

#[test]
fn decimal_formatting() {
    assert_eq!(decimal_string(0), "0");
    assert_eq!(decimal_string(9292), "9292");
    assert_eq!(decimal_string(u64::MAX), "18446744073709551615");
}

fn v6(s: [u16; 8]) -> IpAddress {
    IpAddress::V6(s)
}

#[test]
fn ipv4_and_socket_text() {
    let a = SocketAddress { ip: IpAddress::V4([192, 168, 1, 10]), port: 9292 };
    assert_eq!(a.to_text(), "192.168.1.10:9292");
    assert_eq!(IpAddress::V4([0, 0, 0, 0]).to_text(), "0.0.0.0");
    assert_eq!(IpAddress::V4([255, 255, 255, 255]).to_text(), "255.255.255.255");
}

#[test]
fn ipv6_text_compresses_first_longest_zero_run() {
    assert_eq!(v6([0xfe80, 0, 0, 0, 0, 0, 0, 1]).to_text(), "fe80::1");
    assert_eq!(v6([0; 8]).to_text(), "::");
    assert_eq!(v6([0, 0, 0, 0, 0, 0, 0, 1]).to_text(), "::1");
    assert_eq!(v6([1, 0, 0, 0, 0, 0, 0, 0]).to_text(), "1::");
    assert_eq!(v6([1, 0, 0, 2, 0, 0, 0, 3]).to_text(), "1:0:0:2::3");
    assert_eq!(v6([1, 0, 0, 2, 0, 0, 3, 4]).to_text(), "1::2:0:0:3:4");
    assert_eq!(v6([1, 0, 2, 0, 3, 0, 4, 0]).to_text(), "1:0:2:0:3:0:4:0");
    assert_eq!(v6([0x2001, 0xdb8, 0, 0, 0, 0, 0xab, 0xcdef]).to_text(), "2001:db8::ab:cdef");
    assert_eq!(v6([0, 0, 0, 0, 0, 0xffff, 0x0102, 0x0304]).to_text(), "::ffff:1.2.3.4");
    let a = SocketAddress { ip: v6([0xfe80, 0, 0, 0, 0, 0, 0, 1]), port: 80 };
    assert_eq!(a.to_text(), "[fe80::1]:80");
}

#[test]
fn address_classes() {
    assert!(IpAddress::V4([127, 1, 2, 3]).is_loopback());
    assert!(!IpAddress::V4([10, 0, 0, 1]).is_loopback());
    assert!(IpAddress::V4([0, 0, 0, 0]).is_unspecified());
    assert!(v6([0; 8]).is_unspecified());
    assert!(v6([0, 0, 0, 0, 0, 0, 0, 1]).is_loopback());
    assert!(!v6([0, 0, 0, 0, 0, 0, 0, 2]).is_loopback());
    let a = SocketAddress { ip: IpAddress::V4([10, 0, 0, 1]), port: 1 };
    let b = SocketAddress { ip: IpAddress::V4([10, 0, 0, 1]), port: 2 };
    assert!(a.same_as(&a));
    assert!(!a.same_as(&b));
    assert!(!IpAddress::V4([0, 0, 0, 0]).same_as(&v6([0; 8])));
}
