use dh_ping::address::{is_valid_ip_port, parse_port, split_address};

#[test]
fn accepts_ipv4_with_port() {
    assert!(is_valid_ip_port("127.0.0.1:7777"));
    assert!(is_valid_ip_port("0.0.0.0:0"));
    assert!(is_valid_ip_port("255.255.255.255:65535"));
}

#[test]
fn rejects_host_that_is_no_ip_literal() {
    assert!(!is_valid_ip_port("notanip:7777"));
    assert!(!is_valid_ip_port("localhost:7777"));
    assert!(!is_valid_ip_port("256.0.0.1:7777"));
    assert!(!is_valid_ip_port(":7777"));
}

#[test]
fn rejects_without_exactly_one_colon() {
    assert!(!is_valid_ip_port("127.0.0.1"));
    assert!(!is_valid_ip_port(""));
    assert!(!is_valid_ip_port("127.0.0.1:77:77"));
    assert!(!is_valid_ip_port("::1:7777"));
    assert!(!is_valid_ip_port("[::1]:7777"));
}

#[test]
fn rejects_bad_port() {
    assert!(!is_valid_ip_port("127.0.0.1:65536"));
    assert!(!is_valid_ip_port("127.0.0.1:"));
    assert!(!is_valid_ip_port("127.0.0.1:-1"));
    assert!(!is_valid_ip_port("127.0.0.1:77a"));
    assert!(!is_valid_ip_port("127.0.0.1: 7777"));
}

#[test]
fn port_accepts_plus_sign_and_leading_zeros() {
    assert!(is_valid_ip_port("127.0.0.1:+7777"));
    assert_eq!(parse_port("+7777"), Some(7777));
    assert_eq!(parse_port("007777"), Some(7777));
}

#[test]
fn port_bounds() {
    assert_eq!(parse_port("0"), Some(0));
    assert_eq!(parse_port("65535"), Some(65535));
    assert_eq!(parse_port("65536"), None);
    assert_eq!(parse_port("99999999999999999999"), None);
    assert_eq!(parse_port(""), None);
    assert_eq!(parse_port("+"), None);
    assert_eq!(parse_port("++1"), None);
    assert_eq!(parse_port("-0"), None);
}

#[test]
fn split_at_single_colon() {
    assert_eq!(split_address("10.0.0.1:27015"), Some(("10.0.0.1", "27015")));
    assert_eq!(split_address(":"), Some(("", "")));
    assert_eq!(split_address("héllo:wörld"), Some(("héllo", "wörld")));
    assert_eq!(split_address("no colon"), None);
    assert_eq!(split_address("a:b:c"), None);
}
