use audion::address::{parse_ipv4, Ipv4Address};

fn addr(a: u8, b: u8, c: u8, d: u8) -> Ipv4Address {
    Ipv4Address { a, b, c, d }
}

#[test]
fn parses_loopback() {
    assert_eq!(parse_ipv4("127.0.0.1"), Some(addr(127, 0, 0, 1)));
}

#[test]
fn parses_unreachable_test_address() {
    assert_eq!(parse_ipv4("10.255.255.1"), Some(addr(10, 255, 255, 1)));
}

#[test]
fn parses_extremes() {
    assert_eq!(parse_ipv4("0.0.0.0"), Some(addr(0, 0, 0, 0)));
    assert_eq!(parse_ipv4("255.255.255.255"), Some(addr(255, 255, 255, 255)));
    assert_eq!(parse_ipv4("1.22.103.250"), Some(addr(1, 22, 103, 250)));
}

#[test]
fn rejects_out_of_range_octets() {
    assert_eq!(parse_ipv4("999.999.999.999"), None);
    assert_eq!(parse_ipv4("256.1.1.1"), None);
    assert_eq!(parse_ipv4("1.1.1.300"), None);
    assert_eq!(parse_ipv4("1.1.1.1000"), None);
}

#[test]
fn rejects_empty_text() {
    assert_eq!(parse_ipv4(""), None);
}

#[test]
fn rejects_host_names() {
    assert_eq!(parse_ipv4("localhost"), None);
    assert_eq!(parse_ipv4("example.com"), None);
}

#[test]
fn rejects_malformed_quads() {
    assert_eq!(parse_ipv4("1.2.3"), None);
    assert_eq!(parse_ipv4("1.2.3.4.5"), None);
    assert_eq!(parse_ipv4("1..2.3"), None);
    assert_eq!(parse_ipv4("1.2.3.4 "), None);
    assert_eq!(parse_ipv4(" 1.2.3.4"), None);
    assert_eq!(parse_ipv4("1.2.3."), None);
    assert_eq!(parse_ipv4("+1.2.3.4"), None);
    assert_eq!(parse_ipv4("1.2.3.٣"), None);
}

#[test]
fn rejects_leading_zeros() {
    assert_eq!(parse_ipv4("01.2.3.4"), None);
    assert_eq!(parse_ipv4("1.2.3.00"), None);
    assert_eq!(parse_ipv4("1.2.003.4"), None);
}
