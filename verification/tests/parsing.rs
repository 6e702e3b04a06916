use rate_limiter::ip::{IpAddr, Ipv6Addr};
use rate_limiter::parse::{parse_ip, parse_ip_or_loopback};

#[test]
fn test_split_ipv6() {
    let ip = Ipv6Addr::new(0x0011, 0x2233, 0x4455, 0x6677, 0x8899, 0xAABB, 0xCCDD, 0xEEFF);
    assert_eq!(
        rate_limiter::ip::split_ipv6(ip),
        ([0x00, 0x11, 0x22, 0x33, 0x44, 0x55], 0x66, 0x77)
    );
}

#[test]
fn test_parse_ip() {
    let ip_addrs = [
        "1.2.3.4",
        "1.2.3.4:8000",
        "2001:db8::",
        "[2001:db8::]",
        "[2001:db8::]:8000",
    ];
    for addr in ip_addrs {
        assert!(parse_ip(addr).is_some(), "failed to parse {addr}");
    }
}

#[test]
fn parses_ipv4_octets() {
    match parse_ip("1.2.3.4") {
        Some(IpAddr::V4(ip)) => assert_eq!(ip.octets, [1, 2, 3, 4]),
        other => panic!("wrong result: {other:?}"),
    }
    match parse_ip("255.0.10.99:65535") {
        Some(IpAddr::V4(ip)) => assert_eq!(ip.octets, [255, 0, 10, 99]),
        other => panic!("wrong result: {other:?}"),
    }
}

#[test]
fn parses_ipv6_octets() {
    match parse_ip("2001:db8::") {
        Some(IpAddr::V6(ip)) => {
            assert_eq!(
                ip.octets,
                [0x20, 0x01, 0x0d, 0xb8, 0, 0, 0, 0, 0, 0, 0, 0, 0, 0, 0, 0]
            );
        },
        other => panic!("wrong result: {other:?}"),
    }
    match parse_ip("::1") {
        Some(IpAddr::V6(ip)) => {
            assert_eq!(ip.octets, [0, 0, 0, 0, 0, 0, 0, 0, 0, 0, 0, 0, 0, 0, 0, 1]);
        },
        other => panic!("wrong result: {other:?}"),
    }
    match parse_ip("::") {
        Some(IpAddr::V6(ip)) => assert_eq!(ip.octets, [0; 16]),
        other => panic!("wrong result: {other:?}"),
    }
    match parse_ip("1:2:3:4:5:6:7:8") {
        Some(IpAddr::V6(ip)) => {
            assert_eq!(ip.octets, [0, 1, 0, 2, 0, 3, 0, 4, 0, 5, 0, 6, 0, 7, 0, 8]);
        },
        other => panic!("wrong result: {other:?}"),
    }
    match parse_ip("fe80::abcd:EF01") {
        Some(IpAddr::V6(ip)) => {
            assert_eq!(
                ip.octets,
                [0xfe, 0x80, 0, 0, 0, 0, 0, 0, 0, 0, 0, 0, 0xab, 0xcd, 0xef, 0x01]
            );
        },
        other => panic!("wrong result: {other:?}"),
    }
    match parse_ip("1:2::7:8") {
        Some(IpAddr::V6(ip)) => {
            assert_eq!(ip.octets, [0, 1, 0, 2, 0, 0, 0, 0, 0, 0, 0, 0, 0, 7, 0, 8]);
        },
        other => panic!("wrong result: {other:?}"),
    }
    match parse_ip("1:2:3::") {
        Some(IpAddr::V6(ip)) => {
            assert_eq!(ip.octets, [0, 1, 0, 2, 0, 3, 0, 0, 0, 0, 0, 0, 0, 0, 0, 0]);
        },
        other => panic!("wrong result: {other:?}"),
    }
    match parse_ip("1::") {
        Some(IpAddr::V6(ip)) => {
            assert_eq!(ip.octets, [0, 1, 0, 0, 0, 0, 0, 0, 0, 0, 0, 0, 0, 0, 0, 0]);
        },
        other => panic!("wrong result: {other:?}"),
    }
    match parse_ip("::2:3") {
        Some(IpAddr::V6(ip)) => {
            assert_eq!(ip.octets, [0, 0, 0, 0, 0, 0, 0, 0, 0, 0, 0, 0, 0, 2, 0, 3]);
        },
        other => panic!("wrong result: {other:?}"),
    }
}

#[test]
fn rejects_malformed_addresses() {
    let bad = [
        "",
        "not an ip",
        "1.2.3",
        "1.2.3.4.5",
        "1.2.3.256",
        "1.2.3.4:",
        "1.2.3.4:65536",
        "1.2.3.4:8000x",
        ":",
        ":::",
        "1:2:3:4:5:6:7:8:9",
        "1:2:3:4:5:6:7",
        "12345::",
        "1::2::3",
        "[2001:db8::]:",
        "[2001:db8::",
        "]",
    ];
    for addr in bad {
        assert!(parse_ip(addr).is_none(), "wrongly accepted {addr}");
    }
}

#[test]
fn unparseable_sources_fall_back_to_loopback() {
    match parse_ip_or_loopback("no address here") {
        IpAddr::V4(ip) => assert_eq!(ip.octets, [127, 0, 0, 1]),
        other => panic!("wrong result: {other:?}"),
    }
    match parse_ip_or_loopback("[2001:db8::]:8000") {
        IpAddr::V6(ip) => {
            assert_eq!(
                ip.octets,
                [0x20, 0x01, 0x0d, 0xb8, 0, 0, 0, 0, 0, 0, 0, 0, 0, 0, 0, 0]
            );
        },
        other => panic!("wrong result: {other:?}"),
    }
}
