use socks5_proxy::frame::{
    connect_reply, decode_port, handshake_reply, join_host_port, parse_connect_request,
    parse_handshake, Address, ConnectRequest, Progress, ProtocolError,
};
use socks5_proxy::text::{format_ipv4, format_ipv6};

fn request(buf: &[u8]) -> (ConnectRequest, usize) {
    match parse_connect_request(buf) {
        Progress::Complete(r, n) => (r, n),
        other => panic!("request not complete: {:?}", other),
    }
}

fn incomplete_request(buf: &[u8]) -> usize {
    match parse_connect_request(buf) {
        Progress::Incomplete(k) => k,
        other => panic!("request not incomplete: {:?}", other),
    }
}

fn rejected_request(buf: &[u8]) -> ProtocolError {
    match parse_connect_request(buf) {
        Progress::Rejected(e) => e,
        other => panic!("request not rejected: {:?}", other),
    }
}

fn ipv6_host(words: [u16; 8]) -> String {
    let mut buf = vec![5u8, 1, 0, 4];
    for w in words.iter() {
        buf.push((w >> 8) as u8);
        buf.push((w & 0xff) as u8);
    }
    buf.push(0);
    buf.push(80);
    request(&buf).0.host()
}

#[test]
fn handshake_takes_two_plus_n_bytes() {
    match parse_handshake(&[5, 2, 0, 1, 9, 9]) {
        Progress::Complete(h, n) => {
            assert_eq!(n, 4);
            assert_eq!(h.methods, vec![0, 1]);
        }
        other => panic!("{:?}", other),
    }
}

#[test]
fn handshake_without_methods() {
    match parse_handshake(&[5, 0]) {
        Progress::Complete(h, n) => {
            assert_eq!(n, 2);
            assert!(h.methods.is_empty());
        }
        other => panic!("{:?}", other),
    }
}

#[test]
fn handshake_with_all_255_methods() {
    let mut buf = vec![5u8, 255];
    for i in 0..255u32 {
        buf.push(i as u8);
    }
    assert!(matches!(parse_handshake(&buf[..256]), Progress::Incomplete(257)));
    match parse_handshake(&buf) {
        Progress::Complete(h, n) => {
            assert_eq!(n, 257);
            assert_eq!(h.methods.len(), 255);
        }
        other => panic!("{:?}", other),
    }
}

#[test]
fn handshake_prefixes_ask_for_more() {
    assert!(matches!(parse_handshake(&[]), Progress::Incomplete(1)));
    assert!(matches!(parse_handshake(&[5]), Progress::Incomplete(2)));
    assert!(matches!(parse_handshake(&[5, 3, 0]), Progress::Incomplete(5)));
}

#[test]
fn handshake_bad_version() {
    assert!(matches!(parse_handshake(&[4]), Progress::Rejected(ProtocolError::BadVersion)));
}

#[test]
fn replies_are_exact() {
    assert_eq!(handshake_reply(), vec![0x05, 0x00]);
    assert_eq!(connect_reply(0), vec![5, 0, 0, 1, 0, 0, 0, 0, 0, 0]);
}

#[test]
fn request_header_read_one_byte_at_a_time() {
    assert_eq!(incomplete_request(&[]), 1);
    assert_eq!(incomplete_request(&[5]), 2);
    assert_eq!(incomplete_request(&[5, 1]), 3);
    assert_eq!(incomplete_request(&[5, 1, 0]), 4);
    assert_eq!(incomplete_request(&[5, 1, 0, 1]), 10);
    assert_eq!(incomplete_request(&[5, 1, 0, 3]), 5);
    assert_eq!(incomplete_request(&[5, 1, 0, 3, 7]), 14);
    assert_eq!(incomplete_request(&[5, 1, 0, 4]), 22);
}

#[test]
fn request_bad_fields() {
    assert_eq!(rejected_request(&[4]), ProtocolError::BadVersion);
    assert_eq!(rejected_request(&[5, 2]), ProtocolError::UnsupportedCommand);
    assert_eq!(rejected_request(&[5, 1, 1]), ProtocolError::BadReserved);
    assert_eq!(rejected_request(&[5, 1, 0, 2]), ProtocolError::UnsupportedAddressType);
    assert_eq!(rejected_request(&[5, 3, 0, 1, 1, 2, 3, 4, 0, 80]), ProtocolError::UnsupportedCommand);
}

#[test]
fn ipv4_request_decodes() {
    let (r, n) = request(&[5, 1, 0, 1, 192, 168, 1, 1, 0, 80]);
    assert_eq!(n, 10);
    assert!(matches!(&r.address, Address::Ipv4(b) if b == &vec![192, 168, 1, 1]));
    assert_eq!(r.host(), "192.168.1.1");
    assert_eq!(r.port, 80);
    assert_eq!(r.destination(), "192.168.1.1:80");
}

#[test]
fn domain_request_decodes() {
    let mut buf = vec![5u8, 1, 0, 3, 7];
    buf.extend_from_slice(b"test.io");
    buf.push(0x01);
    buf.push(0xBB);
    let (r, n) = request(&buf);
    assert_eq!(n, 14);
    assert_eq!(r.host(), "test.io");
    assert_eq!(r.port, 443);
    assert_eq!(r.destination(), "test.io:443");
}

#[test]
fn domain_invalid_utf8_is_replaced() {
    let (r, _) = request(&[5, 1, 0, 3, 2, 0x66, 0xff, 0, 1]);
    assert_eq!(r.host(), "f\u{FFFD}");
}

#[test]
fn empty_domain() {
    let (r, n) = request(&[5, 1, 0, 3, 0, 0, 1]);
    assert_eq!(n, 7);
    assert_eq!(r.destination(), ":1");
}

#[test]
fn ipv6_loopback_decodes() {
    let mut buf = vec![5u8, 1, 0, 4];
    buf.extend_from_slice(&[0; 15]);
    buf.push(1);
    buf.push(0x01);
    buf.push(0xBB);
    let (r, n) = request(&buf);
    assert_eq!(n, 22);
    assert_eq!(r.host(), "::1");
    assert_eq!(r.destination(), "::1:443");
}

#[test]
fn ipv6_text_forms() {
    assert_eq!(ipv6_host([0; 8]), "::");
    assert_eq!(ipv6_host([0x2001, 0xdb8, 0, 0, 0, 0, 0, 1]), "2001:db8::1");
    assert_eq!(ipv6_host([1, 0, 2, 0, 3, 0, 4, 0]), "1:0:2:0:3:0:4:0");
    assert_eq!(ipv6_host([1, 0, 0, 2, 0, 0, 3, 4]), "1::2:0:0:3:4");
    assert_eq!(ipv6_host([1, 0, 0, 2, 0, 0, 0, 4]), "1:0:0:2::4");
    assert_eq!(ipv6_host([0xfe80, 0, 0, 0, 0, 0, 0, 0]), "fe80::");
    assert_eq!(ipv6_host([0, 0, 0, 0, 0, 0xffff, 0xc0a8, 0x0101]), "::ffff:192.168.1.1");
    assert_eq!(ipv6_host([0xABCD, 0xffff, 1, 2, 3, 4, 5, 6]), "abcd:ffff:1:2:3:4:5:6");
}

#[test]
fn formatters_directly() {
    assert_eq!(format_ipv4(&[0, 0, 0, 0]), "0.0.0.0");
    assert_eq!(format_ipv4(&[255, 10, 100, 9]), "255.10.100.9");
    assert_eq!(format_ipv6(&[0, 0, 0, 0, 0, 0, 0, 1]), "::1");
}

#[test]
fn port_decodes_big_endian() {
    assert_eq!(decode_port(0x01, 0xBB), 443);
    assert_eq!(decode_port(0xff, 0xff), 65535);
    assert_eq!(decode_port(0, 0), 0);
}

#[test]
fn host_port_joined() {
    assert_eq!(join_host_port(String::from("example.com"), 8080), "example.com:8080");
    assert_eq!(join_host_port(String::from("h"), 0), "h:0");
    assert_eq!(join_host_port(String::from("h"), 65535), "h:65535");
}
