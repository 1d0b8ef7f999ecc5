use workspace_serve::addr::{IpAddress, SocketAddress};
use workspace_serve::addr_parse::parse_address;
use workspace_serve::clock::{elapsed_millis_at_least_one, unix_time_ms, unix_time_ms_of};
use workspace_serve::digest::{request_body_digest, sha256_hex};
use workspace_serve::json::{escape_json_string, optional_string_json, optional_u64_json};
use workspace_serve::named_map::NamedMap;
use workspace_serve::proxy_protocol::{
    downstream_address, parse_proxy_protocol_v1_line, parse_proxy_protocol_v2_header,
    parse_proxy_protocol_v2_payload, ProxyProtocolError, ProxyProtocolV1Reader,
    PROXY_PROTOCOL_V2_SIGNATURE,
};
use workspace_serve::text::{
    decimal_text, hex_text_16, join, parse_unsigned, split_on, split_words, strip_prefix, to_lower,
    trim,
};

#[test]
fn digests_are_those_of_sha256() {
    assert_eq!(
        sha256_hex(b"abc"),
        "ba7816bf8f01cfea414140de5dae2223b00361a396177a9cb410ff61f20015ad"
    );
    assert_eq!(
        request_body_digest(b""),
        "e3b0c44298fc1c149afbf4c8996fb92427ae41e4649b934ca495991b7852b855"
    );
    assert_eq!(sha256_hex(&[0; 200]).len(), 64);
}

#[test]
fn numbers_are_written_and_read() {
    assert_eq!(decimal_text(0), "0");
    assert_eq!(decimal_text(u64::MAX), "18446744073709551615");
    assert_eq!(hex_text_16(255), "00000000000000ff");
    assert_eq!(parse_unsigned("+42", 10, 100), Some(42));
    assert_eq!(parse_unsigned("101", 10, 100), None);
    assert_eq!(parse_unsigned("", 10, 100), None);
    assert_eq!(parse_unsigned("+", 10, 100), None);
    assert_eq!(parse_unsigned("-1", 10, 100), None);
    assert_eq!(parse_unsigned("fF", 16, 1000), Some(255));
    assert_eq!(parse_unsigned("18446744073709551616", 10, u64::MAX), None);
}

#[test]
fn texts_are_taken_apart_and_put_together() {
    assert_eq!(split_words("  a\t b\nc "), vec!["a", "b", "c"]);
    assert_eq!(split_on("a..b", '.'), vec!["a", "", "b"]);
    assert_eq!(join(&vec![String::from("a"), String::from("b")], ", "), "a, b");
    assert_eq!(trim(" \u{a0}x \n"), "x");
    assert_eq!(to_lower("ABC-É"), "abc-É");
    assert_eq!(strip_prefix("admin-1", "admin-").as_deref(), Some("1"));
    assert!(strip_prefix("adm", "admin-").is_none());
}

#[test]
fn json_strings_are_escaped() {
    assert_eq!(escape_json_string("a\"b\\c\n\u{1}é"), "a\\\"b\\\\c\\n\\u0001é");
    assert_eq!(optional_string_json(None), "null");
    assert_eq!(optional_string_json(Some("x")), "\"x\"");
    assert_eq!(optional_u64_json(Some(7)), "7");
    assert_eq!(optional_u64_json(None), "null");
}

#[test]
fn addresses_are_written_and_read() {
    for (text, address) in [
        ("127.0.0.1", IpAddress::V4(0x7f00_0001)),
        ("255.255.255.255", IpAddress::V4(u32::MAX)),
        ("::", IpAddress::V6(0)),
        ("::1", IpAddress::V6(1)),
        ("2001:db8::ff00:42:8329", IpAddress::V6(0x2001_0db8_0000_0000_0000_ff00_0042_8329)),
        ("1:0:0:2::3", IpAddress::V6(0x0001_0000_0000_0002_0000_0000_0000_0003)),
        ("::ffff:1.2.3.4", IpAddress::V6(0xffff_0102_0304)),
    ] {
        assert_eq!(parse_address(text), Some(address), "{}", text);
        assert_eq!(address.to_text(), text);
    }
    for text in ["", "1.2.3", "1.2.3.4.5", "01.2.3.4", "256.1.1.1", ":::", "1::2::3", "12345::"] {
        assert_eq!(parse_address(text), None, "{}", text);
    }
    let v6 = SocketAddress::new(IpAddress::V6(1), 443);
    assert_eq!(v6.to_text(), "[::1]:443");
    assert_eq!(v6, SocketAddress::V6 { ip: 1, port: 443, flow: 0, scope: 0 });
    let linked = SocketAddress::V6 { ip: 0xfe80 << 112 | 1, port: 443, flow: 9, scope: 12 };
    assert_eq!(linked.to_text(), "[fe80::1%12]:443");
    let v4 = SocketAddress::new(IpAddress::V4(0x7f00_0001), 80);
    assert_eq!(v4.to_text(), "127.0.0.1:80");
}

#[test]
fn names_stand_in_order() {
    let mut map = NamedMap::new();
    for name in ["b", "a", "ab", "B"] {
        map.insert(String::from(name), name.len());
    }
    let names: Vec<&str> = (0..map.len()).map(|i| map.name_at(i).as_str()).collect();
    assert_eq!(names, vec!["B", "a", "ab", "b"]);
    map.insert(String::from("a"), 9);
    assert_eq!(map.get("a"), Some(&9));
    assert_eq!(map.remove("a"), Some(9));
    assert_eq!(map.remove("a"), None);
    assert!(!map.contains_key("a"));
    assert_eq!(map.len(), 3);
}

#[test]
fn times_are_counted_in_milliseconds() {
    assert_eq!(elapsed_millis_at_least_one(0), 1);
    assert_eq!(elapsed_millis_at_least_one(5), 5);
    assert_eq!(elapsed_millis_at_least_one(u128::MAX), u64::MAX);
    assert_eq!(unix_time_ms_of(None), 0);
    assert_eq!(unix_time_ms_of(Some(1_700_000_000_000)), 1_700_000_000_000);
    assert!(unix_time_ms() > 1_600_000_000_000);
}

fn v2_header(version_command: u8, family: u8, length: u16) -> [u8; 16] {
    let mut header = [0_u8; 16];
    header[..12].copy_from_slice(&PROXY_PROTOCOL_V2_SIGNATURE);
    header[12] = version_command;
    header[13] = family;
    header[14..16].copy_from_slice(&length.to_be_bytes());
    header
}

#[test]
fn prefaces_of_the_first_version_are_told_apart() {
    let cases: [(&[u8], ProxyProtocolError); 7] = [
        (b"PROXY TCP4 1.2.3.4 5.6.7.8 1 2\n", ProxyProtocolError::V1Newline),
        (b"HELLO TCP4 1.2.3.4 5.6.7.8 1 2\r\n", ProxyProtocolError::V1Preface),
        (b"PROXY TCP4 1.2.3.4\r\n", ProxyProtocolError::V1AddressFields),
        (b"PROXY TCP4 x 5.6.7.8 1 2\r\n", ProxyProtocolError::V1SourceIp),
        (b"PROXY TCP4 1.2.3.4 x 1 2\r\n", ProxyProtocolError::V1DestinationIp),
        (b"PROXY TCP4 1.2.3.4 5.6.7.8 70000 2\r\n", ProxyProtocolError::V1SourcePort),
        (b"PROXY TCP4 1.2.3.4 5.6.7.8 1 x\r\n", ProxyProtocolError::V1DestinationPort),
    ];
    for (line, error) in cases {
        assert_eq!(parse_proxy_protocol_v1_line(line), Err(error));
    }
    assert_eq!(
        parse_proxy_protocol_v1_line(b"PROXY UDP4 1.2.3.4 5.6.7.8 1 2\r\n"),
        Err(ProxyProtocolError::V1Transport)
    );
    assert_eq!(
        parse_proxy_protocol_v1_line(b"PROXY \xff\r\n"),
        Err(ProxyProtocolError::V1Utf8)
    );
    assert_eq!(parse_proxy_protocol_v1_line(b"PROXY UNKNOWN\r\n"), Ok(None));

    let mut reader = ProxyProtocolV1Reader::new();
    for byte in b"PROXY UNKNOWN\r" {
        assert!(reader.before_read().is_ok());
        assert!(!reader.accept(*byte));
    }
    assert!(reader.accept(b'\n'));
    let mut endless = ProxyProtocolV1Reader::new();
    for _ in 0..108 {
        assert!(!endless.accept(b'x'));
    }
    assert_eq!(endless.before_read(), Err(ProxyProtocolError::V1TooLong));
}

#[test]
fn prefaces_of_the_second_version_are_told_apart() {
    assert_eq!(parse_proxy_protocol_v2_header(&v2_header(0x21, 0x11, 36)), Ok(36));
    assert_eq!(
        parse_proxy_protocol_v2_header(&v2_header(0x11, 0x11, 36)),
        Err(ProxyProtocolError::V2Version)
    );
    assert_eq!(parse_proxy_protocol_v2_payload(&v2_header(0x20, 0x11, 0), &[]), Ok(None));
    assert_eq!(
        parse_proxy_protocol_v2_payload(&v2_header(0x22, 0x11, 0), &[]),
        Err(ProxyProtocolError::V2Command)
    );
    assert_eq!(
        parse_proxy_protocol_v2_payload(&v2_header(0x21, 0x11, 2), &[1, 2]),
        Err(ProxyProtocolError::V2Ipv4Payload)
    );
    assert_eq!(
        parse_proxy_protocol_v2_payload(&v2_header(0x21, 0x21, 2), &[1, 2]),
        Err(ProxyProtocolError::V2Ipv6Payload)
    );
    let mut payload = [0_u8; 36];
    payload[15] = 1;
    payload[32..34].copy_from_slice(&4321_u16.to_be_bytes());
    assert_eq!(
        parse_proxy_protocol_v2_payload(&v2_header(0x21, 0x21, 36), &payload),
        Ok(Some(SocketAddress::new(IpAddress::V6(1), 4321)))
    );

    let peer = SocketAddress::new(IpAddress::V4(1), 2);
    let named = SocketAddress::new(IpAddress::V4(3), 4);
    assert_eq!(downstream_address(peer, None), peer);
    assert_eq!(downstream_address(peer, Some(named)), named);
}
