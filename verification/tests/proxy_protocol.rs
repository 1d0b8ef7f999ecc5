use workspace_serve::addr::{IpAddress, SocketAddress};
use workspace_serve::proxy_protocol::{
    parse_proxy_protocol_v1_line, parse_proxy_protocol_v2_header, parse_proxy_protocol_v2_payload,
    ProxyProtocolErrorKind, PROXY_PROTOCOL_V2_SIGNATURE,
};

fn v4(a: u32, b: u32, c: u32, d: u32, port: u16) -> SocketAddress {
    SocketAddress::new(IpAddress::V4((a << 24) | (b << 16) | (c << 8) | d), port)
}

#[test]
fn proxy_protocol_v1_parser_extracts_source_address() {
    let parsed =
        parse_proxy_protocol_v1_line(b"PROXY TCP4 198.51.100.7 203.0.113.10 45678 8080\r\n")
            .expect("preface");

    assert_eq!(parsed, Some(v4(198, 51, 100, 7, 45678)));
}

#[test]
fn proxy_protocol_v2_parser_extracts_source_address() {
    let mut header = [0_u8; 16];
    header[..12].copy_from_slice(&PROXY_PROTOCOL_V2_SIGNATURE);
    header[12] = 0x21;
    header[13] = 0x11;
    header[14..16].copy_from_slice(&(12_u16).to_be_bytes());
    let payload = [198, 51, 100, 7, 203, 0, 113, 10, 31, 144, 35, 130];

    let parsed = parse_proxy_protocol_v2_payload(&header, &payload).expect("preface");

    assert_eq!(parsed, Some(v4(198, 51, 100, 7, 8080)));
}

#[test]
fn proxy_protocol_v2_parser_rejects_bad_signature() {
    let header = [0_u8; 16];

    let error = parse_proxy_protocol_v2_header(&header).expect_err("bad signature must fail");

    assert_eq!(error.kind(), ProxyProtocolErrorKind::InvalidData);
}
