//! The preface by which a proxy in front of a listener passes on the client's address.

use crate::addr::{digits_number, IpAddress, SocketAddress};
use crate::addr_parse::{address_value, parse_address};
use crate::text::{chars_of, parse_unsigned, split_words, str_eq, text_of, texts, unsigned, words};
use vstd::prelude::*;
use vstd::string::*;
use vstd::utf8::*;

verus! {

/// The longest first-version preface that is read, with its line end.
pub const PROXY_PROTOCOL_V1_MAX_LEN: usize = 108;

/// The bytes that every second-version preface starts with.
pub const PROXY_PROTOCOL_V2_SIGNATURE: [u8; 12] = [
    0x0d,
    0x0a,
    0x0d,
    0x0a,
    0x00,
    0x0d,
    0x0a,
    0x51,
    0x55,
    0x49,
    0x54,
    0x0a,
];

/// Whether, and in which version, a listener expects the preface.
#[derive(Debug, Clone, Copy, PartialEq, Eq, Structural)]
pub enum ProxyProtocolModeConfig {
    Disabled,
    V1,
    V2,
}

/// What is wrong with a preface.
#[derive(Debug, Clone, Copy, PartialEq, Eq, Structural)]
pub enum ProxyProtocolError {
    V1TooLong,
    V1Utf8,
    V1Newline,
    V1Preface,
    V1AddressFields,
    V1SourceIp,
    V1DestinationIp,
    V1SourcePort,
    V1DestinationPort,
    V1Transport,
    V1Timeout,
    V2Signature,
    V2Version,
    V2Command,
    V2Ipv4Payload,
    V2Ipv6Payload,
    V2Transport,
    V2Timeout,
}

/// Whether a preface held wrong data or did not come in time.
#[derive(Debug, Clone, Copy, PartialEq, Eq, Structural)]
pub enum ProxyProtocolErrorKind {
    InvalidData,
    TimedOut,
}

impl ProxyProtocolError {
    /// Whether the preface held wrong data or did not come in time.
    pub fn kind(&self) -> (r: ProxyProtocolErrorKind)
        ensures
            r is TimedOut <==> (self is V1Timeout || self is V2Timeout),
    {
        match self {
            ProxyProtocolError::V1Timeout => ProxyProtocolErrorKind::TimedOut,
            ProxyProtocolError::V2Timeout => ProxyProtocolErrorKind::TimedOut,
            _ => ProxyProtocolErrorKind::InvalidData,
        }
    }

    pub open spec fn message_text(self) -> Seq<char> {
        match self {
            ProxyProtocolError::V1TooLong => "proxy protocol v1 header too long"@,
            ProxyProtocolError::V1Utf8 => "proxy protocol v1 utf8"@,
            ProxyProtocolError::V1Newline => "proxy protocol v1 newline"@,
            ProxyProtocolError::V1Preface => "proxy protocol v1 preface"@,
            ProxyProtocolError::V1AddressFields => "proxy protocol v1 address fields"@,
            ProxyProtocolError::V1SourceIp => "proxy protocol v1 source ip"@,
            ProxyProtocolError::V1DestinationIp => "proxy protocol v1 destination ip"@,
            ProxyProtocolError::V1SourcePort => "proxy protocol v1 source port"@,
            ProxyProtocolError::V1DestinationPort => "proxy protocol v1 destination port"@,
            ProxyProtocolError::V1Transport => "proxy protocol v1 transport"@,
            ProxyProtocolError::V1Timeout => "proxy protocol v1 timeout"@,
            ProxyProtocolError::V2Signature => "proxy protocol v2 signature"@,
            ProxyProtocolError::V2Version => "proxy protocol v2 version"@,
            ProxyProtocolError::V2Command => "proxy protocol v2 command"@,
            ProxyProtocolError::V2Ipv4Payload => "proxy protocol v2 ipv4 payload"@,
            ProxyProtocolError::V2Ipv6Payload => "proxy protocol v2 ipv6 payload"@,
            ProxyProtocolError::V2Transport => "proxy protocol v2 transport"@,
            ProxyProtocolError::V2Timeout => "proxy protocol v2 timeout"@,
        }
    }

    /// The error in words.
    pub fn message(&self) -> (r: &'static str)
        ensures
            r@ == self.message_text(),
    {
        match self {
            ProxyProtocolError::V1TooLong => "proxy protocol v1 header too long",
            ProxyProtocolError::V1Utf8 => "proxy protocol v1 utf8",
            ProxyProtocolError::V1Newline => "proxy protocol v1 newline",
            ProxyProtocolError::V1Preface => "proxy protocol v1 preface",
            ProxyProtocolError::V1AddressFields => "proxy protocol v1 address fields",
            ProxyProtocolError::V1SourceIp => "proxy protocol v1 source ip",
            ProxyProtocolError::V1DestinationIp => "proxy protocol v1 destination ip",
            ProxyProtocolError::V1SourcePort => "proxy protocol v1 source port",
            ProxyProtocolError::V1DestinationPort => "proxy protocol v1 destination port",
            ProxyProtocolError::V1Transport => "proxy protocol v1 transport",
            ProxyProtocolError::V1Timeout => "proxy protocol v1 timeout",
            ProxyProtocolError::V2Signature => "proxy protocol v2 signature",
            ProxyProtocolError::V2Version => "proxy protocol v2 version",
            ProxyProtocolError::V2Command => "proxy protocol v2 command",
            ProxyProtocolError::V2Ipv4Payload => "proxy protocol v2 ipv4 payload",
            ProxyProtocolError::V2Ipv6Payload => "proxy protocol v2 ipv6 payload",
            ProxyProtocolError::V2Transport => "proxy protocol v2 transport",
            ProxyProtocolError::V2Timeout => "proxy protocol v2 timeout",
        }
    }
}

/// The error that `core::str::from_utf8` gives.
#[verifier::external_type_specification]
#[verifier::external_body]
pub struct ExUtf8Error(core::str::Utf8Error);

/// `core::str::from_utf8` accepts exactly the byte strings that are UTF-8, and gives the text
/// that they encode.
pub assume_specification[ core::str::from_utf8 ](v: &[u8]) -> (r: Result<
    &str,
    core::str::Utf8Error,
>)
    ensures
        match r {
            Ok(s) => valid_utf8(v@) && encode_utf8(s@) == v@,
            Err(_) => !valid_utf8(v@),
        },
;

/// The fields of a first-version preface after `PROXY` and the transport.
pub open spec fn v1_addresses(parts: Seq<Seq<char>>) -> Result<
    Option<SocketAddress>,
    ProxyProtocolError,
> {
    if parts.len() != 6 {
        Err(ProxyProtocolError::V1AddressFields)
    } else if address_value(parts[2]) is None {
        Err(ProxyProtocolError::V1SourceIp)
    } else if address_value(parts[3]) is None {
        Err(ProxyProtocolError::V1DestinationIp)
    } else if unsigned(parts[4], 10, 65535) is None {
        Err(ProxyProtocolError::V1SourcePort)
    } else if unsigned(parts[5], 10, 65535) is None {
        Err(ProxyProtocolError::V1DestinationPort)
    } else {
        Ok(
            Some(
                SocketAddress::plain(
                    address_value(parts[2])->0,
                    (unsigned(parts[4], 10, 65535)->0) as u16,
                ),
            ),
        )
    }
}

/// Whether a text ends with a carriage return and a line feed.
pub open spec fn ends_line(s: Seq<char>) -> bool {
    s.len() >= 2 && s[s.len() - 2] == '\r' && s[s.len() - 1] == '\n'
}

/// The client's address in a first-version preface, where it names one.
pub open spec fn v1_line(line: Seq<u8>) -> Result<Option<SocketAddress>, ProxyProtocolError> {
    let s = decode_utf8(line);
    let parts = words(s.take(s.len() - 2));
    if !valid_utf8(line) {
        Err(ProxyProtocolError::V1Utf8)
    } else if !ends_line(s) {
        Err(ProxyProtocolError::V1Newline)
    } else if parts.len() < 2 || parts[0] != "PROXY"@ {
        Err(ProxyProtocolError::V1Preface)
    } else if parts[1] == "UNKNOWN"@ {
        Ok(None)
    } else if parts[1] == "TCP4"@ || parts[1] == "TCP6"@ {
        v1_addresses(parts)
    } else {
        Err(ProxyProtocolError::V1Transport)
    }
}

fn parse_v1_addresses(parts: &Vec<String>) -> (r: Result<
    Option<SocketAddress>,
    ProxyProtocolError,
>)
    ensures
        r == v1_addresses(texts(parts@)),
{
    if parts.len() != 6 {
        return Err(ProxyProtocolError::V1AddressFields);
    }
    let source_ip = match parse_address(parts[2].as_str()) {
        Some(ip) => ip,
        None => {
            return Err(ProxyProtocolError::V1SourceIp);
        },
    };
    if parse_address(parts[3].as_str()).is_none() {
        return Err(ProxyProtocolError::V1DestinationIp);
    }
    let source_port: u64 = match parse_unsigned(parts[4].as_str(), 10, 65535) {
        Some(port) => port,
        None => {
            return Err(ProxyProtocolError::V1SourcePort);
        },
    };
    if parse_unsigned(parts[5].as_str(), 10, 65535).is_none() {
        return Err(ProxyProtocolError::V1DestinationPort);
    }
    Ok(Some(SocketAddress::new(source_ip, source_port as u16)))
}

/// Reads a first-version preface.
pub fn parse_proxy_protocol_v1_line(line: &[u8]) -> (r: Result<
    Option<SocketAddress>,
    ProxyProtocolError,
>)
    ensures
        r == v1_line(line@),
{
    let s = match core::str::from_utf8(line) {
        Ok(s) => s,
        Err(_) => {
            return Err(ProxyProtocolError::V1Utf8);
        },
    };
    proof {
        encode_utf8_decode_utf8(s@);
    }
    let chars = chars_of(s);
    let n: usize = chars.len();
    if n < 2 || chars[n - 2] != '\r' || chars[n - 1] != '\n' {
        return Err(ProxyProtocolError::V1Newline);
    }
    let body = text_of(&chars, 0, n - 2);
    let parts = split_words(body.as_str());
    let ghost all = texts(parts@);
    proof {
        assert(s@.take(n - 2) =~= s@.subrange(0, n - 2));
        assert(parts@.len() == all.len());
        assert(forall|i: int| 0 <= i < all.len() ==> #[trigger] all[i] == parts@[i]@);
    }
    if parts.len() < 2 || !str_eq(parts[0].as_str(), "PROXY") {
        return Err(ProxyProtocolError::V1Preface);
    }
    if str_eq(parts[1].as_str(), "UNKNOWN") {
        Ok(None)
    } else if str_eq(parts[1].as_str(), "TCP4") || str_eq(parts[1].as_str(), "TCP6") {
        parse_v1_addresses(&parts)
    } else {
        Err(ProxyProtocolError::V1Transport)
    }
}

/// The bytes of a first-version preface that have come so far.
#[derive(Debug)]
pub struct ProxyProtocolV1Reader {
    pub line: Vec<u8>,
}

impl ProxyProtocolV1Reader {
    /// Whether the bytes so far end with a carriage return and a line feed.
    pub open spec fn complete(self) -> bool {
        self.line@.len() >= 2 && self.line@[self.line@.len() - 2] == 0x0d
            && self.line@[self.line@.len() - 1] == 0x0a
    }

    pub fn new() -> (r: Self)
        ensures
            r.line@.len() == 0,
    {
        ProxyProtocolV1Reader { line: Vec::new() }
    }

    /// Whether one more byte may be read.
    pub fn before_read(&self) -> (r: Result<(), ProxyProtocolError>)
        ensures
            self.line@.len() < PROXY_PROTOCOL_V1_MAX_LEN ==> r == Ok::<(), ProxyProtocolError>(()),
            self.line@.len() >= PROXY_PROTOCOL_V1_MAX_LEN ==> r == Err::<
                (),
                ProxyProtocolError,
            >(ProxyProtocolError::V1TooLong),
    {
        if self.line.len() >= PROXY_PROTOCOL_V1_MAX_LEN {
            Err(ProxyProtocolError::V1TooLong)
        } else {
            Ok(())
        }
    }

    /// Takes one byte, and says whether the line is complete with it.
    pub fn accept(&mut self, byte: u8) -> (r: bool)
        ensures
            final(self).line@ == old(self).line@.push(byte),
            r == final(self).complete(),
    {
        self.line.push(byte);
        let n: usize = self.line.len();
        n >= 2 && self.line[n - 2] == 0x0d && self.line[n - 1] == 0x0a
    }
}

/// Bytes as numbers.
pub open spec fn byte_numbers(bytes: Seq<u8>) -> Seq<nat> {
    bytes.map_values(|b: u8| b as nat)
}

/// The number that bytes stand for, most significant first.
pub open spec fn big_endian(bytes: Seq<u8>) -> nat {
    digits_number(byte_numbers(bytes), 256)
}

/// The length that a second-version header announces for what follows it.
pub open spec fn v2_header(header: Seq<u8>) -> Result<usize, ProxyProtocolError> {
    if header.take(12) != PROXY_PROTOCOL_V2_SIGNATURE@ {
        Err(ProxyProtocolError::V2Signature)
    } else if header[12] / 16 != 2 {
        Err(ProxyProtocolError::V2Version)
    } else {
        Ok((header[14] * 256 + header[15]) as usize)
    }
}

/// Reads the header of a second-version preface: the length of what follows it.
pub fn parse_proxy_protocol_v2_header(header: &[u8; 16]) -> (r: Result<usize, ProxyProtocolError>)
    ensures
        r == v2_header(header@),
{
    let signature = PROXY_PROTOCOL_V2_SIGNATURE;
    let mut i: usize = 0;
    while i < 12
        invariant
            i <= 12,
            signature@ == PROXY_PROTOCOL_V2_SIGNATURE@,
            forall|j: int| 0 <= j < i ==> header@[j] == signature@[j],
        decreases 12 - i,
    {
        if header[i] != signature[i] {
            proof {
                assert(header@.take(12)[i as int] == header@[i as int]);
            }
            return Err(ProxyProtocolError::V2Signature);
        }
        i = i + 1;
    }
    proof {
        assert(header@.take(12) =~= signature@);
    }
    if header[12] / 16 != 2 {
        return Err(ProxyProtocolError::V2Version);
    }
    Ok(header[14] as usize * 256 + header[15] as usize)
}

/// The client's address in a second-version preface, where it names one.
pub open spec fn v2_payload(header: Seq<u8>, payload: Seq<u8>) -> Result<
    Option<SocketAddress>,
    ProxyProtocolError,
> {
    let command = header[12] % 16;
    if command == 0 {
        Ok(None)
    } else if command != 1 {
        Err(ProxyProtocolError::V2Command)
    } else if header[13] == 0x11 {
        if payload.len() < 12 {
            Err(ProxyProtocolError::V2Ipv4Payload)
        } else {
            Ok(
                Some(
                    SocketAddress::plain(
                        IpAddress::V4(big_endian(payload.take(4)) as u32),
                        big_endian(payload.subrange(8, 10)) as u16,
                    ),
                ),
            )
        }
    } else if header[13] == 0x21 {
        if payload.len() < 36 {
            Err(ProxyProtocolError::V2Ipv6Payload)
        } else {
            Ok(
                Some(
                    SocketAddress::plain(
                        IpAddress::V6(big_endian(payload.take(16)) as u128),
                        big_endian(payload.subrange(32, 34)) as u16,
                    ),
                ),
            )
        }
    } else if header[13] == 0 {
        Ok(None)
    } else {
        Err(ProxyProtocolError::V2Transport)
    }
}

spec fn bytes_limit(n: nat) -> nat
    decreases n,
{
    if n == 0 {
        1
    } else {
        256 * bytes_limit((n - 1) as nat)
    }
}

proof fn lemma_big_endian_bound(bytes: Seq<u8>)
    ensures
        big_endian(bytes) < bytes_limit(bytes.len()),
    decreases bytes.len(),
{
    if bytes.len() > 0 {
        lemma_big_endian_bound(bytes.drop_last());
        assert(byte_numbers(bytes).drop_last() =~= byte_numbers(bytes.drop_last()));
    }
}

proof fn lemma_bytes_limit(n: nat)
    requires
        n <= 16,
    ensures
        bytes_limit(n) <= 0x1_0000_0000_0000_0000_0000_0000_0000_0000,
        n <= 4 ==> bytes_limit(n) <= 0x1_0000_0000,
        n <= 2 ==> bytes_limit(n) <= 0x1_0000,
{
    reveal_with_fuel(bytes_limit, 18);
}

fn read_big_endian(bytes: &[u8], from: usize, count: usize) -> (r: u128)
    requires
        count <= 16,
        from + count <= bytes@.len(),
    ensures
        r == big_endian(bytes@.subrange(from as int, from + count)),
        count <= 4 ==> r < 0x1_0000_0000,
        count <= 2 ==> r < 0x1_0000,
{
    let total: usize = bytes.len();
    let mut n: u128 = 0;
    let mut i: usize = 0;
    let ghost all = bytes@.subrange(from as int, from + count);
    while i < count
        invariant
            count <= 16,
            from + count <= total,
            total == bytes@.len(),
            all == bytes@.subrange(from as int, from + count),
            i <= count,
            n == big_endian(all.take(i as int)),
        decreases count - i,
    {
        proof {
            let t = all.take(i + 1);
            assert(byte_numbers(t).drop_last() =~= byte_numbers(all.take(i as int)));
            lemma_big_endian_bound(t);
            lemma_bytes_limit(t.len());
        }
        n = n * 256 + bytes[from + i] as u128;
        i = i + 1;
    }
    proof {
        assert(all.take(count as int) =~= all);
        lemma_big_endian_bound(all);
        lemma_bytes_limit(all.len());
    }
    n
}

/// Reads what follows the header of a second-version preface.
pub fn parse_proxy_protocol_v2_payload(header: &[u8; 16], payload: &[u8]) -> (r: Result<
    Option<SocketAddress>,
    ProxyProtocolError,
>)
    ensures
        r == v2_payload(header@, payload@),
{
    let command: u8 = header[12] % 16;
    if command == 0 {
        return Ok(None);
    }
    if command != 1 {
        return Err(ProxyProtocolError::V2Command);
    }
    let family: u8 = header[13];
    proof {
        assert(payload@.len() >= 16 ==> payload@.take(16) =~= payload@.subrange(0, 16));
        assert(payload@.len() >= 4 ==> payload@.take(4) =~= payload@.subrange(0, 4));
    }
    if family == 0x11 {
        if payload.len() < 12 {
            return Err(ProxyProtocolError::V2Ipv4Payload);
        }
        let ip = read_big_endian(payload, 0, 4) as u32;
        let port = read_big_endian(payload, 8, 2) as u16;
        Ok(Some(SocketAddress::new(IpAddress::V4(ip), port)))
    } else if family == 0x21 {
        if payload.len() < 36 {
            return Err(ProxyProtocolError::V2Ipv6Payload);
        }
        let ip = read_big_endian(payload, 0, 16);
        let port = read_big_endian(payload, 32, 2) as u16;
        Ok(Some(SocketAddress::new(IpAddress::V6(ip), port)))
    } else if family == 0 {
        Ok(None)
    } else {
        Err(ProxyProtocolError::V2Transport)
    }
}

/// The address that a connection counts as coming from: the one that a preface named, or that
/// of the peer.
pub fn downstream_address(peer: SocketAddress, named: Option<SocketAddress>) -> (r: SocketAddress)
    ensures
        r == (match named {
            Some(address) => address,
            None => peer,
        }),
{
    match named {
        Some(address) => address,
        None => peer,
    }
}

} // verus!
