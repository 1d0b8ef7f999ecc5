//! What holds of all prefaces: a client's address is read back from the preface that names it.

use crate::addr::{digits_number, low_digits, IpAddress, SocketAddress};
use crate::addr_parse::address_value;
use crate::address_laws::{addresses_are_read_back, digits_stand_for_their_number};
use crate::proxy_protocol::{
    big_endian, byte_numbers, v1_addresses, v1_line, v2_header, v2_payload, ProxyProtocolError,
    ProxyProtocolV1Reader,
};
use crate::text::{decimal, is_space, unsigned, words};
use crate::text_laws::{
    is_one_word, is_plain_digit, numerals_are_read_back, numerals_stand_for_their_numbers,
    words_come_apart,
};
use vstd::arithmetic::power::pow;
use vstd::prelude::*;
use vstd::string::*;
use vstd::utf8::*;

verus! {

/// The first-version preface with the given transport and fields, without its line end.
spec fn v1_body(
    transport: Seq<char>,
    source: Seq<char>,
    destination: Seq<char>,
    source_port: Seq<char>,
    destination_port: Seq<char>,
) -> Seq<char> {
    "PROXY "@ + transport + " "@ + source + " "@ + destination + " "@ + source_port + " "@
        + destination_port
}

proof fn lemma_decimal_word(n: nat)
    ensures
        is_one_word(decimal(n)),
{
    numerals_stand_for_their_numbers(n, 10);
    let s = decimal(n);
    assert forall|i: int| 0 <= i < s.len() implies !is_space(#[trigger] s[i]) by {
        assert(is_plain_digit(s[i]));
    }
}

#[verifier::rlimit(40)]
proof fn lemma_transport_words()
    ensures
        is_one_word("PROXY"@),
        is_one_word("TCP4"@),
        is_one_word("TCP6"@),
        is_one_word("UNKNOWN"@),
        "TCP4"@ != "UNKNOWN"@,
        "TCP6"@ != "UNKNOWN"@,
        " "@ == seq![' '],
        "PROXY "@ == "PROXY"@ + seq![' '],
        "\r\n"@ == seq!['\r', '\n'],
{
    reveal_strlit("PROXY");
    reveal_strlit("PROXY ");
    reveal_strlit("TCP4");
    reveal_strlit("TCP6");
    reveal_strlit("UNKNOWN");
    reveal_strlit(" ");
    reveal_strlit("\r\n");
    assert("TCP4"@.len() == 4 && "TCP6"@.len() == 4 && "UNKNOWN"@.len() == 7);
    assert(" "@ =~= seq![' ']);
    assert("PROXY "@ =~= "PROXY"@ + seq![' ']);
    assert("\r\n"@ =~= seq!['\r', '\n']);
}

proof fn lemma_line(body: Seq<char>)
    ensures
        ({
            let line = encode_utf8(body + "\r\n"@);
            let s = decode_utf8(line);
            &&& valid_utf8(line)
            &&& s == body + "\r\n"@
            &&& s.take(s.len() - 2) == body
            &&& crate::proxy_protocol::ends_line(s)
        }),
{
    lemma_transport_words();
    let s = body + "\r\n"@;
    encode_utf8_valid_utf8(s);
    encode_utf8_decode_utf8(s);
    assert(s.take(s.len() - 2) =~= body);
}

#[verifier::rlimit(40)]
proof fn lemma_v1(
    transport: Seq<char>,
    source: Seq<char>,
    destination: Seq<char>,
    source_port: Seq<char>,
    destination_port: Seq<char>,
)
    requires
        transport == "TCP4"@ || transport == "TCP6"@,
        is_one_word(source),
        is_one_word(destination),
        is_one_word(source_port),
        is_one_word(destination_port),
    ensures
        v1_line(
            encode_utf8(
                v1_body(transport, source, destination, source_port, destination_port) + "\r\n"@,
            ),
        ) == v1_addresses(
            seq!["PROXY"@, transport, source, destination, source_port, destination_port],
        ),
{
    lemma_transport_words();
    let a = "PROXY"@;
    words_come_apart(Seq::empty(), a);
    let b = a + seq![' '] + transport;
    words_come_apart(a, transport);
    let c = b + seq![' '] + source;
    words_come_apart(b, source);
    let d = c + seq![' '] + destination;
    words_come_apart(c, destination);
    let e = d + seq![' '] + source_port;
    words_come_apart(d, source_port);
    let f = e + seq![' '] + destination_port;
    words_come_apart(e, destination_port);
    let body = v1_body(transport, source, destination, source_port, destination_port);
    assert(body =~= f);
    let parts = seq!["PROXY"@, transport, source, destination, source_port, destination_port];
    assert(words(f) =~= parts);
    lemma_line(body);
}

proof fn lemma_client(parts: Seq<Seq<char>>, ip: IpAddress, port: u16)
    requires
        parts.len() == 6,
        address_value(parts[2]) == Some(ip),
        address_value(parts[3]) is Some,
        unsigned(parts[4], 10, 65535) == Some(port as nat),
        unsigned(parts[5], 10, 65535) is Some,
    ensures
        v1_addresses(parts) == Ok::<Option<SocketAddress>, ProxyProtocolError>(
            Some(SocketAddress::plain(ip, port)),
        ),
{
}

#[verifier::rlimit(60)]
#[verifier::spinoff_prover]
proof fn lemma_v1_client(
    transport: Seq<char>,
    source: Seq<char>,
    destination: Seq<char>,
    source_port: Seq<char>,
    destination_port: Seq<char>,
    ip: IpAddress,
    port: u16,
)
    requires
        transport == "TCP4"@ || transport == "TCP6"@,
        is_one_word(source),
        is_one_word(destination),
        is_one_word(source_port),
        is_one_word(destination_port),
        address_value(source) == Some(ip),
        address_value(destination) is Some,
        unsigned(source_port, 10, 65535) == Some(port as nat),
        unsigned(destination_port, 10, 65535) is Some,
    ensures
        v1_line(
            encode_utf8(
                "PROXY "@ + transport + " "@ + source + " "@ + destination + " "@ + source_port
                    + " "@ + destination_port + "\r\n"@,
            ),
        ) == Ok::<Option<SocketAddress>, ProxyProtocolError>(Some(SocketAddress::plain(ip, port))),
{
    let parts = seq!["PROXY"@, transport, source, destination, source_port, destination_port];
    lemma_client(parts, ip, port);
    lemma_v1(transport, source, destination, source_port, destination_port);
    let body = v1_body(transport, source, destination, source_port, destination_port);
    let line = encode_utf8(body + "\r\n"@);
    assert(v1_line(line) == v1_addresses(parts));
}

proof fn lemma_fields(
    source: IpAddress,
    destination: IpAddress,
    source_port: u16,
    destination_port: u16,
)
    ensures
        is_one_word(source.written()),
        is_one_word(destination.written()),
        is_one_word(decimal(source_port as nat)),
        is_one_word(decimal(destination_port as nat)),
        address_value(source.written()) == Some(source),
        address_value(destination.written()) == Some(destination),
        unsigned(decimal(source_port as nat), 10, 65535) == Some(source_port as nat),
        unsigned(decimal(destination_port as nat), 10, 65535) == Some(destination_port as nat),
{
    addresses_are_read_back(source);
    addresses_are_read_back(destination);
    lemma_decimal_word(source_port as nat);
    lemma_decimal_word(destination_port as nat);
    numerals_are_read_back(source_port as nat, 10, 65535);
    numerals_are_read_back(destination_port as nat, 10, 65535);
}

/// A first-version preface with the words of a transport over either family, two addresses and two
/// ports is read as the first address with the first port.
#[verifier::rlimit(40)]
pub proof fn prefaces_name_their_client(
    transport: Seq<char>,
    source: IpAddress,
    destination: IpAddress,
    source_port: u16,
    destination_port: u16,
)
    requires
        transport == "TCP4"@ || transport == "TCP6"@,
    ensures
        v1_line(
            encode_utf8(
                "PROXY "@ + transport + " "@ + source.written() + " "@ + destination.written()
                    + " "@ + decimal(source_port as nat) + " "@ + decimal(destination_port as nat)
                    + "\r\n"@,
            ),
        ) == Ok::<Option<SocketAddress>, ProxyProtocolError>(
            Some(
                match source {
                    IpAddress::V4(n) => SocketAddress::V4 { ip: n, port: source_port },
                    IpAddress::V6(n) => SocketAddress::V6 {
                        ip: n,
                        port: source_port,
                        flow: 0,
                        scope: 0,
                    },
                },
            ),
        ),
{
    lemma_fields(source, destination, source_port, destination_port);
    lemma_v1_client(
        transport,
        source.written(),
        destination.written(),
        decimal(source_port as nat),
        decimal(destination_port as nat),
        source,
        source_port,
    );
}

/// A first-version preface is taken to name a client exactly where each of its four fields can be
/// read, two addresses and two ports; else the first that cannot be read is named in the refusal.
pub proof fn prefaces_are_refused_for_a_field(
    transport: Seq<char>,
    source: Seq<char>,
    destination: Seq<char>,
    source_port: Seq<char>,
    destination_port: Seq<char>,
)
    requires
        transport == "TCP4"@ || transport == "TCP6"@,
        is_one_word(source),
        is_one_word(destination),
        is_one_word(source_port),
        is_one_word(destination_port),
    ensures
        ({
            let r = v1_line(
                encode_utf8(
                    "PROXY "@ + transport + " "@ + source + " "@ + destination + " "@ + source_port
                        + " "@ + destination_port + "\r\n"@,
                ),
            );
            let p = unsigned(source_port, 10, 65535);
            let q = unsigned(destination_port, 10, 65535);
            &&& r is Ok <==> address_value(source) is Some && address_value(destination) is Some
                && p is Some && q is Some
            &&& r is Ok ==> (r->Ok_0) is Some
            &&& address_value(source) is None ==> r->Err_0 is V1SourceIp
            &&& address_value(source) is Some && address_value(destination) is None
                ==> r->Err_0 is V1DestinationIp
            &&& r matches Err(e) ==> !(e is V1Timeout) && !(e is V1Transport)
        }),
{
    lemma_v1(transport, source, destination, source_port, destination_port);
}

/// A first-version preface without a line end is refused, whatever else it says.
pub proof fn unended_prefaces_are_refused(s: Seq<char>)
    requires
        s.len() < 2 || s[s.len() - 2] != '\r' || s[s.len() - 1] != '\n',
    ensures
        v1_line(encode_utf8(s)) is Err,
{
    encode_utf8_valid_utf8(s);
    encode_utf8_decode_utf8(s);
}

#[verifier::rlimit(40)]
proof fn lemma_words_stay(a: Seq<char>, rest: Seq<char>)
    requires
        a.len() > 0,
        is_space(a.last()),
    ensures
        words(a + rest).len() >= words(a).len(),
        rest.len() > 0 && !is_space(rest.last()) ==> words(a + rest).len() > words(a).len(),
        forall|i: int| 0 <= i < words(a).len() ==> #[trigger] words(a + rest)[i] == words(a)[i],
    decreases rest.len(),
{
    let s = a + rest;
    if rest.len() == 0 {
        assert(s =~= a);
    } else {
        let front = rest.drop_last();
        lemma_words_stay(a, front);
        assert(s.drop_last() =~= a + front);
        assert(s.last() == rest.last());
        let before = words(a + front);
        if !is_space(s.last()) {
            if front.len() == 0 {
                assert(s[s.len() - 2] == a.last());
            } else {
                assert(s[s.len() - 2] == front.last());
            }
        }
    }
}

/// A first-version preface of an unknown transport names no client, whatever follows; one with any
/// other word for its transport is refused.
#[verifier::rlimit(40)]
pub proof fn unknown_transports_name_no_client(transport: Seq<char>, rest: Seq<char>)
    requires
        is_one_word(transport),
    ensures
        ({
            let r = v1_line(encode_utf8("PROXY "@ + transport + " "@ + rest + "\r\n"@));
            &&& transport == "UNKNOWN"@ ==> r == Ok::<Option<SocketAddress>, ProxyProtocolError>(
                None,
            )
            &&& transport != "UNKNOWN"@ && transport != "TCP4"@ && transport != "TCP6"@ ==> r
                is Err
        }),
{
    lemma_transport_words();
    let a = "PROXY"@;
    words_come_apart(Seq::empty(), a);
    let b = a + seq![' '] + transport;
    words_come_apart(a, transport);
    let c = b + seq![' '];
    assert(c.drop_last() =~= b);
    assert(c.last() == ' ');
    assert(words(c) == words(b));
    assert(words(c) =~= seq![a, transport]);
    lemma_words_stay(c, rest);
    let body = "PROXY "@ + transport + " "@ + rest;
    assert(body =~= c + rest);
    assert(words(body)[0] == words(c)[0]);
    assert(words(body)[1] == words(c)[1]);
    lemma_line(body);
}

/// A number as the given count of bytes, most significant first.
pub open spec fn bytes_of(n: nat, count: nat) -> Seq<u8> {
    low_digits(n, 256, count).map_values(|d: nat| d as u8)
}

/// A number is read back from its bytes.
pub proof fn bytes_are_read_back(n: nat, count: nat)
    requires
        n < pow(256, count),
    ensures
        big_endian(bytes_of(n, count)) == n,
        bytes_of(n, count).len() == count,
{
    digits_stand_for_their_number(n, 256, count);
    let digits = low_digits(n, 256, count);
    assert forall|i: int| 0 <= i < count implies #[trigger] digits[i] < 256 by {
        assert(low_digits(n, 256, count)[i] < 256);
    }
    assert(byte_numbers(bytes_of(n, count)) =~= digits);
}

proof fn lemma_powers()
    ensures
        pow(256, 2) == 0x1_0000,
        pow(256, 4) == 0x1_0000_0000,
        pow(256, 16) == 0x1_0000_0000_0000_0000_0000_0000_0000_0000,
{
    reveal_with_fuel(pow, 17);
}

/// A second-version preface that hands on a connection over the first family names the source's
/// address and port, whatever its destination and whatever follows.
#[verifier::rlimit(40)]
pub proof fn second_prefaces_name_their_client(
    header: Seq<u8>,
    source: u32,
    destination: u32,
    source_port: u16,
    destination_port: u16,
    rest: Seq<u8>,
)
    requires
        header.len() == 16,
        header[12] == 0x21,
        header[13] == 0x11,
    ensures
        v2_payload(
            header,
            bytes_of(source as nat, 4) + bytes_of(destination as nat, 4) + bytes_of(
                source_port as nat,
                2,
            ) + bytes_of(destination_port as nat, 2) + rest,
        ) == Ok::<Option<SocketAddress>, ProxyProtocolError>(
            Some(SocketAddress::V4 { ip: source, port: source_port }),
        ),
{
    lemma_powers();
    bytes_are_read_back(source as nat, 4);
    bytes_are_read_back(destination as nat, 4);
    bytes_are_read_back(source_port as nat, 2);
    bytes_are_read_back(destination_port as nat, 2);
    let payload = bytes_of(source as nat, 4) + bytes_of(destination as nat, 4) + bytes_of(
        source_port as nat,
        2,
    ) + bytes_of(destination_port as nat, 2) + rest;
    assert(payload.take(4) =~= bytes_of(source as nat, 4));
    assert(payload.subrange(8, 10) =~= bytes_of(source_port as nat, 2));
}

/// A second-version preface that hands on a connection over the second family names the source's
/// address and port, whatever its destination and whatever follows.
#[verifier::rlimit(40)]
pub proof fn second_prefaces_name_their_client_of_the_second_family(
    header: Seq<u8>,
    source: u128,
    destination: u128,
    source_port: u16,
    destination_port: u16,
    rest: Seq<u8>,
)
    requires
        header.len() == 16,
        header[12] == 0x21,
        header[13] == 0x21,
    ensures
        v2_payload(
            header,
            bytes_of(source as nat, 16) + bytes_of(destination as nat, 16) + bytes_of(
                source_port as nat,
                2,
            ) + bytes_of(destination_port as nat, 2) + rest,
        ) == Ok::<Option<SocketAddress>, ProxyProtocolError>(
            Some(SocketAddress::V6 { ip: source, port: source_port, flow: 0, scope: 0 }),
        ),
{
    lemma_powers();
    bytes_are_read_back(source as nat, 16);
    bytes_are_read_back(destination as nat, 16);
    bytes_are_read_back(source_port as nat, 2);
    bytes_are_read_back(destination_port as nat, 2);
    let payload = bytes_of(source as nat, 16) + bytes_of(destination as nat, 16) + bytes_of(
        source_port as nat,
        2,
    ) + bytes_of(destination_port as nat, 2) + rest;
    assert(payload.take(16) =~= bytes_of(source as nat, 16));
    assert(payload.subrange(32, 34) =~= bytes_of(source_port as nat, 2));
}

/// A second-version preface of the proxy's own, or of an unspecified family, names no client;
/// another command, another family or too short a payload is refused.
pub proof fn other_second_prefaces_name_no_client(header: Seq<u8>, payload: Seq<u8>)
    requires
        header.len() == 16,
    ensures
        ({
            let r = v2_payload(header, payload);
            let command = header[12] % 16;
            let family = header[13];
            &&& command == 0 ==> r == Ok::<Option<SocketAddress>, ProxyProtocolError>(None)
            &&& command == 1 && family == 0 ==> r == Ok::<
                Option<SocketAddress>,
                ProxyProtocolError,
            >(None)
            &&& command > 1 ==> r is Err
            &&& command == 1 && family != 0 && family != 0x11 && family != 0x21 ==> r is Err
            &&& command == 1 && family == 0x11 ==> (r is Ok <==> payload.len() >= 4 + 4 + 2 + 2)
            &&& command == 1 && family == 0x21 ==> (r is Ok <==> payload.len() >= 16 + 16 + 2
                + 2)
        }),
{
}

/// The header of a second-version preface announces the length that was written into it; with
/// another signature or another version it is refused.
#[verifier::rlimit(40)]
pub proof fn second_headers_announce_their_length(header: Seq<u8>, length: u16)
    requires
        header.len() == 16,
        header.skip(14) == bytes_of(length as nat, 2),
    ensures
        ({
            let signed = header.take(12) == seq![
                0x0du8,
                0x0a,
                0x0d,
                0x0a,
                0x00,
                0x0d,
                0x0a,
                0x51,
                0x55,
                0x49,
                0x54,
                0x0a,
            ];
            let r = v2_header(header);
            &&& signed && 0x20 <= header[12] < 0x30 ==> r == Ok::<usize, ProxyProtocolError>(
                length as usize,
            )
            &&& !signed || header[12] < 0x20 || header[12] >= 0x30 ==> r is Err
        }),
{
    lemma_powers();
    bytes_are_read_back(length as nat, 2);
    assert(crate::proxy_protocol::PROXY_PROTOCOL_V2_SIGNATURE@ =~= seq![
        0x0du8,
        0x0a,
        0x0d,
        0x0a,
        0x00,
        0x0d,
        0x0a,
        0x51,
        0x55,
        0x49,
        0x54,
        0x0a,
    ]);
    let b = bytes_of(length as nat, 2);
    assert(header.skip(14)[0] == header[14]);
    assert(header.skip(14)[1] == header[15]);
    let digits = byte_numbers(b);
    assert(digits_number(digits, 256) == digits[0] * 256 + digits[1]) by {
        reveal_with_fuel(digits_number, 3);
        assert(digits.drop_last().drop_last().len() == 0);
    }
}

/// A line is complete exactly once its last two bytes are a carriage return and a line feed.
pub proof fn lines_end_with_a_carriage_return_and_a_line_feed(reader: ProxyProtocolV1Reader)
    ensures
        reader.complete() <==> exists|start: Seq<u8>|
            reader.line@ == #[trigger] start.push(13u8).push(10u8),
{
    let line = reader.line@;
    if reader.complete() {
        let start = line.take(line.len() - 2);
        assert(line =~= start.push(13u8).push(10u8));
    }
}

} // verus!
