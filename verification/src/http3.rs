//! HTTP/3 requests as HTTP/1 requests: their headers, their body, and how they are reported.

use crate::admin_auth::HeaderField;
use crate::text::{decimal, decimal_text, lowered, str_eq, text, to_lower};
use vstd::prelude::*;
use vstd::string::*;

verus! {

/// A header field as it came, with the bytes of its value.
#[derive(Debug)]
pub struct RawHeader {
    pub name: String,
    pub value: Vec<u8>,
}

/// Whether a byte is a visible character, a space or a tab.
pub open spec fn is_visible(b: u8) -> bool {
    (32 <= b && b < 127) || b == 9
}

/// The text of a header's value, where all its bytes are visible.
pub open spec fn visible_value(bytes: Seq<u8>) -> Option<Seq<char>> {
    if forall|i: int| 0 <= i < bytes.len() ==> is_visible(#[trigger] bytes[i]) {
        Some(Seq::new(bytes.len(), |i: int| bytes[i] as char))
    } else {
        None
    }
}

/// The text of a header's value, where all its bytes are visible.
pub fn visible_text(bytes: &Vec<u8>) -> (r: Option<String>)
    ensures
        match visible_value(bytes@) {
            Some(s) => r matches Some(t) && t@ == s,
            None => r is None,
        },
{
    let mut out = String::new();
    let mut i: usize = 0;
    while i < bytes.len()
        invariant
            i <= bytes@.len(),
            forall|j: int| 0 <= j < i ==> is_visible(#[trigger] bytes@[j]),
            out@ =~= Seq::new(i as nat, |j: int| bytes@[j] as char),
        decreases bytes@.len() - i,
    {
        let b = bytes[i];
        if !((32 <= b && b < 127) || b == 9) {
            return None;
        }
        out.push(b as char);
        i = i + 1;
    }
    Some(out)
}

/// The header fields among the first `n` whose values can be read, with lower-case names.
pub open spec fn readable_headers(headers: Seq<RawHeader>, n: nat) -> Seq<(Seq<char>, Seq<char>)>
    decreases n,
{
    if n == 0 {
        Seq::empty()
    } else {
        let before = readable_headers(headers, (n - 1) as nat);
        match visible_value(headers[n - 1].value@) {
            Some(value) => before.push((lowered(headers[n - 1].name@), value)),
            None => before,
        }
    }
}

/// Header fields as pairs of a name and a value.
pub open spec fn header_pairs(headers: Seq<HeaderField>) -> Seq<(Seq<char>, Seq<char>)> {
    headers.map_values(|header: HeaderField| (header.name@, header.value@))
}

fn push_header(headers: &mut Vec<HeaderField>, name: String, value: String)
    ensures
        header_pairs(final(headers)@) == header_pairs(old(headers)@).push((name@, value@)),
{
    let ghost before = headers@;
    headers.push(HeaderField { name, value });
    proof {
        assert(header_pairs(headers@) =~= header_pairs(before).push((name@, value@)));
    }
}

/// The header fields whose values can be read, with lower-case names.
pub fn read_headers(headers: &Vec<RawHeader>) -> (r: Vec<HeaderField>)
    ensures
        header_pairs(r@) == readable_headers(headers@, headers@.len()),
{
    let mut out: Vec<HeaderField> = Vec::new();
    let mut i: usize = 0;
    proof {
        assert(header_pairs(out@) =~= readable_headers(headers@, 0));
    }
    while i < headers.len()
        invariant
            i <= headers@.len(),
            header_pairs(out@) == readable_headers(headers@, i as nat),
        decreases headers@.len() - i,
    {
        match visible_text(&headers[i].value) {
            Some(value) => {
                let name = to_lower(headers[i].name.as_str());
                push_header(&mut out, name, value);
            },
            None => {},
        }
        i = i + 1;
    }
    out
}

/// The fields among the first `n` that do not state the length of the body.
pub open spec fn without_length(
    headers: Seq<(Seq<char>, Seq<char>)>,
    n: nat,
) -> Seq<(Seq<char>, Seq<char>)>
    decreases n,
{
    if n == 0 {
        Seq::empty()
    } else {
        let before = without_length(headers, (n - 1) as nat);
        if lowered(headers[n - 1].0) == "content-length"@ {
            before
        } else {
            before.push(headers[n - 1])
        }
    }
}

/// The fields of a request with a body of some length: a body that is there has its length stated
/// once, and rightly.
pub open spec fn bridged_headers(
    headers: Seq<(Seq<char>, Seq<char>)>,
    body_length: nat,
) -> Seq<(Seq<char>, Seq<char>)> {
    if body_length == 0 {
        headers
    } else {
        without_length(headers, headers.len()).push(("content-length"@, decimal(body_length)))
    }
}

/// States the length of a request's body in its header fields.
pub fn bridge_headers(headers: Vec<HeaderField>, body_length: usize) -> (r: Vec<HeaderField>)
    ensures
        header_pairs(r@) == bridged_headers(header_pairs(headers@), body_length as nat),
{
    if body_length == 0 {
        return headers;
    }
    let ghost all = header_pairs(headers@);
    let mut out: Vec<HeaderField> = Vec::new();
    let mut i: usize = 0;
    proof {
        assert(header_pairs(out@) =~= without_length(all, 0));
    }
    while i < headers.len()
        invariant
            i <= headers@.len(),
            all == header_pairs(headers@),
            header_pairs(out@) == without_length(all, i as nat),
        decreases headers@.len() - i,
    {
        proof {
            assert(all[i as int] == (headers@[i as int].name@, headers@[i as int].value@));
        }
        let name = to_lower(headers[i].name.as_str());
        if !str_eq(name.as_str(), "content-length") {
            push_header(&mut out, headers[i].name.clone(), headers[i].value.clone());
        }
        i = i + 1;
    }
    push_header(&mut out, text("content-length"), decimal_text(body_length as u64));
    out
}

/// How a request's body ends.
#[derive(Debug, Clone, Copy, PartialEq, Eq, Structural)]
pub enum BodyKind {
    Empty,
    ContentLength(u64),
}

/// An HTTP/3 request as an HTTP/1 request.
#[derive(Debug)]
pub struct BridgedRequest {
    pub method: String,
    pub target: String,
    pub headers: Vec<HeaderField>,
    pub body_kind: BodyKind,
    pub keep_alive: bool,
}

/// The target of a request; one that names none asks for the root.
pub open spec fn target_or_root(path_and_query: Option<Seq<char>>) -> Seq<char> {
    match path_and_query {
        Some(target) => target,
        None => "/"@,
    }
}

/// Makes an HTTP/1 request of an HTTP/3 request.
pub fn bridge_http3_request(
    method: String,
    path_and_query: Option<String>,
    headers: &Vec<RawHeader>,
    body_length: usize,
) -> (r: BridgedRequest)
    ensures
        r.method == method,
        r.target@ == target_or_root(
            match path_and_query {
                Some(s) => Some(s@),
                None => None,
            },
        ),
        header_pairs(r.headers@) == bridged_headers(
            readable_headers(headers@, headers@.len()),
            body_length as nat,
        ),
        r.body_kind == (if body_length == 0 {
            BodyKind::Empty
        } else {
            BodyKind::ContentLength(body_length as u64)
        }),
        !r.keep_alive,
{
    let target = match path_and_query {
        Some(target) => target,
        None => text("/"),
    };
    let readable = read_headers(headers);
    let headers = bridge_headers(readable, body_length);
    let body_kind = if body_length == 0 {
        BodyKind::Empty
    } else {
        BodyKind::ContentLength(body_length as u64)
    };
    BridgedRequest { method, target, headers, body_kind, keep_alive: false }
}

/// How the status of a response is reported.
pub open spec fn status_class(status: u16) -> Seq<char> {
    if 200 <= status < 300 {
        "2xx"@
    } else if 300 <= status < 400 {
        "3xx"@
    } else if 400 <= status < 500 {
        "4xx"@
    } else if 500 <= status < 600 {
        "5xx"@
    } else {
        "other"@
    }
}

/// How the status of a response is reported.
pub fn http3_status_reason(status: u16) -> (r: &'static str)
    ensures
        r@ == status_class(status),
{
    match status / 100 {
        2 => "2xx",
        3 => "3xx",
        4 => "4xx",
        5 => "5xx",
        _ => "other",
    }
}

/// Where an HTTP/3 request came to its end.
#[derive(Debug, Clone, Copy, PartialEq, Eq, Structural)]
pub enum Http3RequestEnd {
    BridgeFailed,
    ResponseBuildFailed,
    ResponseHeadWriteFailed,
    ResponseBodyWriteFailed,
    ResponseFinishFailed,
    Served { status: u16 },
}

/// The result and the reason that are reported of an HTTP/3 request.
pub open spec fn http3_report(end: Http3RequestEnd) -> (Seq<char>, Seq<char>) {
    match end {
        Http3RequestEnd::BridgeFailed => ("failed"@, "bridge_failed"@),
        Http3RequestEnd::ResponseBuildFailed => ("failed"@, "response_build_failed"@),
        Http3RequestEnd::ResponseHeadWriteFailed => ("failed"@, "response_head_write_failed"@),
        Http3RequestEnd::ResponseBodyWriteFailed => ("failed"@, "response_body_write_failed"@),
        Http3RequestEnd::ResponseFinishFailed => ("failed"@, "response_finish_failed"@),
        Http3RequestEnd::Served { status } => ("served"@, status_class(status)),
    }
}

/// The result and the reason that are reported of an HTTP/3 request.
pub fn report_http3_request(end: Http3RequestEnd) -> (r: (&'static str, &'static str))
    ensures
        (r.0@, r.1@) == http3_report(end),
{
    match end {
        Http3RequestEnd::BridgeFailed => ("failed", "bridge_failed"),
        Http3RequestEnd::ResponseBuildFailed => ("failed", "response_build_failed"),
        Http3RequestEnd::ResponseHeadWriteFailed => ("failed", "response_head_write_failed"),
        Http3RequestEnd::ResponseBodyWriteFailed => ("failed", "response_body_write_failed"),
        Http3RequestEnd::ResponseFinishFailed => ("failed", "response_finish_failed"),
        Http3RequestEnd::Served { status } => ("served", http3_status_reason(status)),
    }
}

proof fn lemma_without_length(headers: Seq<(Seq<char>, Seq<char>)>, n: nat, i: int)
    requires
        n <= headers.len(),
        0 <= i < without_length(headers, n).len(),
    ensures
        lowered(without_length(headers, n)[i].0) != "content-length"@,
    decreases n,
{
    if n > 0 {
        let before = without_length(headers, (n - 1) as nat);
        if i < before.len() {
            lemma_without_length(headers, (n - 1) as nat, i);
        }
    }
}

/// A request with a body states the length of its body in the last field and in no other.
pub proof fn body_length_is_stated_once(
    headers: Seq<(Seq<char>, Seq<char>)>,
    body_length: nat,
    i: int,
)
    requires
        body_length > 0,
        0 <= i < bridged_headers(headers, body_length).len(),
        lowered(bridged_headers(headers, body_length)[i].0) == "content-length"@,
    ensures
        i == bridged_headers(headers, body_length).len() - 1,
        bridged_headers(headers, body_length)[i].1 == decimal(body_length),
{
    let kept = without_length(headers, headers.len());
    if i < kept.len() {
        lemma_without_length(headers, headers.len(), i);
    }
}

} // verus!
