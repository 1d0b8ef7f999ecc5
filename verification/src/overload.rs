//! Overload of a listener: its states, what is reported of it, and what a connection is told that
//! is not taken.

use crate::json::{escaped, put_escaped};
use crate::text::{decimal, decimal_text, text};
use vstd::prelude::*;
use vstd::string::*;
use vstd::utf8::*;

verus! {

/// How loaded a listener is.
#[derive(Debug, Clone, Copy, PartialEq, Eq, Structural)]
pub enum OverloadState {
    Normal,
    Constrained,
    Shedding,
    Brownout,
}

/// What is known of a listener's load at one moment.
#[derive(Debug, Clone, Copy, PartialEq, Eq, Structural)]
pub struct OverloadSnapshot {
    pub state: OverloadState,
    pub active_signal_count: u64,
    pub rate_limited_count: u64,
    pub concurrency_limited_count: u64,
    pub breaker_open_count: u64,
    pub retry_budget_exhausted_count: u64,
    pub shed_request_count: u64,
    pub brownout_feature_count: u64,
}

/// A snapshot together with the features that are switched off.
#[derive(Debug)]
pub struct OverloadReading {
    pub snapshot: OverloadSnapshot,
    pub disabled_features: Vec<String>,
}

/// The name of a state in reports.
pub open spec fn state_name(state: OverloadState) -> Seq<char> {
    match state {
        OverloadState::Normal => "normal"@,
        OverloadState::Constrained => "constrained"@,
        OverloadState::Shedding => "shedding"@,
        OverloadState::Brownout => "brownout"@,
    }
}

/// The name of a state in reports.
pub fn overload_state_name(state: OverloadState) -> (r: &'static str)
    ensures
        r@ == state_name(state),
{
    match state {
        OverloadState::Normal => "normal",
        OverloadState::Constrained => "constrained",
        OverloadState::Shedding => "shedding",
        OverloadState::Brownout => "brownout",
    }
}

/// The number that stands for a state in a listener's counters.
pub open spec fn state_index(state: OverloadState) -> usize {
    match state {
        OverloadState::Normal => 0,
        OverloadState::Constrained => 1,
        OverloadState::Shedding => 2,
        OverloadState::Brownout => 3,
    }
}

/// The number that stands for a state in a listener's counters.
pub fn overload_state_index(state: OverloadState) -> (r: usize)
    ensures
        r == state_index(state),
{
    match state {
        OverloadState::Normal => 0,
        OverloadState::Constrained => 1,
        OverloadState::Shedding => 2,
        OverloadState::Brownout => 3,
    }
}

/// The state that a number in a listener's counters stands for.
pub open spec fn state_at(index: usize) -> OverloadState {
    if index == 1 {
        OverloadState::Constrained
    } else if index == 2 {
        OverloadState::Shedding
    } else if index == 3 {
        OverloadState::Brownout
    } else {
        OverloadState::Normal
    }
}

/// The state that a number in a listener's counters stands for.
pub fn overload_state_from_index(index: usize) -> (r: OverloadState)
    ensures
        r == state_at(index),
{
    match index {
        1 => OverloadState::Constrained,
        2 => OverloadState::Shedding,
        3 => OverloadState::Brownout,
        _ => OverloadState::Normal,
    }
}

/// A state that is kept as a number is the same when it is read back.
pub proof fn overload_states_survive_their_index(state: OverloadState)
    ensures
        state_at(state_index(state)) == state,
{
}

/// What is known of a listener that has no overload policy: it sheds once it is full.
pub open spec fn counted_snapshot(active: usize, shed: u64, limit: usize) -> OverloadSnapshot {
    OverloadSnapshot {
        state: if active >= limit {
            OverloadState::Shedding
        } else {
            OverloadState::Normal
        },
        active_signal_count: if active >= limit {
            1
        } else {
            0
        },
        rate_limited_count: 0,
        concurrency_limited_count: active as u64,
        breaker_open_count: 0,
        retry_budget_exhausted_count: 0,
        shed_request_count: shed,
        brownout_feature_count: 0,
    }
}

/// What is known of a listener's load: what its overload manager reads, or, where it has none,
/// what its counters tell.
pub fn snapshot_listener_overload(
    reading: Option<OverloadReading>,
    active: usize,
    shed: u64,
    limit: usize,
) -> (r: OverloadReading)
    ensures
        match reading {
            Some(reading) => r == reading,
            None => r.snapshot == counted_snapshot(active, shed, limit) && r.disabled_features@.len()
                == 0,
        },
{
    match reading {
        Some(reading) => reading,
        None => {
            let full = active >= limit;
            let state = if full {
                OverloadState::Shedding
            } else {
                OverloadState::Normal
            };
            OverloadReading {
                snapshot: OverloadSnapshot {
                    state,
                    active_signal_count: if full {
                        1
                    } else {
                        0
                    },
                    rate_limited_count: 0,
                    concurrency_limited_count: active as u64,
                    breaker_open_count: 0,
                    retry_budget_exhausted_count: 0,
                    shed_request_count: shed,
                    brownout_feature_count: 0,
                },
                disabled_features: Vec::new(),
            }
        },
    }
}

/// What kind of event an overload manager reports.
#[derive(Debug, Clone, Copy, PartialEq, Eq, Structural)]
pub enum OverloadEventKind {
    StateChanged,
    RequestShed,
    BrownoutFeaturesChanged,
}

/// An event of an overload manager.
#[derive(Debug)]
pub struct OverloadEvent {
    pub kind: OverloadEventKind,
    pub scope: String,
    pub detail: String,
}

/// An event as it is reported.
#[derive(Debug)]
pub struct OverloadEventStatus {
    pub code: String,
    pub scope: String,
    pub detail: String,
}

/// The code of an event in reports.
pub open spec fn event_code(kind: OverloadEventKind) -> Seq<char> {
    match kind {
        OverloadEventKind::StateChanged => "overload.state.changed"@,
        OverloadEventKind::RequestShed => "overload.request.shed"@,
        OverloadEventKind::BrownoutFeaturesChanged => "overload.brownout.features_changed"@,
    }
}

impl OverloadEventStatus {
    /// The report of an event of an overload manager.
    pub fn from_overload_event(event: OverloadEvent) -> (r: Self)
        ensures
            r.code@ == event_code(event.kind),
            r.scope == event.scope,
            r.detail == event.detail,
    {
        let code = match event.kind {
            OverloadEventKind::StateChanged => text("overload.state.changed"),
            OverloadEventKind::RequestShed => text("overload.request.shed"),
            OverloadEventKind::BrownoutFeaturesChanged => {
                text("overload.brownout.features_changed")
            },
        };
        OverloadEventStatus { code, scope: event.scope, detail: event.detail }
    }

    /// The event as a JSON object.
    pub open spec fn json(self) -> Seq<char> {
        "{\"code\":\""@ + escaped(self.code@) + "\",\"scope\":\""@ + escaped(self.scope@)
            + "\",\"detail\":\""@ + escaped(self.detail@) + "\"}"@
    }

    /// The event as a JSON object.
    pub fn to_json(&self) -> (r: String)
        ensures
            r@ == self.json(),
    {
        let mut out = text("{\"code\":\"");
        put_escaped(&mut out, self.code.as_str());
        out.append("\",\"scope\":\"");
        put_escaped(&mut out, self.scope.as_str());
        out.append("\",\"detail\":\"");
        put_escaped(&mut out, self.detail.as_str());
        out.append("\"}");
        out
    }
}

/// What a listener's overload manager says: its state, the features that are switched off, and
/// its recent events.
#[derive(Debug)]
pub struct OverloadManagerStatus {
    pub state: OverloadState,
    pub disabled_features: Vec<String>,
    pub recent_events: Vec<OverloadEventStatus>,
}

/// What is reported of a listener's load: what its overload manager says, or, where it has none,
/// the state that its counters last held.
pub fn snapshot_listener_overload_status(
    manager: Option<OverloadManagerStatus>,
    counted_state: usize,
) -> (r: OverloadManagerStatus)
    ensures
        match manager {
            Some(status) => r == status,
            None => {
                &&& r.state == state_at(counted_state)
                &&& r.disabled_features@.len() == 0
                &&& r.recent_events@.len() == 0
            },
        },
{
    match manager {
        Some(status) => status,
        None => OverloadManagerStatus {
            state: overload_state_from_index(counted_state),
            disabled_features: Vec::new(),
            recent_events: Vec::new(),
        },
    }
}

/// Under which scope a listener's overload is reported.
pub fn overload_scope(listener_name: &str) -> (r: String)
    ensures
        r@ == "workspace_listener_"@ + listener_name@,
{
    let mut out = text("workspace_listener_");
    out.append(listener_name);
    out
}

/// Under which scope a listener's HTTP/3 requests are reported.
pub fn http3_scope(listener_name: &str) -> (r: String)
    ensures
        r@ == "workspace_http3_"@ + listener_name@,
{
    let mut out = text("workspace_http3_");
    out.append(listener_name);
    out
}

/// How a state is written in the detail of an event.
pub open spec fn state_word(state: OverloadState) -> Seq<char> {
    match state {
        OverloadState::Normal => "Normal"@,
        OverloadState::Constrained => "Constrained"@,
        OverloadState::Shedding => "Shedding"@,
        OverloadState::Brownout => "Brownout"@,
    }
}

/// The counted state after a snapshot, and the detail of the event where the state changed.
#[derive(Debug)]
pub struct OverloadTransition {
    pub next_state: usize,
    pub event_detail: Option<String>,
}

/// Follows a listener's load: an event is due if and only if the state is not the counted one.
pub fn sync_overload_state(previous_state: usize, state: OverloadState) -> (r: OverloadTransition)
    ensures
        r.next_state == state_index(state),
        r.event_detail is Some <==> previous_state != state_index(state),
        r.event_detail matches Some(detail) ==> detail@
            == "listener overload state transitioned to "@ + state_word(state),
{
    let next_state = overload_state_index(state);
    if previous_state != next_state {
        let mut detail = text("listener overload state transitioned to ");
        detail.append(
            match state {
                OverloadState::Normal => "Normal",
                OverloadState::Constrained => "Constrained",
                OverloadState::Shedding => "Shedding",
                OverloadState::Brownout => "Brownout",
            },
        );
        OverloadTransition { next_state, event_detail: Some(detail) }
    } else {
        OverloadTransition { next_state, event_detail: None }
    }
}

/// What kind of connections a listener takes, as the events name them.
#[derive(Debug, Clone, Copy, PartialEq, Eq, Structural)]
pub enum ConnectionKind {
    Public,
    Admin,
    Http3,
}

/// How a kind of connection is named.
pub open spec fn kind_word(kind: ConnectionKind) -> Seq<char> {
    match kind {
        ConnectionKind::Public => "public"@,
        ConnectionKind::Admin => "admin"@,
        ConnectionKind::Http3 => "http3"@,
    }
}

/// The detail of the event of a connection that was shed.
pub fn shed_detail(kind: ConnectionKind, limit: usize) -> (r: String)
    ensures
        r@ == "listener shed "@ + kind_word(kind) + " connection at capacity "@ + decimal(
            limit as nat,
        ),
{
    let mut out = text("listener shed ");
    out.append(
        match kind {
            ConnectionKind::Public => "public",
            ConnectionKind::Admin => "admin",
            ConnectionKind::Http3 => "http3",
        },
    );
    out.append(" connection at capacity ");
    let n = decimal_text(limit as u64);
    out.append(n.as_str());
    out
}

/// The detail of the event of a connection that hostile-edge protection rejected.
pub fn abuse_rejection_detail(code: &str, detail: &str) -> (r: String)
    ensures
        r@ == "listener rejected hostile-edge connection: "@ + code@ + " ("@ + detail@ + ")"@,
{
    let mut out = text("listener rejected hostile-edge connection: ");
    out.append(code);
    out.append(" (");
    out.append(detail);
    out.append(")");
    out
}

/// The body that tells a client why hostile-edge protection rejected it.
pub open spec fn abuse_rejection_body(code: Seq<char>) -> Seq<char> {
    "listener rejected connection: "@ + code + "\n"@
}

/// The whole reply to a connection that hostile-edge protection rejected.
pub open spec fn abuse_rejection_reply(code: Seq<char>, length: nat) -> Seq<char> {
    "HTTP/1.1 503 Service Unavailable\r\nContent-Type: text/plain; charset=utf-8\r\nContent-Length: "@
        + decimal(length) + "\r\nConnection: close\r\nX-LB-Abuse-Reason: "@ + code + "\r\n\r\n"@
        + abuse_rejection_body(code)
}

/// The whole reply to a connection that hostile-edge protection rejected.
pub fn abuse_rejection_response(code: &str) -> (r: String)
    ensures
        r@ == abuse_rejection_reply(code@, encode_utf8(abuse_rejection_body(code@)).len()),
{
    let mut body = text("listener rejected connection: ");
    body.append(code);
    body.append("\n");
    let length: usize = body.as_str().as_bytes().len();
    let mut out = text(
        "HTTP/1.1 503 Service Unavailable\r\nContent-Type: text/plain; charset=utf-8\r\nContent-Length: ",
    );
    let n = decimal_text(length as u64);
    out.append(n.as_str());
    out.append("\r\nConnection: close\r\nX-LB-Abuse-Reason: ");
    out.append(code);
    out.append("\r\n\r\n");
    out.append(body.as_str());
    out
}

} // verus!
