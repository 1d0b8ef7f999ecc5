//! The course of an administration request: who may ask, what is answered, and what is recorded.

use crate::addr::IpAddress;
use crate::admin_api::{
    action_name, action_of, action_permission, admin_audit_code, classify_admin_request_action,
    header_lines, negotiate_admin_api_request, negotiated_mode, versioned_admin_response_headers,
    AdminApiRequestMode, AdminRequestAction,
};
use crate::admin_audit::AdminAuditEvent;
use crate::admin_auth::{
    admin_auth_error_contract, auth_error_code, authenticate_admin_request, challenge_headers,
    judge, AdminApiErrorCode, AdminReplayState, AdminRequestContext, AuthInput, ContextView,
    FailureView, RequestHead,
};
use crate::admin_policy::{admin_source_allowed, CompiledAdminPolicy};
use crate::error::ServeError;
use crate::json::{bool_json, put_bool, put_number, put_serde_string, serde_string};
use crate::listener_status::{health_at, health_name, reload_health_name};
use crate::readiness::WorkspaceReadinessStatus;
use crate::reload_plan::{name_list, ReloadApplyOutcome, ReloadAuditPlan, WarmRestartApplyOutcome};
use crate::secrets::SecretReadings;
use crate::state::{request_name, WorkspaceServeState};
use crate::text::{decimal, join, str_eq, text, trim, trimmed};
use vstd::prelude::*;
use vstd::string::*;

verus! {

/// An answer to an administration request.
#[derive(Debug)]
pub struct AdminReply {
    pub status: &'static str,
    pub content_type: &'static str,
    pub headers: Vec<&'static str>,
    pub body: String,
}

/// An answer, as a mathematical value.
#[verifier::ext_equal]
pub struct ReplyView {
    pub status: Seq<char>,
    pub content_type: Seq<char>,
    pub headers: Seq<Seq<char>>,
    pub body: Seq<char>,
}

impl View for AdminReply {
    type V = ReplyView;

    open spec fn view(&self) -> ReplyView {
        ReplyView {
            status: self.status@,
            content_type: self.content_type@,
            headers: header_lines(self.headers@),
            body: self.body@,
        }
    }
}

/// An event, as a mathematical value.
#[verifier::ext_equal]
pub struct EventView {
    pub observed_at_unix_ms: u64,
    pub request_id: Seq<char>,
    pub listener: Seq<char>,
    pub actor: Seq<char>,
    pub auth_mode: Seq<char>,
    pub action: Seq<char>,
    pub code: Seq<char>,
    pub source: Seq<char>,
    pub outcome: Seq<char>,
    pub detail: Seq<char>,
}

impl View for AdminAuditEvent {
    type V = EventView;

    open spec fn view(&self) -> EventView {
        EventView {
            observed_at_unix_ms: self.observed_at_unix_ms,
            request_id: self.request_id@,
            listener: self.listener@,
            actor: self.actor@,
            auth_mode: self.auth_mode@,
            action: self.action@,
            code: self.code@,
            source: self.source@,
            outcome: self.outcome@,
            detail: self.detail@,
        }
    }
}

/// How an error code is written.
pub open spec fn error_code_word(code: AdminApiErrorCode) -> Seq<char> {
    match code {
        AdminApiErrorCode::Misconfigured => "misconfigured"@,
        AdminApiErrorCode::ReplayRejected => "replay_rejected"@,
        AdminApiErrorCode::Forbidden => "forbidden"@,
        AdminApiErrorCode::Unauthorized => "unauthorized"@,
        AdminApiErrorCode::RateLimited => "rate_limited"@,
        AdminApiErrorCode::UnsupportedApiVersion => "unsupported_api_version"@,
        AdminApiErrorCode::ValidationFailed => "validation_failed"@,
        AdminApiErrorCode::UnsupportedMutation => "unsupported_mutation"@,
        AdminApiErrorCode::ReloadFailed => "reload_failed"@,
        AdminApiErrorCode::NotFound => "not_found"@,
    }
}

/// How an error code is written.
pub fn admin_error_code_name(code: AdminApiErrorCode) -> (r: &'static str)
    ensures
        r@ == error_code_word(code),
{
    match code {
        AdminApiErrorCode::Misconfigured => "misconfigured",
        AdminApiErrorCode::ReplayRejected => "replay_rejected",
        AdminApiErrorCode::Forbidden => "forbidden",
        AdminApiErrorCode::Unauthorized => "unauthorized",
        AdminApiErrorCode::RateLimited => "rate_limited",
        AdminApiErrorCode::UnsupportedApiVersion => "unsupported_api_version",
        AdminApiErrorCode::ValidationFailed => "validation_failed",
        AdminApiErrorCode::UnsupportedMutation => "unsupported_mutation",
        AdminApiErrorCode::ReloadFailed => "reload_failed",
        AdminApiErrorCode::NotFound => "not_found",
    }
}

/// The envelope of a success in the versioned interface.
pub open spec fn success_envelope(request_id: Seq<char>, data: Seq<char>) -> Seq<char> {
    "{\"api_version\":\"v1\",\"request_id\":"@ + serde_string(request_id)
        + ",\"status\":\"ok\",\"data\":"@ + data + "}"@
}

/// The envelope of an error in the versioned interface.
pub open spec fn error_envelope(
    request_id: Seq<char>,
    code: AdminApiErrorCode,
    message: Seq<char>,
    retryable: bool,
) -> Seq<char> {
    "{\"api_version\":\"v1\",\"request_id\":"@ + serde_string(request_id)
        + ",\"status\":\"error\",\"error\":{\"code\":\""@ + error_code_word(code)
        + "\",\"message\":"@ + serde_string(message) + ",\"retryable\":"@ + bool_json(retryable)
        + "}}"@
}

/// The header lines of an answer in the versioned interface.
pub open spec fn versioned_headers(extra: Seq<Seq<char>>) -> Seq<Seq<char>> {
    seq!["X-LB-Admin-Api-Version: v1"@] + extra
}

/// A success: in the versioned interface its data in an envelope, else a document of its own.
pub open spec fn success_reply(
    versioned: bool,
    request_id: Seq<char>,
    status: Seq<char>,
    data: Seq<char>,
    plain_type: Seq<char>,
    plain_body: Seq<char>,
) -> ReplyView {
    if versioned {
        ReplyView {
            status,
            content_type: "application/json"@,
            headers: versioned_headers(Seq::empty()),
            body: success_envelope(request_id, data),
        }
    } else {
        ReplyView {
            status,
            content_type: plain_type,
            headers: Seq::empty(),
            body: plain_body,
        }
    }
}

/// An error: in the versioned interface in an envelope, else in a line of text.
pub open spec fn error_reply(
    versioned: bool,
    request_id: Seq<char>,
    status: Seq<char>,
    extra: Seq<Seq<char>>,
    code: AdminApiErrorCode,
    message: Seq<char>,
    retryable: bool,
    plain_body: Seq<char>,
) -> ReplyView {
    if versioned {
        ReplyView {
            status,
            content_type: "application/json"@,
            headers: versioned_headers(extra),
            body: error_envelope(request_id, code, message, retryable),
        }
    } else {
        ReplyView {
            status,
            content_type: "text/plain; charset=utf-8"@,
            headers: extra,
            body: plain_body,
        }
    }
}

fn write_success(
    versioned: bool,
    request_id: &str,
    status: &'static str,
    data: &str,
    plain_type: &'static str,
    plain_body: String,
) -> (r: AdminReply)
    ensures
        r@ == success_reply(
            versioned,
            request_id@,
            status@,
            data@,
            plain_type@,
            plain_body@,
        ),
{
    let none: Vec<&'static str> = Vec::new();
    proof {
        assert(header_lines(none@) =~= Seq::<Seq<char>>::empty());
    }
    if versioned {
        let mut body = text("{\"api_version\":\"v1\",\"request_id\":");
        put_serde_string(&mut body, request_id);
        body.append(",\"status\":\"ok\",\"data\":");
        body.append(data);
        body.append("}");
        AdminReply {
            status,
            content_type: "application/json",
            headers: versioned_admin_response_headers(&none),
            body,
        }
    } else {
        AdminReply { status, content_type: plain_type, headers: none, body: plain_body }
    }
}

fn write_error(
    versioned: bool,
    request_id: &str,
    status: &'static str,
    extra: Vec<&'static str>,
    code: AdminApiErrorCode,
    message: &str,
    retryable: bool,
    plain_body: String,
) -> (r: AdminReply)
    ensures
        r@ == error_reply(
            versioned,
            request_id@,
            status@,
            header_lines(extra@),
            code,
            message@,
            retryable,
            plain_body@,
        ),
{
    if versioned {
        let mut body = text("{\"api_version\":\"v1\",\"request_id\":");
        put_serde_string(&mut body, request_id);
        body.append(",\"status\":\"error\",\"error\":{\"code\":\"");
        body.append(admin_error_code_name(code));
        body.append("\",\"message\":");
        put_serde_string(&mut body, message);
        body.append(",\"retryable\":");
        put_bool(&mut body, retryable);
        body.append("}}");
        AdminReply {
            status,
            content_type: "application/json",
            headers: versioned_admin_response_headers(&extra),
            body,
        }
    } else {
        AdminReply {
            status,
            content_type: "text/plain; charset=utf-8",
            headers: extra,
            body: plain_body,
        }
    }
}

fn no_headers() -> (r: Vec<&'static str>)
    ensures
        header_lines(r@) == Seq::<Seq<char>>::empty(),
{
    let none: Vec<&'static str> = Vec::new();
    proof {
        assert(header_lines(none@) =~= Seq::<Seq<char>>::empty());
    }
    none
}

fn line(s: &str) -> (r: String)
    ensures
        r@ == s@ + "\n"@,
{
    let mut out = text(s);
    out.append("\n");
    out
}

/// What is known of a request before anyone looks at who makes it.
#[derive(Debug)]
pub struct AdminSession {
    pub mode: AdminApiRequestMode,
    pub action: AdminRequestAction,
    pub request_id: String,
    pub listener: String,
    pub source: IpAddress,
}

impl AdminSession {
    /// Whether answers are wrapped in the envelope of the versioned interface.
    pub open spec fn versioned(self) -> bool {
        !(self.mode is Legacy)
    }

    /// An event of this request.
    pub open spec fn event(
        self,
        observed_at_ms: u64,
        actor: Seq<char>,
        auth_mode: Seq<char>,
        code: Seq<char>,
        outcome: Seq<char>,
        detail: Seq<char>,
    ) -> EventView {
        EventView {
            observed_at_unix_ms: observed_at_ms,
            request_id: self.request_id@,
            listener: self.listener@,
            actor,
            auth_mode,
            action: action_name(self.action),
            code,
            source: self.source.written(),
            outcome,
            detail,
        }
    }

    /// The code under which an outcome of this request is recorded.
    pub open spec fn code(self, outcome: Seq<char>) -> Seq<char> {
        action_name(self.action) + "_"@ + outcome
    }

    /// Whether this is the session of a request that a listener read from a source, under a
    /// number.
    pub open spec fn is_of(
        self,
        request: RequestHead,
        listener: Seq<char>,
        source: IpAddress,
        number: u64,
    ) -> bool {
        &&& self.mode@ == negotiated_mode(request)
        &&& self.action == action_of(request.method@, negotiated_mode(request).canonical())
        &&& self.request_id@ == request_name(number)
        &&& self.listener@ == listener
        &&& self.source == source
    }

    fn record(
        &self,
        observed_at_ms: u64,
        actor: &str,
        auth_mode: &str,
        code: String,
        outcome: &str,
        detail: &str,
    ) -> (r: AdminAuditEvent)
        ensures
            r@ == self.event(observed_at_ms, actor@, auth_mode@, code@, outcome@, detail@),
    {
        AdminAuditEvent {
            observed_at_unix_ms: observed_at_ms,
            request_id: self.request_id.clone(),
            listener: self.listener.clone(),
            actor: text(actor),
            auth_mode: text(auth_mode),
            action: text(self.action.as_str()),
            code,
            source: self.source.to_text(),
            outcome: text(outcome),
            detail: text(detail),
        }
    }

    /// Opens the course of a request that was read.
    pub fn begin(
        state: &mut WorkspaceServeState,
        request: &RequestHead,
        listener: &str,
        source: IpAddress,
    ) -> (r: Self)
        ensures
            r.is_of(*request, listener@, source, old(state).admin_audit_sequence),
            *final(state) == (WorkspaceServeState {
                admin_audit_sequence: old(state).admin_audit_sequence.wrapping_add(1),
                ..*old(state)
            }),
    {
        let mode = negotiate_admin_api_request(request);
        let action = classify_admin_request_action(
            request.method.as_str(),
            mode.canonical_target(),
        );
        let request_id = state.next_admin_request_id();
        AdminSession { mode, action, request_id, listener: text(listener), source }
    }
}

/// How a request that is not admitted is recorded and answered.
#[derive(Debug)]
pub struct Refusal {
    pub event: AdminAuditEvent,
    pub reply: AdminReply,
}

/// How a request from a source that may not ask is refused.
pub open spec fn source_refusal(session: AdminSession, observed_at_ms: u64) -> (
    EventView,
    ReplyView,
) {
    (
        session.event(
            observed_at_ms,
            "anonymous"@,
            "source_policy"@,
            session.code("denied"@),
            "denied"@,
            "source address is outside the admin allow-list"@,
        ),
        error_reply(
            session.versioned(),
            session.request_id@,
            "403 Forbidden"@,
            Seq::empty(),
            AdminApiErrorCode::Forbidden,
            "admin source not allowed"@,
            false,
            "admin source not allowed\n"@,
        ),
    )
}

/// How a request is refused whose maker could not be told.
pub open spec fn auth_refusal(session: AdminSession, failure: FailureView, observed_at_ms: u64) -> (
    EventView,
    ReplyView,
) {
    (
        session.event(
            observed_at_ms,
            failure.actor,
            failure.auth_mode,
            session.code(failure.outcome),
            failure.outcome,
            failure.detail,
        ),
        error_reply(
            session.versioned(),
            session.request_id@,
            failure.status,
            challenge_headers(failure.challenge),
            auth_error_code(failure.status).0,
            trimmed(failure.body),
            auth_error_code(failure.status).1,
            failure.body,
        ),
    )
}

/// How a request is refused whose maker asks too often.
pub open spec fn rate_refusal(
    session: AdminSession,
    context: ContextView,
    observed_at_ms: u64,
) -> (EventView, ReplyView) {
    (
        session.event(
            observed_at_ms,
            context.actor,
            context.auth_mode,
            session.code("rate_limited"@),
            "rate_limited"@,
            "admin identity exceeded configured rate limits"@,
        ),
        error_reply(
            session.versioned(),
            session.request_id@,
            "429 Too Many Requests"@,
            Seq::empty(),
            AdminApiErrorCode::RateLimited,
            "admin rate limit exceeded"@,
            true,
            "admin rate limit exceeded\n"@,
        ),
    )
}

/// What the maker of a request is judged by.
pub open spec fn auth_input(
    session: AdminSession,
    request: RequestHead,
    body: Seq<u8>,
    legacy_secret: Seq<char>,
    readings: SecretReadings,
    now_secs: u64,
) -> AuthInput {
    AuthInput {
        head: request,
        body,
        permission: action_permission(session.action),
        source: session.source,
        legacy_secret,
        request_id: session.request_id@,
        readings,
        now_secs,
    }
}

/// Lets a request pass if its source may ask and its maker can be told and may do what is asked.
/// A request from a source that may not ask is refused before anything else is looked at.
pub fn pass_gate(
    session: &AdminSession,
    request: &RequestHead,
    request_body: &[u8],
    policy: &CompiledAdminPolicy,
    replay_state: &mut AdminReplayState,
    legacy_admin_secret: &str,
    readings: &SecretReadings,
    now_secs: u64,
    now: u128,
    observed_at_ms: u64,
) -> (r: Result<AdminRequestContext, Refusal>)
    requires
        policy.wf(),
    ensures
        !policy.source_allowed(session.source) ==> {
            &&& r matches Err(refusal) && (refusal.event@, refusal.reply@) == source_refusal(
                *session,
                observed_at_ms,
            )
            &&& final(replay_state).nonces@ == old(replay_state).nonces@
        },
        policy.source_allowed(session.source) ==> {
            let judged = judge(
                auth_input(
                    *session,
                    *request,
                    request_body@,
                    legacy_admin_secret@,
                    *readings,
                    now_secs,
                ),
                *policy,
                old(replay_state).nonces@,
                now,
            );
            &&& final(replay_state).nonces@ == judged.1
            &&& match judged.0 {
                Ok(context) => r matches Ok(c) && c@ == context,
                Err(failure) => r matches Err(refusal) && (refusal.event@, refusal.reply@)
                    == auth_refusal(*session, failure, observed_at_ms),
            }
        },
{
    let versioned = session.mode.uses_versioned_contract();
    if !admin_source_allowed(session.source, policy) {
        let event = session.record(
            observed_at_ms,
            "anonymous",
            "source_policy",
            admin_audit_code(session.action.as_str(), "denied"),
            "denied",
            "source address is outside the admin allow-list",
        );
        let reply = write_error(
            versioned,
            session.request_id.as_str(),
            "403 Forbidden",
            no_headers(),
            AdminApiErrorCode::Forbidden,
            "admin source not allowed",
            false,
            text("admin source not allowed\n"),
        );
        return Err(Refusal { event, reply });
    }
    match authenticate_admin_request(
        request,
        request_body,
        session.action,
        session.source,
        policy,
        replay_state,
        legacy_admin_secret,
        session.request_id.as_str(),
        readings,
        now_secs,
        now,
    ) {
        Ok(context) => Ok(context),
        Err(failure) => {
            let event = session.record(
                observed_at_ms,
                failure.actor.as_str(),
                failure.auth_mode,
                admin_audit_code(session.action.as_str(), failure.outcome),
                failure.outcome,
                failure.detail.as_str(),
            );
            let (code, retryable) = admin_auth_error_contract(&failure);
            let message = trim(failure.body);
            let reply = write_error(
                versioned,
                session.request_id.as_str(),
                failure.status,
                failure.headers(),
                code,
                message.as_str(),
                retryable,
                text(failure.body),
            );
            Err(Refusal { event, reply })
        },
    }
}

/// Refuses a request whose maker asks too often.
pub fn refuse_rate_limited(
    session: &AdminSession,
    context: &AdminRequestContext,
    observed_at_ms: u64,
) -> (r: Refusal)
    ensures
        (r.event@, r.reply@) == rate_refusal(*session, context@, observed_at_ms),
{
    let event = session.record(
        observed_at_ms,
        context.actor.as_str(),
        context.auth_mode.as_str(),
        admin_audit_code(session.action.as_str(), "rate_limited"),
        "rate_limited",
        "admin identity exceeded configured rate limits",
    );
    let reply = write_error(
        session.mode.uses_versioned_contract(),
        session.request_id.as_str(),
        "429 Too Many Requests",
        no_headers(),
        AdminApiErrorCode::RateLimited,
        "admin rate limit exceeded",
        true,
        text("admin rate limit exceeded\n"),
    );
    Refusal { event, reply }
}

/// How a request that was admitted is answered, and how that is recorded.
#[derive(Debug)]
pub struct AdminAnswer {
    pub reply: AdminReply,
    pub outcome: String,
    pub detail: String,
}

/// An answer with its record, as a mathematical value.
#[verifier::ext_equal]
pub struct AnswerView {
    pub reply: ReplyView,
    pub outcome: Seq<char>,
    pub detail: Seq<char>,
}

impl View for AdminAnswer {
    type V = AnswerView;

    open spec fn view(&self) -> AnswerView {
        AnswerView { reply: self.reply@, outcome: self.outcome@, detail: self.detail@ }
    }
}

/// The answer to a request that needs nothing to be looked up: one in a version that is not
/// known, one for the health of the process, and one for nothing that is there.
pub open spec fn direct_answer(session: AdminSession) -> Option<AnswerView> {
    match session.mode {
        AdminApiRequestMode::UnsupportedVersion { detail, .. } => Some(
            AnswerView {
                reply: error_reply(
                    true,
                    session.request_id@,
                    "406 Not Acceptable"@,
                    Seq::empty(),
                    AdminApiErrorCode::UnsupportedApiVersion,
                    detail@,
                    false,
                    detail@ + "\n"@,
                ),
                outcome: "failed"@,
                detail: detail@,
            },
        ),
        _ => match session.action {
            AdminRequestAction::Healthz => Some(
                AnswerView {
                    reply: success_reply(
                        session.versioned(),
                        session.request_id@,
                        "200 OK"@,
                        "{\"live\":true,\"status\":\"ok\"}"@,
                        "text/plain; charset=utf-8"@,
                        "ok\n"@,
                    ),
                    outcome: "served"@,
                    detail: "health check completed"@,
                },
            ),
            AdminRequestAction::Unknown => Some(
                AnswerView {
                    reply: error_reply(
                        session.versioned(),
                        session.request_id@,
                        "404 Not Found"@,
                        Seq::empty(),
                        AdminApiErrorCode::NotFound,
                        "unknown admin endpoint"@,
                        false,
                        "not found\n"@,
                    ),
                    outcome: "not_found"@,
                    detail: "unknown admin endpoint"@,
                },
            ),
            _ => None,
        },
    }
}

/// Answers a request that needs nothing to be looked up.
pub fn answer_directly(session: &AdminSession) -> (r: Option<AdminAnswer>)
    ensures
        match direct_answer(*session) {
            Some(answer) => r matches Some(a) && a@ == answer,
            None => r is None,
        },
{
    match &session.mode {
        AdminApiRequestMode::UnsupportedVersion { detail, .. } => Some(
            AdminAnswer {
                reply: write_error(
                    true,
                    session.request_id.as_str(),
                    "406 Not Acceptable",
                    no_headers(),
                    AdminApiErrorCode::UnsupportedApiVersion,
                    detail.as_str(),
                    false,
                    line(detail.as_str()),
                ),
                outcome: text("failed"),
                detail: detail.clone(),
            },
        ),
        _ => {
            let versioned = session.mode.uses_versioned_contract();
            match session.action {
                AdminRequestAction::Healthz => Some(
                    AdminAnswer {
                        reply: write_success(
                            versioned,
                            session.request_id.as_str(),
                            "200 OK",
                            "{\"live\":true,\"status\":\"ok\"}",
                            "text/plain; charset=utf-8",
                            text("ok\n"),
                        ),
                        outcome: text("served"),
                        detail: text("health check completed"),
                    },
                ),
                AdminRequestAction::Unknown => Some(
                    AdminAnswer {
                        reply: write_error(
                            versioned,
                            session.request_id.as_str(),
                            "404 Not Found",
                            no_headers(),
                            AdminApiErrorCode::NotFound,
                            "unknown admin endpoint",
                            false,
                            text("not found\n"),
                        ),
                        outcome: text("not_found"),
                        detail: text("unknown admin endpoint"),
                    },
                ),
                _ => None,
            }
        },
    }
}

/// The compact form of a JSON document as `serde_json` reads and writes it, or the words of its
/// error on a text that is no JSON document.
pub uninterp spec fn compact_json(body: Seq<char>) -> Result<Seq<char>, Seq<char>>;

/// Trusted: `serde_json::from_str` into a `serde_json::Value`, which is then written with its
/// `Display`. Both depend on the text alone; what they give is named by [`compact_json`].
#[verifier::external_body]
fn json_body_to_value(body: &str) -> (r: Result<String, String>)
    ensures
        match r {
            Ok(value) => compact_json(body@) == Ok::<Seq<char>, Seq<char>>(value@),
            Err(error) => compact_json(body@) == Err::<Seq<char>, Seq<char>>(error@),
        },
{
    match serde_json::from_str::<serde_json::Value>(body) {
        Ok(value) => Ok(value.to_string()),
        Err(error) => Err(error.to_string()),
    }
}

/// The data that a document gives: its compact form in the versioned interface.
pub open spec fn data_of(session: AdminSession, document: Seq<char>) -> Result<
    Seq<char>,
    Seq<char>,
> {
    if session.versioned() {
        compact_json(document)
    } else {
        Ok(document)
    }
}

/// The answer of a document: in the versioned interface its compact form is the data.
pub open spec fn document_answer(
    session: AdminSession,
    status: Seq<char>,
    compact: Seq<char>,
    document: Seq<char>,
    outcome: Seq<char>,
    detail: Seq<char>,
) -> AnswerView {
    AnswerView {
        reply: success_reply(
            session.versioned(),
            session.request_id@,
            status,
            compact,
            "application/json"@,
            document,
        ),
        outcome,
        detail,
    }
}

/// Answers with a document whose compact form is given.
pub fn answer_with_document(
    session: &AdminSession,
    status: &'static str,
    compact: &str,
    document: String,
    outcome: &str,
    detail: String,
) -> (r: AdminAnswer)
    ensures
        r@ == document_answer(*session, status@, compact@, document@, outcome@, detail@),
{
    AdminAnswer {
        reply: write_success(
            session.mode.uses_versioned_contract(),
            session.request_id.as_str(),
            status,
            compact,
            "application/json",
            document,
        ),
        outcome: text(outcome),
        detail,
    }
}

/// Finds the data that a document gives.
fn find_data(session: &AdminSession, document: &str) -> (r: Result<String, ServeError>)
    ensures
        match data_of(*session, document@) {
            Ok(data) => r matches Ok(d) && d@ == data,
            Err(error) => r matches Err(e) && e.message@ == error,
        },
{
    if session.mode.uses_versioned_contract() {
        match json_body_to_value(document) {
            Ok(data) => Ok(data),
            Err(message) => Err(ServeError { message }),
        }
    } else {
        Ok(text(document))
    }
}

/// The answer to the question whether the listeners are ready.
pub open spec fn readiness_answer(
    session: AdminSession,
    readiness: WorkspaceReadinessStatus,
    data: Seq<char>,
) -> AnswerView {
    document_answer(
        session,
        if readiness.ready {
            "200 OK"@
        } else {
            "503 Service Unavailable"@
        },
        data,
        readiness.json() + "\n"@,
        if readiness.ready {
            "served"@
        } else {
            "degraded"@
        },
        if readiness.ready {
            "readiness check completed: ready"@
        } else {
            "readiness check completed: not ready ("@ + name_list(readiness.reason_codes@) + ")"@
        },
    )
}

/// Answers the question whether the listeners are ready with the data of its report.
pub fn answer_readiness(
    session: &AdminSession,
    readiness: &WorkspaceReadinessStatus,
    data: &str,
) -> (r: AdminAnswer)
    ensures
        r@ == readiness_answer(*session, *readiness, data@),
{
    let json = readiness.to_json();
    let document = line(json.as_str());
    if readiness.ready {
        answer_with_document(
            session,
            "200 OK",
            data,
            document,
            "served",
            text("readiness check completed: ready"),
        )
    } else {
        let mut detail = text("readiness check completed: not ready (");
        let reasons = join(&readiness.reason_codes, ", ");
        detail.append(reasons.as_str());
        detail.append(")");
        answer_with_document(
            session,
            "503 Service Unavailable",
            data,
            document,
            "degraded",
            detail,
        )
    }
}

/// Answers the question whether the listeners are ready. There is no answer where the report
/// gives no data.
pub fn answer_readyz(session: &AdminSession, readiness: &WorkspaceReadinessStatus) -> (r: Result<
    AdminAnswer,
    ServeError,
>)
    ensures
        match data_of(*session, readiness.json()) {
            Ok(data) => r matches Ok(a) && a@ == readiness_answer(*session, *readiness, data),
            Err(error) => r matches Err(e) && e.message@ == error,
        },
{
    let json = readiness.to_json();
    match find_data(session, json.as_str()) {
        Ok(data) => Ok(answer_readiness(session, readiness, data.as_str())),
        Err(error) => Err(error),
    }
}

/// Answers with the status report. There is no answer where the report gives no data.
pub fn answer_status(session: &AdminSession, body: String) -> (r: Result<AdminAnswer, ServeError>)
    ensures
        match data_of(*session, body@) {
            Ok(data) => r matches Ok(a) && a@ == document_answer(
                *session,
                "200 OK"@,
                data,
                body@,
                "served"@,
                "status response generated"@,
            ),
            Err(error) => r matches Err(e) && e.message@ == error,
        },
{
    match find_data(session, body.as_str()) {
        Ok(data) => Ok(
            answer_with_document(
                session,
                "200 OK",
                data.as_str(),
                body,
                "served",
                text("status response generated"),
            ),
        ),
        Err(error) => Err(error),
    }
}

/// Answers with the record of administration events. There is no answer where the record gives
/// no data.
pub fn answer_audit(session: &AdminSession, body: String) -> (r: Result<AdminAnswer, ServeError>)
    ensures
        match data_of(*session, body@) {
            Ok(data) => r matches Ok(a) && a@ == document_answer(
                *session,
                "200 OK"@,
                data,
                body@,
                "served"@,
                "audit log response generated"@,
            ),
            Err(error) => r matches Err(e) && e.message@ == error,
        },
{
    match find_data(session, body.as_str()) {
        Ok(data) => Ok(
            answer_with_document(
                session,
                "200 OK",
                data.as_str(),
                body,
                "served",
                text("audit log response generated"),
            ),
        ),
        Err(error) => Err(error),
    }
}

/// The answer to a request that could not be served for what it asks.
pub open spec fn failed_answer(
    session: AdminSession,
    status: Seq<char>,
    code: AdminApiErrorCode,
    detail: Seq<char>,
) -> AnswerView {
    AnswerView {
        reply: error_reply(
            session.versioned(),
            session.request_id@,
            status,
            Seq::empty(),
            code,
            detail,
            false,
            detail + "\n"@,
        ),
        outcome: "failed"@,
        detail,
    }
}

fn answer_failure(
    session: &AdminSession,
    status: &'static str,
    code: AdminApiErrorCode,
    detail: String,
) -> (r: AdminAnswer)
    ensures
        r@ == failed_answer(*session, status@, code, detail@),
{
    AdminAnswer {
        reply: write_error(
            session.mode.uses_versioned_contract(),
            session.request_id.as_str(),
            status,
            no_headers(),
            code,
            detail.as_str(),
            false,
            line(detail.as_str()),
        ),
        outcome: text("failed"),
        detail,
    }
}

/// A document in its two written forms.
#[derive(Debug)]
pub struct RenderedDocument {
    pub compact: String,
    pub pretty: String,
}

/// Answers with the preview of a configuration, or with why it could not be made.
pub fn answer_validate(session: &AdminSession, preview: Result<RenderedDocument, String>) -> (r:
    AdminAnswer)
    ensures
        match preview {
            Ok(document) => r@ == document_answer(
                *session,
                "200 OK"@,
                document.compact@,
                document.pretty@,
                "served"@,
                "validation preview generated"@,
            ),
            Err(error) => r@ == failed_answer(
                *session,
                "400 Bad Request"@,
                AdminApiErrorCode::ValidationFailed,
                "validation preview failed: "@ + error@,
            ),
        },
{
    match preview {
        Ok(document) => answer_with_document(
            session,
            "200 OK",
            document.compact.as_str(),
            document.pretty,
            "served",
            text("validation preview generated"),
        ),
        Err(error) => {
            let mut detail = text("validation preview failed: ");
            detail.append(error.as_str());
            answer_failure(session, "400 Bad Request", AdminApiErrorCode::ValidationFailed, detail)
        },
    }
}

/// What came of purging a cache.
#[derive(Debug)]
pub struct CachePurgeReport {
    pub scope: String,
    pub purged_entries: usize,
    pub degraded: bool,
    pub document: RenderedDocument,
}

/// Answers with what came of purging a cache, or with why it was not purged.
pub fn answer_cache_purge(session: &AdminSession, report: Result<CachePurgeReport, String>) -> (r:
    AdminAnswer)
    ensures
        match report {
            Ok(report) => r@ == document_answer(
                *session,
                "200 OK"@,
                report.document.compact@,
                report.document.pretty@,
                if report.degraded {
                    "degraded"@
                } else {
                    "executed"@
                },
                "cache purge for scope "@ + report.scope@ + " purged "@ + decimal(
                    report.purged_entries as nat,
                ) + " entries"@,
            ),
            Err(error) => r@ == failed_answer(
                *session,
                "400 Bad Request"@,
                AdminApiErrorCode::ValidationFailed,
                error@,
            ),
        },
{
    match report {
        Ok(report) => {
            let mut detail = text("cache purge for scope ");
            detail.append(report.scope.as_str());
            detail.append(" purged ");
            put_number(&mut detail, report.purged_entries as u64);
            detail.append(" entries");
            let outcome = if report.degraded {
                "degraded"
            } else {
                "executed"
            };
            answer_with_document(
                session,
                "200 OK",
                report.document.compact.as_str(),
                report.document.pretty,
                outcome,
                detail,
            )
        },
        Err(error) => answer_failure(
            session,
            "400 Bad Request",
            AdminApiErrorCode::ValidationFailed,
            error,
        ),
    }
}

/// What came of an invalidation that another process sent.
#[derive(Debug)]
pub struct CacheInvalidationReport {
    pub scope: String,
    pub duplicate: bool,
    pub purged_entries: usize,
    pub document: String,
}

/// Answers with what came of an invalidation, or with why it was not applied.
pub fn answer_cache_invalidate(
    session: &AdminSession,
    report: Result<CacheInvalidationReport, String>,
) -> (r: AdminAnswer)
    ensures
        match report {
            Ok(report) => r@ == document_answer(
                *session,
                "200 OK"@,
                report.document@,
                report.document@,
                if report.duplicate {
                    "duplicate"@
                } else {
                    "executed"@
                },
                "cache invalidation for scope "@ + report.scope@ + " applied with "@ + decimal(
                    report.purged_entries as nat,
                ) + " purged entries"@,
            ),
            Err(error) => r@ == failed_answer(
                *session,
                "400 Bad Request"@,
                AdminApiErrorCode::ValidationFailed,
                error@,
            ),
        },
{
    match report {
        Ok(report) => {
            let mut detail = text("cache invalidation for scope ");
            detail.append(report.scope.as_str());
            detail.append(" applied with ");
            put_number(&mut detail, report.purged_entries as u64);
            detail.append(" purged entries");
            let outcome = if report.duplicate {
                "duplicate"
            } else {
                "executed"
            };
            let compact = report.document.clone();
            answer_with_document(
                session,
                "200 OK",
                compact.as_str(),
                report.document,
                outcome,
                detail,
            )
        },
        Err(error) => answer_failure(
            session,
            "400 Bad Request",
            AdminApiErrorCode::ValidationFailed,
            error,
        ),
    }
}

/// The event of a reload that is about to start.
pub fn reload_started_event(
    session: &AdminSession,
    context: &AdminRequestContext,
    plan: &Option<ReloadAuditPlan>,
    observed_at_ms: u64,
) -> (r: AdminAuditEvent)
    ensures
        r@ == session.event(
            observed_at_ms,
            context@.actor,
            context@.auth_mode,
            match *plan {
                Some(plan) => plan.start_code_text(),
                None => "reload_started_unknown"@,
            },
            "started"@,
            match *plan {
                Some(plan) => plan.start_detail_text(),
                None => "reload started; plan preview unavailable before apply"@,
            },
        ),
{
    let (code, detail) = match plan {
        Some(plan) => (text(plan.start_code()), plan.start_detail()),
        None => (
            text("reload_started_unknown"),
            text("reload started; plan preview unavailable before apply"),
        ),
    };
    session.record(
        observed_at_ms,
        context.actor.as_str(),
        context.auth_mode.as_str(),
        code,
        "started",
        detail.as_str(),
    )
}

/// The event of a warm restart that is about to start.
pub fn restart_started_event(
    session: &AdminSession,
    context: &AdminRequestContext,
    plan: &Option<ReloadAuditPlan>,
    observed_at_ms: u64,
) -> (r: AdminAuditEvent)
    ensures
        r@ == session.event(
            observed_at_ms,
            context@.actor,
            context@.auth_mode,
            match *plan {
                Some(plan) => plan.restart_start_code_text(),
                None => "restart_started_unknown"@,
            },
            "started"@,
            match *plan {
                Some(plan) => plan.restart_start_detail_text(),
                None => "warm restart started; plan preview unavailable before apply"@,
            },
        ),
{
    let (code, detail) = match plan {
        Some(plan) => (text(plan.restart_start_code()), plan.restart_start_detail()),
        None => (
            text("restart_started_unknown"),
            text("warm restart started; plan preview unavailable before apply"),
        ),
    };
    session.record(
        observed_at_ms,
        context.actor.as_str(),
        context.auth_mode.as_str(),
        code,
        "started",
        detail.as_str(),
    )
}

/// The data of a reload that was applied.
pub open spec fn reload_data(
    degraded: bool,
    detail: Seq<char>,
    code: Seq<char>,
    health: Seq<char>,
) -> Seq<char> {
    "{\"degraded\":"@ + bool_json(degraded) + ",\"detail\":"@ + serde_string(detail)
        + ",\"outcome_code\":"@ + serde_string(code) + ",\"reload_health\":"@ + serde_string(health)
        + ",\"result\":\"configuration_applied\"}"@
}

/// The code and the detail of a reload that was applied.
pub open spec fn reload_success_words(
    plan: Option<ReloadAuditPlan>,
    outcome: ReloadApplyOutcome,
) -> (Seq<char>, Seq<char>) {
    match plan {
        Some(plan) => (plan.success_code_text(outcome), plan.success_detail_text(outcome)),
        None => (outcome.success_code(), outcome.success_detail()),
    }
}

/// The code and the detail of a reload that failed.
pub open spec fn reload_failure_words(plan: Option<ReloadAuditPlan>, error: Seq<char>) -> (
    Seq<char>,
    Seq<char>,
) {
    match plan {
        Some(plan) => (plan.failure_code_text(), plan.failure_detail_text(error)),
        None => ("reload_failed_apply"@, "reload failed: "@ + error),
    }
}

/// The answer to a request for a reload that came to its end with some reload health.
pub open spec fn reload_answer(
    session: AdminSession,
    plan: Option<ReloadAuditPlan>,
    result: Result<ReloadApplyOutcome, Seq<char>>,
    health: Seq<char>,
) -> AnswerView {
    match result {
        Ok(outcome) => {
            let (code, detail) = reload_success_words(plan, outcome);
            AnswerView {
                reply: success_reply(
                    session.versioned(),
                    session.request_id@,
                    "200 OK"@,
                    reload_data(outcome.timed_out(), detail, code, health),
                    "text/plain; charset=utf-8"@,
                    "configuration applied\n"@,
                ),
                outcome: "executed"@,
                detail,
            }
        },
        Err(error) => {
            let (code, detail) = reload_failure_words(plan, error);
            failed_answer(
                session,
                "500 Internal Server Error"@,
                if code == "reload_failed_blocked_change"@ {
                    AdminApiErrorCode::UnsupportedMutation
                } else {
                    AdminApiErrorCode::ReloadFailed
                },
                detail,
            )
        },
    }
}

/// Answers a request for a reload that came to its end, and keeps its outcome with the words of
/// its plan. The detail of one that failed stays as the reload itself left it.
pub fn answer_reload(
    state: &mut WorkspaceServeState,
    session: &AdminSession,
    plan: &Option<ReloadAuditPlan>,
    result: Result<&ReloadApplyOutcome, &str>,
) -> (r: AdminAnswer)
    ensures
        ({
            let ended = match result {
                Ok(outcome) => Ok(*outcome),
                Err(error) => Err(error@),
            };
            &&& r@ == reload_answer(
                *session,
                *plan,
                ended,
                health_name(health_at(old(state).reload_health)),
            )
            &&& match ended {
                Ok(outcome) => {
                    &&& final(state).last_reload_outcome_code@ == reload_success_words(
                        *plan,
                        outcome,
                    ).0
                    &&& final(state).last_reload_result@ == reload_success_words(*plan, outcome).1
                },
                Err(error) => {
                    &&& final(state).last_reload_outcome_code@ == reload_failure_words(
                        *plan,
                        error,
                    ).0
                    &&& final(state).last_reload_result == old(state).last_reload_result
                },
            }
            &&& *final(state) == (WorkspaceServeState {
                last_reload_outcome_code: final(state).last_reload_outcome_code,
                last_reload_result: final(state).last_reload_result,
                ..*old(state)
            })
        }),
{
    match result {
        Ok(outcome) => {
            let (code, detail) = match plan {
                Some(plan) => (text(plan.success_code(outcome)), plan.success_detail(outcome)),
                None => (text(outcome.generic_success_code()), outcome.generic_success_detail()),
            };
            let mut data = text("{\"degraded\":");
            put_bool(&mut data, outcome.timed_out_during_drain());
            data.append(",\"detail\":");
            put_serde_string(&mut data, detail.as_str());
            data.append(",\"outcome_code\":");
            put_serde_string(&mut data, code.as_str());
            data.append(",\"reload_health\":");
            put_serde_string(&mut data, reload_health_name(state.reload_health()));
            data.append(",\"result\":\"configuration_applied\"}");
            state.last_reload_outcome_code = code;
            state.last_reload_result = detail.clone();
            AdminAnswer {
                reply: write_success(
                    session.mode.uses_versioned_contract(),
                    session.request_id.as_str(),
                    "200 OK",
                    data.as_str(),
                    "text/plain; charset=utf-8",
                    text("configuration applied\n"),
                ),
                outcome: text("executed"),
                detail,
            }
        },
        Err(error) => {
            let (code, detail) = match plan {
                Some(plan) => (text(plan.failure_code()), plan.failure_detail(error)),
                None => {
                    let mut detail = text("reload failed: ");
                    detail.append(error);
                    (text("reload_failed_apply"), detail)
                },
            };
            let error_code = if str_eq(code.as_str(), "reload_failed_blocked_change") {
                AdminApiErrorCode::UnsupportedMutation
            } else {
                AdminApiErrorCode::ReloadFailed
            };
            state.last_reload_outcome_code = code;
            answer_failure(session, "500 Internal Server Error", error_code, detail)
        },
    }
}

/// The data of a warm restart that was applied.
pub open spec fn restart_data(
    outcome: WarmRestartApplyOutcome,
    detail: Seq<char>,
    code: Seq<char>,
) -> Seq<char> {
    "{\"completed_drains\":"@ + decimal(outcome.completed_drain_count as nat) + ",\"degraded\":"@
        + bool_json(outcome.timed_out()) + ",\"detail\":"@ + serde_string(detail)
        + ",\"drain_timeouts\":"@ + decimal(outcome.drain_timeout_count as nat)
        + ",\"outcome_code\":"@ + serde_string(code) + ",\"restarted_listeners\":"@ + decimal(
        outcome.restarted_listener_count as nat,
    ) + ",\"result\":\"warm_restart_applied\"}"@
}

/// The code and the detail of a warm restart that was applied.
pub open spec fn restart_success_words(
    plan: Option<ReloadAuditPlan>,
    outcome: WarmRestartApplyOutcome,
) -> (Seq<char>, Seq<char>) {
    match plan {
        Some(plan) => (
            plan.restart_success_code_text(outcome),
            plan.restart_success_detail_text(outcome),
        ),
        None => ("restart_applied"@, "warm restart applied"@),
    }
}

/// The code and the detail of a warm restart that failed.
pub open spec fn restart_failure_words(plan: Option<ReloadAuditPlan>, error: Seq<char>) -> (
    Seq<char>,
    Seq<char>,
) {
    match plan {
        Some(plan) => (plan.restart_failure_code_text(), plan.restart_failure_detail_text(error)),
        None => ("restart_failed_apply"@, "warm restart failed: "@ + error),
    }
}

/// The answer to a request for a warm restart that came to its end.
pub open spec fn restart_answer(
    session: AdminSession,
    plan: Option<ReloadAuditPlan>,
    result: Result<WarmRestartApplyOutcome, Seq<char>>,
) -> AnswerView {
    match result {
        Ok(outcome) => {
            let (code, detail) = restart_success_words(plan, outcome);
            AnswerView {
                reply: success_reply(
                    session.versioned(),
                    session.request_id@,
                    "200 OK"@,
                    restart_data(outcome, detail, code),
                    "text/plain; charset=utf-8"@,
                    "warm restart applied\n"@,
                ),
                outcome: "executed"@,
                detail,
            }
        },
        Err(error) => failed_answer(
            session,
            "500 Internal Server Error"@,
            AdminApiErrorCode::ReloadFailed,
            restart_failure_words(plan, error).1,
        ),
    }
}

/// Answers a request for a warm restart that came to its end, and keeps its outcome with the
/// words of its plan. The detail of one that failed stays as the restart itself left it.
pub fn answer_restart(
    state: &mut WorkspaceServeState,
    session: &AdminSession,
    plan: &Option<ReloadAuditPlan>,
    result: Result<&WarmRestartApplyOutcome, &str>,
) -> (r: AdminAnswer)
    ensures
        ({
            let ended = match result {
                Ok(outcome) => Ok(*outcome),
                Err(error) => Err(error@),
            };
            &&& r@ == restart_answer(*session, *plan, ended)
            &&& match ended {
                Ok(outcome) => {
                    &&& final(state).last_restart_outcome_code@ == restart_success_words(
                        *plan,
                        outcome,
                    ).0
                    &&& final(state).last_restart_result@ == restart_success_words(
                        *plan,
                        outcome,
                    ).1
                },
                Err(error) => {
                    &&& final(state).last_restart_outcome_code@ == restart_failure_words(
                        *plan,
                        error,
                    ).0
                    &&& final(state).last_restart_result == old(state).last_restart_result
                },
            }
            &&& *final(state) == (WorkspaceServeState {
                last_restart_outcome_code: final(state).last_restart_outcome_code,
                last_restart_result: final(state).last_restart_result,
                ..*old(state)
            })
        }),
{
    match result {
        Ok(outcome) => {
            let (code, detail) = match plan {
                Some(plan) => (
                    text(plan.restart_success_code(outcome)),
                    plan.restart_success_detail(outcome),
                ),
                None => (text("restart_applied"), text("warm restart applied")),
            };
            let mut data = text("{\"completed_drains\":");
            put_number(&mut data, outcome.completed_drain_count as u64);
            data.append(",\"degraded\":");
            put_bool(&mut data, outcome.timed_out_during_drain());
            data.append(",\"detail\":");
            put_serde_string(&mut data, detail.as_str());
            data.append(",\"drain_timeouts\":");
            put_number(&mut data, outcome.drain_timeout_count as u64);
            data.append(",\"outcome_code\":");
            put_serde_string(&mut data, code.as_str());
            data.append(",\"restarted_listeners\":");
            put_number(&mut data, outcome.restarted_listener_count as u64);
            data.append(",\"result\":\"warm_restart_applied\"}");
            state.last_restart_outcome_code = code;
            state.last_restart_result = detail.clone();
            AdminAnswer {
                reply: write_success(
                    session.mode.uses_versioned_contract(),
                    session.request_id.as_str(),
                    "200 OK",
                    data.as_str(),
                    "text/plain; charset=utf-8",
                    text("warm restart applied\n"),
                ),
                outcome: text("executed"),
                detail,
            }
        },
        Err(error) => {
            let (code, detail) = match plan {
                Some(plan) => (
                    text(plan.restart_failure_code()),
                    plan.restart_failure_detail(error),
                ),
                None => {
                    let mut detail = text("warm restart failed: ");
                    detail.append(error);
                    (text("restart_failed_apply"), detail)
                },
            };
            state.last_restart_outcome_code = code;
            answer_failure(
                session,
                "500 Internal Server Error",
                AdminApiErrorCode::ReloadFailed,
                detail,
            )
        },
    }
}

/// The code under which the end of a request is recorded: that of the reload or the restart for a
/// request for one, else the action and its outcome.
pub open spec fn closing_code(
    state: WorkspaceServeState,
    session: AdminSession,
    outcome: Seq<char>,
) -> Seq<char> {
    match session.action {
        AdminRequestAction::Reload => state.last_reload_outcome_code@,
        AdminRequestAction::Restart => state.last_restart_outcome_code@,
        _ => session.code(outcome),
    }
}

/// The event of a request that was answered with an outcome.
pub fn closing_event(
    state: &WorkspaceServeState,
    session: &AdminSession,
    context: &AdminRequestContext,
    outcome: &str,
    detail: &str,
    observed_at_ms: u64,
) -> (r: AdminAuditEvent)
    ensures
        r@ == session.event(
            observed_at_ms,
            context@.actor,
            context@.auth_mode,
            closing_code(*state, *session, outcome@),
            outcome@,
            detail@,
        ),
{
    let code = match session.action {
        AdminRequestAction::Reload => state.last_reload_outcome_code.clone(),
        AdminRequestAction::Restart => state.last_restart_outcome_code.clone(),
        _ => admin_audit_code(session.action.as_str(), outcome),
    };
    session.record(
        observed_at_ms,
        context.actor.as_str(),
        context.auth_mode.as_str(),
        code,
        outcome,
        detail,
    )
}

/// A request gets the same status in the versioned interface and outside it.
pub proof fn versions_share_their_statuses(
    request_id: Seq<char>,
    status: Seq<char>,
    data: Seq<char>,
    plain_type: Seq<char>,
    plain_body: Seq<char>,
    extra: Seq<Seq<char>>,
    code: AdminApiErrorCode,
    message: Seq<char>,
    retryable: bool,
)
    ensures
        success_reply(true, request_id, status, data, plain_type, plain_body).status
            == success_reply(false, request_id, status, data, plain_type, plain_body).status,
        error_reply(true, request_id, status, extra, code, message, retryable, plain_body).status
            == error_reply(
            false,
            request_id,
            status,
            extra,
            code,
            message,
            retryable,
            plain_body,
        ).status,
{
}

/// Every answer of the versioned interface starts its headers with the version.
pub proof fn versioned_answers_name_their_version(
    request_id: Seq<char>,
    status: Seq<char>,
    data: Seq<char>,
    plain_type: Seq<char>,
    plain_body: Seq<char>,
    extra: Seq<Seq<char>>,
    code: AdminApiErrorCode,
    message: Seq<char>,
    retryable: bool,
)
    ensures
        success_reply(true, request_id, status, data, plain_type, plain_body).headers.first()
            == "X-LB-Admin-Api-Version: v1"@,
        error_reply(
            true,
            request_id,
            status,
            extra,
            code,
            message,
            retryable,
            plain_body,
        ).headers.first() == "X-LB-Admin-Api-Version: v1"@,
{
}

/// A request that asks for a version that is not known is never carried out: it is answered
/// directly, whatever its action.
pub proof fn unknown_versions_do_nothing(session: AdminSession)
    requires
        session.mode is UnsupportedVersion,
    ensures
        direct_answer(session) matches Some(answer) && answer.reply.status == "406 Not Acceptable"@
            && answer.outcome == "failed"@,
{
}

} // verus!
