//! What holds of all administration requests on their way: what is done for them, what they are
//! answered, and what is recorded of them.

use crate::addr::IpAddress;
use crate::admin_api::negotiated_mode;
use crate::admin_auth::{AdminApiErrorCode, ContextView, FailureView, RequestHead};
use crate::admin_course::{
    last_words, next_in_course, words_after, AdminEvent, Finding, StageView, StepView,
};
use crate::admin_laws::each_action_has_its_own_request;
use crate::admin_policy::CompiledAdminPolicy;
use crate::admin_session::{
    auth_input, auth_refusal, data_of, error_code_word, error_envelope, reload_data, restart_data,
    source_refusal, success_envelope, AdminSession,
};
use crate::json::serde_string;
use crate::listener_status::{health_at, health_name};
use crate::readiness::WorkspaceReadinessStatus;
use crate::reload_plan::{ReloadApplyOutcome, ReloadAuditPlan, WarmRestartApplyOutcome};
use crate::report_laws::{lemma_told, lemma_told_within, tells};
use crate::secrets::SecretReadings;
use crate::state::WorkspaceServeState;
use crate::text::{decimal, hex_padded};
use vstd::prelude::*;
use vstd::string::*;

verus! {

/// Whether an answer with a status is sent, which will be recorded as an outcome.
pub open spec fn answers(
    next: (StageView, StepView),
    context: ContextView,
    status: Seq<char>,
    outcome: Seq<char>,
) -> bool {
    &&& next.1 matches StepView::Answer { reply }
    &&& reply.status == status
    &&& next.0 matches StageView::Closing { context: c, outcome: o, .. }
    &&& c == context
    &&& o == outcome
}

/// Whether the answer that is sent bears a document: as the body in the older interface, and as
/// the data of the envelope in the versioned one.
pub open spec fn bears(
    session: AdminSession,
    next: (StageView, StepView),
    data: Seq<char>,
    document: Seq<char>,
) -> bool {
    &&& next.1 matches StepView::Answer { reply }
    &&& session.mode is Legacy ==> reply.body == document && reply.headers.len() == 0
    &&& !(session.mode is Legacy) ==> reply.body == "{\"api_version\":\"v1\",\"request_id\":"@
        + serde_string(session.request_id@) + ",\"status\":\"ok\",\"data\":"@ + data + "}"@
        && reply.headers == seq!["X-LB-Admin-Api-Version: v1"@]
}

/// A maker who has no token left is told so, nothing else is done for them, and that is recorded
/// under their name. One with a token has the work begun that the request asks for: a reload and a
/// restart are planned, health, an unknown path and an unknown version are answered at once, and
/// all else is looked up.
pub proof fn tokens_begin_the_work(
    session: AdminSession,
    context: ContextView,
    taken: bool,
    state: WorkspaceServeState,
    now: u64,
)
    ensures
        ({
            let next = next_in_course(
                session,
                StageView::Admitted { context },
                AdminEvent::Token { taken },
                state,
                now,
            );
            let unsupported = session.mode is UnsupportedVersion;
            let begun = taken && !unsupported;
            let action = session.action;
            &&& !taken ==> next.0 is Over && (next.1 matches StepView::Refuse { event, reply }
                && reply.status == "429 Too Many Requests"@ && event.actor == context.actor
                && event.auth_mode == context.auth_mode && event.outcome == "rate_limited"@)
            &&& taken && unsupported ==> answers(next, context, "406 Not Acceptable"@, "failed"@)
            &&& begun && action is Healthz ==> answers(next, context, "200 OK"@, "served"@)
                && bears(session, next, "{\"live\":true,\"status\":\"ok\"}"@, "ok\n"@)
            &&& begun && action is Unknown ==> answers(
                next,
                context,
                "404 Not Found"@,
                "not_found"@,
            )
            &&& next.1 is Plan <==> begun && (action is Reload || action is Restart)
            &&& next.1 is Plan ==> next.0 == (StageView::Planning { context })
            &&& next.1 is LookUp <==> begun && (action is Readyz || action is Status
                || action is Validate || action is Audit || action is CachePurge
                || action is CacheInvalidate)
            &&& next.1 is LookUp ==> next.0 == (StageView::LookingUp { context })
        }),
{
}

/// The question for readiness is answered by the readiness that was found: with success where the
/// listeners are ready, and with unavailability where they are not.
pub proof fn readiness_is_answered(
    session: AdminSession,
    context: ContextView,
    readiness: WorkspaceReadinessStatus,
    state: WorkspaceServeState,
    now: u64,
)
    requires
        session.action is Readyz,
    ensures
        ({
            let next = next_in_course(
                session,
                StageView::LookingUp { context },
                AdminEvent::Found(Finding::Readiness(readiness)),
                state,
                now,
            );
            let data = data_of(session, readiness.json());
            &&& data is Err ==> next.0 is Over && next.1 == (StepView::Fail {
                error: data->Err_0,
            })
            &&& data is Ok && readiness.ready ==> answers(next, context, "200 OK"@, "served"@)
            &&& data is Ok && !readiness.ready ==> answers(
                next,
                context,
                "503 Service Unavailable"@,
                "degraded"@,
            )
            &&& data is Ok ==> bears(session, next, data->Ok_0, readiness.json() + "\n"@)
        }),
{
}

/// The status and the record of events are answered with the document that was found.
pub proof fn documents_are_answered(
    session: AdminSession,
    context: ContextView,
    document: String,
    state: WorkspaceServeState,
    now: u64,
)
    requires
        session.action is Status || session.action is Audit,
    ensures
        ({
            let finding = if session.action is Status {
                Finding::Status(document)
            } else {
                Finding::Events(document)
            };
            let next = next_in_course(
                session,
                StageView::LookingUp { context },
                AdminEvent::Found(finding),
                state,
                now,
            );
            let data = data_of(session, document@);
            &&& data is Err ==> next.0 is Over && next.1 == (StepView::Fail {
                error: data->Err_0,
            })
            &&& data is Ok ==> answers(next, context, "200 OK"@, "served"@) && bears(
                session,
                next,
                data->Ok_0,
                document@,
            )
        }),
{
}

/// A preview, a purge and an invalidation that came to an end are answered with their document,
/// and with what was wrong where they failed. One that did less than it was asked, or nothing that
/// was not done already, is recorded as such.
pub proof fn findings_are_answered(
    session: AdminSession,
    context: ContextView,
    finding: Finding,
    state: WorkspaceServeState,
    now: u64,
)
    ensures
        ({
            let next = next_in_course(
                session,
                StageView::LookingUp { context },
                AdminEvent::Found(finding),
                state,
                now,
            );
            let action = session.action;
            &&& action is Validate ==> (finding matches Finding::Preview(Ok(document)) ==> answers(
                next,
                context,
                "200 OK"@,
                "served"@,
            ) && bears(session, next, document.compact@, document.pretty@))
            &&& action is CachePurge ==> (finding matches Finding::Purge(Ok(report)) ==> answers(
                next,
                context,
                "200 OK"@,
                if report.degraded {
                    "degraded"@
                } else {
                    "executed"@
                },
            ) && bears(session, next, report.document.compact@, report.document.pretty@))
            &&& action is CacheInvalidate ==> (finding matches Finding::Invalidation(Ok(report))
                ==> answers(
                next,
                context,
                "200 OK"@,
                if report.duplicate {
                    "duplicate"@
                } else {
                    "executed"@
                },
            ) && bears(session, next, report.document@, report.document@))
            &&& (action is Validate && (finding matches Finding::Preview(p) && p is Err))
                || (action is CachePurge && (finding matches Finding::Purge(p) && p is Err)) || (
            action is CacheInvalidate && (finding matches Finding::Invalidation(p) && p is Err))
                ==> answers(next, context, "400 Bad Request"@, "failed"@)
        }),
{
}

/// Nothing that was found for another action answers a request.
pub proof fn other_findings_are_ignored(
    session: AdminSession,
    context: ContextView,
    finding: Finding,
    state: WorkspaceServeState,
    now: u64,
)
    requires
        finding is Readiness ==> !(session.action is Readyz),
        finding is Status ==> !(session.action is Status),
        finding is Events ==> !(session.action is Audit),
        finding is Preview ==> !(session.action is Validate),
        finding is Purge ==> !(session.action is CachePurge),
        finding is Invalidation ==> !(session.action is CacheInvalidate),
    ensures
        next_in_course(
            session,
            StageView::LookingUp { context },
            AdminEvent::Found(finding),
            state,
            now,
        ) == (StageView::LookingUp { context }, StepView::Ignore),
{
}

/// A reload that was applied is answered with success, and one that was not with a failure. Its
/// code is kept, and with success its result, and nothing is kept of a restart.
pub proof fn ended_reloads_are_answered(
    session: AdminSession,
    context: ContextView,
    plan: Option<ReloadAuditPlan>,
    result: Result<ReloadApplyOutcome, String>,
    state: WorkspaceServeState,
    now: u64,
)
    requires
        session.action is Reload,
    ensures
        ({
            let stage = StageView::Applying { context, plan };
            let event = AdminEvent::Reloaded(result);
            let next = next_in_course(session, stage, event, state, now);
            let before = last_words(state);
            let after = words_after(session, stage, event, before);
            &&& result is Ok ==> answers(next, context, "200 OK"@, "executed"@)
            &&& result is Err ==> answers(
                next,
                context,
                "500 Internal Server Error"@,
                "failed"@,
            )
            &&& result is Err ==> after.reload_result == before.reload_result
            &&& result is Ok ==> after.reload_result == next.0->detail
            &&& plan matches Some(p) ==> after.reload_code == (match result {
                Ok(outcome) => p.success_code_text(outcome),
                Err(_) => p.failure_code_text(),
            })
            &&& plan is None && result is Err ==> after.reload_code == "reload_failed_apply"@
            &&& after.restart_code == before.restart_code
            &&& after.restart_result == before.restart_result
        }),
{
}

/// A restart that was applied is answered with success, and one that was not with a failure. Its
/// code is kept, and with success its result, and nothing is kept of a reload.
pub proof fn ended_restarts_are_answered(
    session: AdminSession,
    context: ContextView,
    plan: Option<ReloadAuditPlan>,
    result: Result<WarmRestartApplyOutcome, String>,
    state: WorkspaceServeState,
    now: u64,
)
    requires
        session.action is Restart,
    ensures
        ({
            let stage = StageView::Applying { context, plan };
            let event = AdminEvent::Restarted(result);
            let next = next_in_course(session, stage, event, state, now);
            let before = last_words(state);
            let after = words_after(session, stage, event, before);
            &&& result is Ok ==> answers(next, context, "200 OK"@, "executed"@)
            &&& result is Err ==> answers(
                next,
                context,
                "500 Internal Server Error"@,
                "failed"@,
            )
            &&& result is Err ==> after.restart_result == before.restart_result
            &&& result is Ok ==> after.restart_result == next.0->detail
            &&& plan matches Some(p) ==> after.restart_code == (match result {
                Ok(outcome) => p.restart_success_code_text(outcome),
                Err(_) => p.restart_failure_code_text(),
            })
            &&& plan is None && result is Err ==> after.restart_code == "restart_failed_apply"@
            &&& after.reload_code == before.reload_code
            &&& after.reload_result == before.reload_result
        }),
{
}

/// A reload and a restart are recorded as started before they are carried out, by the words of
/// their plan.
pub proof fn plans_are_recorded_before_they_are_applied(
    session: AdminSession,
    context: ContextView,
    plan: Option<ReloadAuditPlan>,
    state: WorkspaceServeState,
    now: u64,
)
    requires
        session.action is Reload || session.action is Restart,
    ensures
        ({
            let next = next_in_course(
                session,
                StageView::Planning { context },
                AdminEvent::Planned(plan),
                state,
                now,
            );
            &&& next.0 == (StageView::Applying { context, plan })
            &&& next.1 matches StepView::Apply { event }
            &&& event.outcome == "started"@
            &&& event.actor == context.actor
            &&& event.auth_mode == context.auth_mode
            &&& event.observed_at_unix_ms == now
            &&& event.request_id == session.request_id@
            &&& plan matches Some(p) ==> event.code == (if session.action is Restart {
                p.restart_start_code_text()
            } else {
                p.start_code_text()
            })
        }),
{
}

/// What was answered is recorded once it was sent: under the name of its maker, with the outcome
/// and the detail of the answer, and under the code of the reload or the restart where it asked for
/// one.
pub proof fn answers_are_recorded(
    session: AdminSession,
    context: ContextView,
    outcome: Seq<char>,
    detail: Seq<char>,
    state: WorkspaceServeState,
    now: u64,
)
    ensures
        ({
            let next = next_in_course(
                session,
                StageView::Closing { context, outcome, detail },
                AdminEvent::Sent,
                state,
                now,
            );
            &&& next.0 is Over
            &&& next.1 matches StepView::Record { event }
            &&& event.outcome == outcome
            &&& event.detail == detail
            &&& event.actor == context.actor
            &&& event.auth_mode == context.auth_mode
            &&& event.request_id == session.request_id@
            &&& event.listener == session.listener@
            &&& event.observed_at_unix_ms == now
            &&& session.action is Reload ==> event.code == state.last_reload_outcome_code@
            &&& session.action is Restart ==> event.code == state.last_restart_outcome_code@
            &&& session.action is Status ==> event.code == "status"@ + "_"@ + outcome
            &&& session.action is Readyz ==> event.code == "readyz"@ + "_"@ + outcome
        }),
{
}

/// A request from a source that may not ask is forbidden, and that is recorded of an unknown maker.
pub proof fn strange_sources_are_forbidden(session: AdminSession, now: u64)
    ensures
        ({
            let (event, reply) = source_refusal(session, now);
            &&& reply.status == "403 Forbidden"@
            &&& event.outcome == "denied"@
            &&& event.actor == "anonymous"@
            &&& event.request_id == session.request_id@
            &&& event.observed_at_unix_ms == now
            &&& session.mode is Legacy ==> reply.headers.len() == 0 && reply.body
                == "admin source not allowed\n"@
        }),
{
}

/// A request whose maker could not be told is answered with what was wrong, and asks for a token
/// where that would help. What is recorded is what was wrong.
pub proof fn unknown_makers_are_told_what_is_wrong(
    session: AdminSession,
    failure: FailureView,
    now: u64,
)
    ensures
        ({
            let (event, reply) = auth_refusal(session, failure, now);
            let challenge = "WWW-Authenticate: Bearer"@;
            &&& reply.status == failure.status
            &&& event.outcome == failure.outcome
            &&& event.detail == failure.detail
            &&& event.actor == failure.actor
            &&& event.auth_mode == failure.auth_mode
            &&& session.mode is Legacy ==> reply.body == failure.body
            &&& failure.challenge ==> reply.headers.last() == challenge
            &&& !failure.challenge && session.mode is Legacy ==> reply.headers.len() == 0
        }),
{
}

/// The envelopes of the versioned interface: a success bears its data, and an error its code, its
/// message and whether it is of use to try again.
pub proof fn envelopes_bear_their_parts(
    request_id: Seq<char>,
    data: Seq<char>,
    message: Seq<char>,
    retryable: bool,
)
    ensures
        success_envelope(request_id, data) == "{\"api_version\":\"v1\",\"request_id\":"@
            + serde_string(request_id) + ",\"status\":\"ok\",\"data\":"@ + data + "}"@,
        error_envelope(request_id, AdminApiErrorCode::NotFound, message, retryable)
            == "{\"api_version\":\"v1\",\"request_id\":"@ + serde_string(request_id)
            + ",\"status\":\"error\",\"error\":{\"code\":\""@ + "not_found"@ + "\",\"message\":"@
            + serde_string(message) + ",\"retryable\":"@ + (if retryable {
            "true"@
        } else {
            "false"@
        }) + "}}"@,
{
}

/// A session is that of its request: it bears the number that it was given, asks for the action of
/// its method and of its path without the version, and comes from its source to its listener.
pub proof fn sessions_are_those_of_their_requests(
    session: AdminSession,
    request: RequestHead,
    listener: Seq<char>,
    source: IpAddress,
    number: u64,
)
    requires
        session.is_of(request, listener, source, number),
    ensures
        session.request_id@ == "admin-"@ + hex_padded(number as nat, 16),
        session.listener@ == listener,
        session.source == source,
        request.method@ == "POST"@ && negotiated_mode(request).canonical() == "/reload"@
            ==> session.action is Reload,
        session.action is Status <==> request.method@ == "GET"@ && negotiated_mode(
            request,
        ).canonical() == "/status"@,
        session.mode is Legacy <==> negotiated_mode(request) is Legacy,
        session.mode is UnsupportedVersion <==> negotiated_mode(request) is UnsupportedVersion,
{
    each_action_has_its_own_request(request.method@, negotiated_mode(request).canonical());
}

/// The maker of a request is judged by the request as it came, for what its action needs.
pub proof fn makers_are_judged_by_their_request(
    session: AdminSession,
    request: RequestHead,
    body: Seq<u8>,
    legacy_secret: Seq<char>,
    readings: SecretReadings,
    now_secs: u64,
)
    ensures
        ({
            let input = auth_input(session, request, body, legacy_secret, readings, now_secs);
            let action = session.action;
            &&& input.head == request
            &&& input.body == body
            &&& input.source == session.source
            &&& input.request_id == session.request_id@
            &&& input.now_secs == now_secs
            &&& input.legacy_secret == legacy_secret
            &&& input.readings == readings
            &&& input.permission is Write <==> action is Reload || action is Restart
                || action is CachePurge || action is CacheInvalidate
            &&& input.permission is Audit <==> action is Audit
        }),
{
}

/// Requests are looked at from everywhere where no block is named, and else exactly from the
/// addresses that one of the blocks covers.
pub proof fn sources_are_those_of_the_blocks(policy: CompiledAdminPolicy, source: IpAddress)
    ensures
        policy.allowed_source_cidrs@.len() == 0 ==> policy.source_allowed(source),
        policy.allowed_source_cidrs@.len() > 0 ==> (policy.source_allowed(source) <==> exists|i: int|
            0 <= i < policy.allowed_source_cidrs@.len()
                && (#[trigger] policy.allowed_source_cidrs@[i]).covers(source)),
{
}

/// Error codes are told by their words.
pub proof fn error_codes_are_told_by_their_words(code: AdminApiErrorCode)
    ensures
        error_code_word(code) == (match code {
            AdminApiErrorCode::Misconfigured => "misconfigured"@,
            AdminApiErrorCode::ReplayRejected => "replay_rejected"@,
            AdminApiErrorCode::Forbidden => "forbidden"@,
            AdminApiErrorCode::Unauthorized => "unauthorized"@,
            AdminApiErrorCode::RateLimited => "rate_limited"@,
            AdminApiErrorCode::UnsupportedApiVersion => "unsupported_api_version"@,
            AdminApiErrorCode::ValidationFailed => "validation_failed"@,
            AdminApiErrorCode::UnsupportedMutation => "unsupported_mutation"@,
            AdminApiErrorCode::ReloadFailed => "reload_failed"@,
            AdminApiErrorCode::NotFound => "not_found"@,
        }),
{
}

/// What a versioned answer to a reload or a restart says of it: whether a drain took too long, its
/// code and its detail, and of a restart how many listeners it touched.
#[verifier::rlimit(40)]
pub proof fn applied_changes_are_told(
    session: AdminSession,
    context: ContextView,
    plan: ReloadAuditPlan,
    reloaded: ReloadApplyOutcome,
    restarted: WarmRestartApplyOutcome,
    state: WorkspaceServeState,
    now: u64,
)
    requires
        session.action is Reload || session.action is Restart,
        !(session.mode is Legacy),
    ensures
        ({
            let stage = StageView::Applying { context, plan: Some(plan) };
            let event = if session.action is Reload {
                AdminEvent::Reloaded(Ok(reloaded))
            } else {
                AdminEvent::Restarted(Ok(restarted))
            };
            let next = next_in_course(session, stage, event, state, now);
            let late = if session.action is Reload {
                reloaded.drain_timed_out_replacements@.len() > 0
            } else {
                restarted.drain_timeout_count > 0
                    || restarted.drain_timed_out_replacements@.len() > 0
            };
            let body = next.1->Answer_reply.body;
            let told = if late {
                "true"@
            } else {
                "false"@
            };
            &&& next.1 is Answer
            &&& session.action is Reload ==> tells(body, "{\"degraded\":"@, told) && tells(
                body,
                ",\"outcome_code\":"@,
                serde_string(plan.success_code_text(reloaded)),
            ) && tells(
                body,
                ",\"reload_health\":"@,
                serde_string(health_name(health_at(state.reload_health))),
            )
            &&& session.action is Restart ==> tells(
                body,
                "{\"completed_drains\":"@,
                decimal(restarted.completed_drain_count as nat),
            ) && tells(body, ",\"degraded\":"@, told) && tells(
                body,
                ",\"drain_timeouts\":"@,
                decimal(restarted.drain_timeout_count as nat),
            ) && tells(
                body,
                ",\"restarted_listeners\":"@,
                decimal(restarted.restarted_listener_count as nat),
            ) && tells(
                body,
                ",\"outcome_code\":"@,
                serde_string(plan.restart_success_code_text(restarted)),
            )
        }),
{
    lemma_told();
    lemma_told_within();
    let health = health_name(health_at(state.reload_health));
    let data = if session.action is Reload {
        reload_data(
            reloaded.timed_out(),
            plan.success_detail_text(reloaded),
            plan.success_code_text(reloaded),
            health,
        )
    } else {
        restart_data(
            restarted,
            plan.restart_success_detail_text(restarted),
            plan.restart_success_code_text(restarted),
        )
    };
    let start = "{\"api_version\":\"v1\",\"request_id\":"@ + serde_string(session.request_id@)
        + ",\"status\":\"ok\",\"data\":"@;
    assert(success_envelope(session.request_id@, data) == start + data + "}"@);
}

} // verus!
