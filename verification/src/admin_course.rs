//! The course of an administration request from the moment it was read to its last record: what is
//! done next, and what is answered and recorded.

use crate::addr::IpAddress;
use crate::admin_api::AdminRequestAction;
use crate::admin_audit::AdminAuditEvent;
use crate::admin_auth::{
    judge, AdminApiErrorCode, AdminReplayState, AdminRequestContext, ContextView, RequestHead,
};
use crate::admin_policy::CompiledAdminPolicy;
use crate::admin_rate_limit::AdminRateLimitKey;
use crate::admin_session::{
    answer_audit, answer_cache_invalidate, answer_cache_purge, answer_directly, answer_readyz,
    answer_reload, answer_restart, answer_status, answer_validate, auth_input, auth_refusal,
    closing_code, closing_event, data_of, direct_answer, document_answer, failed_answer, pass_gate,
    rate_refusal, readiness_answer, refuse_rate_limited, reload_answer, reload_failure_words,
    reload_started_event, reload_success_words, restart_answer, restart_failure_words,
    restart_started_event, restart_success_words, source_refusal, AdminAnswer, AdminReply,
    AdminSession, AnswerView, CacheInvalidationReport, CachePurgeReport, EventView,
    RenderedDocument, ReplyView,
};
use crate::error::ServeError;
use crate::listener_status::{health_at, health_name};
use crate::readiness::WorkspaceReadinessStatus;
use crate::reload_plan::{ReloadApplyOutcome, ReloadAuditPlan, WarmRestartApplyOutcome};
use crate::secrets::SecretReadings;
use crate::state::WorkspaceServeState;
use crate::text::decimal;
use vstd::prelude::*;
use vstd::string::*;

verus! {

/// How far a request has come.
#[derive(Debug)]
pub enum AdminStage {
    /// Its maker is known, and asks for a token.
    Admitted { context: AdminRequestContext },
    /// What it asks for is being looked up.
    LookingUp { context: AdminRequestContext },
    /// A reload or a restart is being planned.
    Planning { context: AdminRequestContext },
    /// A reload or a restart is under way.
    Applying { context: AdminRequestContext, plan: Option<ReloadAuditPlan> },
    /// Its answer is being sent.
    Closing { context: AdminRequestContext, outcome: String, detail: String },
    /// It is over.
    Over,
}

/// How far a request has come, as a mathematical value.
pub enum StageView {
    Admitted { context: ContextView },
    LookingUp { context: ContextView },
    Planning { context: ContextView },
    Applying { context: ContextView, plan: Option<ReloadAuditPlan> },
    Closing { context: ContextView, outcome: Seq<char>, detail: Seq<char> },
    Over,
}

impl View for AdminStage {
    type V = StageView;

    open spec fn view(&self) -> StageView {
        match *self {
            AdminStage::Admitted { context } => StageView::Admitted { context: context@ },
            AdminStage::LookingUp { context } => StageView::LookingUp { context: context@ },
            AdminStage::Planning { context } => StageView::Planning { context: context@ },
            AdminStage::Applying { context, plan } => StageView::Applying {
                context: context@,
                plan,
            },
            AdminStage::Closing { context, outcome, detail } => StageView::Closing {
                context: context@,
                outcome: outcome@,
                detail: detail@,
            },
            AdminStage::Over => StageView::Over,
        }
    }
}

/// A request that was read, and how far it has come.
#[derive(Debug)]
pub struct AdminCourse {
    pub session: AdminSession,
    pub stage: AdminStage,
}

/// What was looked up for a request.
#[derive(Debug)]
pub enum Finding {
    Readiness(WorkspaceReadinessStatus),
    /// The status report.
    Status(String),
    /// The record of administration events.
    Events(String),
    Preview(Result<RenderedDocument, String>),
    Purge(Result<CachePurgeReport, String>),
    Invalidation(Result<CacheInvalidationReport, String>),
}

/// What happens to a request.
#[derive(Debug)]
pub enum AdminEvent {
    /// Its maker had a token left or not.
    Token { taken: bool },
    Found(Finding),
    /// What a reload or a restart would do, where that could be told.
    Planned(Option<ReloadAuditPlan>),
    Reloaded(Result<ReloadApplyOutcome, String>),
    Restarted(Result<WarmRestartApplyOutcome, String>),
    /// Its answer was sent.
    Sent,
}

/// What is done next about a request.
#[derive(Debug)]
pub enum AdminStep {
    /// A token is taken for its maker.
    TakeToken { key: AdminRateLimitKey },
    /// What it asks for is looked up.
    LookUp,
    /// The reload or the restart that it asks for is planned.
    Plan,
    /// An event is recorded, and the reload or the restart is carried out.
    Apply { event: AdminAuditEvent },
    /// An answer is sent.
    Answer { reply: AdminReply },
    /// An event is recorded, and an answer is sent.
    Refuse { event: AdminAuditEvent, reply: AdminReply },
    /// An event is recorded.
    Record { event: AdminAuditEvent },
    /// The connection is closed for a failure.
    Fail { error: ServeError },
    /// The event says nothing of a request at this stage.
    Ignore,
}

/// What is done next about a request, as a mathematical value.
pub enum StepView {
    TakeToken { key: (IpAddress, Seq<char>, Seq<char>) },
    LookUp,
    Plan,
    Apply { event: EventView },
    Answer { reply: ReplyView },
    Refuse { event: EventView, reply: ReplyView },
    Record { event: EventView },
    Fail { error: Seq<char> },
    Ignore,
}

impl View for AdminStep {
    type V = StepView;

    open spec fn view(&self) -> StepView {
        match *self {
            AdminStep::TakeToken { key } => StepView::TakeToken { key: key@ },
            AdminStep::LookUp => StepView::LookUp,
            AdminStep::Plan => StepView::Plan,
            AdminStep::Apply { event } => StepView::Apply { event: event@ },
            AdminStep::Answer { reply } => StepView::Answer { reply: reply@ },
            AdminStep::Refuse { event, reply } => StepView::Refuse { event: event@, reply: reply@ },
            AdminStep::Record { event } => StepView::Record { event: event@ },
            AdminStep::Fail { error } => StepView::Fail { error: error.message@ },
            AdminStep::Ignore => StepView::Ignore,
        }
    }
}

/// The answer with a document, or the failure where it gives no data.
pub open spec fn told(
    session: AdminSession,
    body: Seq<char>,
    detail: Seq<char>,
) -> Result<AnswerView, Seq<char>> {
    match data_of(session, body) {
        Ok(data) => Ok(document_answer(session, "200 OK"@, data, body, "served"@, detail)),
        Err(error) => Err(error),
    }
}

/// The answer to a request for which something was looked up. There is none where that is not
/// what it asks for.
pub open spec fn found_answer(session: AdminSession, finding: Finding) -> Option<
    Result<AnswerView, Seq<char>>,
> {
    match (session.action, finding) {
        (AdminRequestAction::Readyz, Finding::Readiness(readiness)) => Some(
            match data_of(session, readiness.json()) {
                Ok(data) => Ok(readiness_answer(session, readiness, data)),
                Err(error) => Err(error),
            },
        ),
        (AdminRequestAction::Status, Finding::Status(body)) => Some(
            told(session, body@, "status response generated"@),
        ),
        (AdminRequestAction::Audit, Finding::Events(body)) => Some(
            told(session, body@, "audit log response generated"@),
        ),
        (AdminRequestAction::Validate, Finding::Preview(preview)) => Some(
            Ok(
                match preview {
                    Ok(document) => document_answer(
                        session,
                        "200 OK"@,
                        document.compact@,
                        document.pretty@,
                        "served"@,
                        "validation preview generated"@,
                    ),
                    Err(error) => failed_answer(
                        session,
                        "400 Bad Request"@,
                        AdminApiErrorCode::ValidationFailed,
                        "validation preview failed: "@ + error@,
                    ),
                },
            ),
        ),
        (AdminRequestAction::CachePurge, Finding::Purge(report)) => Some(
            Ok(
                match report {
                    Ok(report) => document_answer(
                        session,
                        "200 OK"@,
                        report.document.compact@,
                        report.document.pretty@,
                        if report.degraded {
                            "degraded"@
                        } else {
                            "executed"@
                        },
                        "cache purge for scope "@ + report.scope@ + " purged "@ + decimal(
                            report.purged_entries as nat,
                        ) + " entries"@,
                    ),
                    Err(error) => failed_answer(
                        session,
                        "400 Bad Request"@,
                        AdminApiErrorCode::ValidationFailed,
                        error@,
                    ),
                },
            ),
        ),
        (AdminRequestAction::CacheInvalidate, Finding::Invalidation(report)) => Some(
            Ok(
                match report {
                    Ok(report) => document_answer(
                        session,
                        "200 OK"@,
                        report.document@,
                        report.document@,
                        if report.duplicate {
                            "duplicate"@
                        } else {
                            "executed"@
                        },
                        "cache invalidation for scope "@ + report.scope@ + " applied with "@
                            + decimal(report.purged_entries as nat) + " purged entries"@,
                    ),
                    Err(error) => failed_answer(
                        session,
                        "400 Bad Request"@,
                        AdminApiErrorCode::ValidationFailed,
                        error@,
                    ),
                },
            ),
        ),
        _ => None,
    }
}

fn answer_finding(session: &AdminSession, finding: Finding) -> (r: Option<
    Result<AdminAnswer, ServeError>,
>)
    ensures
        match found_answer(*session, finding) {
            Some(Ok(answer)) => r matches Some(Ok(a)) && a@ == answer,
            Some(Err(error)) => r matches Some(Err(e)) && e.message@ == error,
            None => r is None,
        },
{
    match (session.action, finding) {
        (AdminRequestAction::Readyz, Finding::Readiness(readiness)) => Some(
            answer_readyz(session, &readiness),
        ),
        (AdminRequestAction::Status, Finding::Status(body)) => Some(answer_status(session, body)),
        (AdminRequestAction::Audit, Finding::Events(body)) => Some(answer_audit(session, body)),
        (AdminRequestAction::Validate, Finding::Preview(preview)) => Some(
            Ok(answer_validate(session, preview)),
        ),
        (AdminRequestAction::CachePurge, Finding::Purge(report)) => Some(
            Ok(answer_cache_purge(session, report)),
        ),
        (AdminRequestAction::CacheInvalidate, Finding::Invalidation(report)) => Some(
            Ok(answer_cache_invalidate(session, report)),
        ),
        _ => None,
    }
}

/// The codes and the results of the last reload and the last restart.
pub struct LastWords {
    pub reload_code: Seq<char>,
    pub reload_result: Seq<char>,
    pub restart_code: Seq<char>,
    pub restart_result: Seq<char>,
}

/// The codes and the results that a state keeps.
pub open spec fn last_words(state: WorkspaceServeState) -> LastWords {
    LastWords {
        reload_code: state.last_reload_outcome_code@,
        reload_result: state.last_reload_result@,
        restart_code: state.last_restart_outcome_code@,
        restart_result: state.last_restart_result@,
    }
}

/// A result whose failure is a text.
pub open spec fn worded<T>(result: Result<T, String>) -> Result<T, Seq<char>> {
    match result {
        Ok(outcome) => Ok(outcome),
        Err(error) => Err(error@),
    }
}

/// The codes and the results after an event: those of a reload or a restart that ended are kept
/// with the words of its plan.
pub open spec fn words_after(
    session: AdminSession,
    stage: StageView,
    event: AdminEvent,
    words: LastWords,
) -> LastWords {
    match (stage, event, session.action) {
        (
            StageView::Applying { plan, .. },
            AdminEvent::Reloaded(result),
            AdminRequestAction::Reload,
        ) => match result {
            Ok(outcome) => LastWords {
                reload_code: reload_success_words(plan, outcome).0,
                reload_result: reload_success_words(plan, outcome).1,
                ..words
            },
            Err(error) => LastWords {
                reload_code: reload_failure_words(plan, error@).0,
                ..words
            },
        },
        (
            StageView::Applying { plan, .. },
            AdminEvent::Restarted(result),
            AdminRequestAction::Restart,
        ) => match result {
            Ok(outcome) => LastWords {
                restart_code: restart_success_words(plan, outcome).0,
                restart_result: restart_success_words(plan, outcome).1,
                ..words
            },
            Err(error) => LastWords {
                restart_code: restart_failure_words(plan, error@).0,
                ..words
            },
        },
        _ => words,
    }
}

/// The event of a reload or a restart that is about to start.
pub open spec fn started_event(
    session: AdminSession,
    context: ContextView,
    plan: Option<ReloadAuditPlan>,
    observed_at_ms: u64,
) -> EventView {
    let restart = session.action is Restart;
    session.event(
        observed_at_ms,
        context.actor,
        context.auth_mode,
        match plan {
            Some(plan) => if restart {
                plan.restart_start_code_text()
            } else {
                plan.start_code_text()
            },
            None => if restart {
                "restart_started_unknown"@
            } else {
                "reload_started_unknown"@
            },
        },
        "started"@,
        match plan {
            Some(plan) => if restart {
                plan.restart_start_detail_text()
            } else {
                plan.start_detail_text()
            },
            None => if restart {
                "warm restart started; plan preview unavailable before apply"@
            } else {
                "reload started; plan preview unavailable before apply"@
            },
        },
    )
}

/// What follows from an answer.
pub open spec fn answering(context: ContextView, answer: AnswerView) -> (StageView, StepView) {
    (
        StageView::Closing { context, outcome: answer.outcome, detail: answer.detail },
        StepView::Answer { reply: answer.reply },
    )
}

/// What follows from an event.
pub open spec fn next_in_course(
    session: AdminSession,
    stage: StageView,
    event: AdminEvent,
    state: WorkspaceServeState,
    observed_at_ms: u64,
) -> (StageView, StepView) {
    match (stage, event) {
        (StageView::Admitted { context }, AdminEvent::Token { taken }) => if !taken {
            let (event, reply) = rate_refusal(session, context, observed_at_ms);
            (StageView::Over, StepView::Refuse { event, reply })
        } else {
            match direct_answer(session) {
                Some(answer) => answering(context, answer),
                None => if session.action is Reload || session.action is Restart {
                    (StageView::Planning { context }, StepView::Plan)
                } else {
                    (StageView::LookingUp { context }, StepView::LookUp)
                },
            }
        },
        (StageView::LookingUp { context }, AdminEvent::Found(finding)) => match found_answer(
            session,
            finding,
        ) {
            Some(Ok(answer)) => answering(context, answer),
            Some(Err(error)) => (StageView::Over, StepView::Fail { error }),
            None => (stage, StepView::Ignore),
        },
        (StageView::Planning { context }, AdminEvent::Planned(plan)) => (
            StageView::Applying { context, plan },
            StepView::Apply { event: started_event(session, context, plan, observed_at_ms) },
        ),
        (StageView::Applying { context, plan }, AdminEvent::Reloaded(result)) => if session.action
            is Reload {
            answering(
                context,
                reload_answer(
                    session,
                    plan,
                    worded(result),
                    health_name(health_at(state.reload_health)),
                ),
            )
        } else {
            (stage, StepView::Ignore)
        },
        (StageView::Applying { context, plan }, AdminEvent::Restarted(result)) => if session.action
            is Restart {
            answering(context, restart_answer(session, plan, worded(result)))
        } else {
            (stage, StepView::Ignore)
        },
        (StageView::Closing { context, outcome, detail }, AdminEvent::Sent) => (
            StageView::Over,
            StepView::Record {
                event: session.event(
                    observed_at_ms,
                    context.actor,
                    context.auth_mode,
                    closing_code(state, session, outcome),
                    outcome,
                    detail,
                ),
            },
        ),
        _ => (stage, StepView::Ignore),
    }
}

fn close_with(session: AdminSession, context: AdminRequestContext, answer: AdminAnswer) -> (r: (
    AdminCourse,
    AdminStep,
))
    ensures
        r.0.session == session,
        (r.0.stage@, r.1@) == answering(context@, answer@),
{
    (
        AdminCourse {
            session,
            stage: AdminStage::Closing { context, outcome: answer.outcome, detail: answer.detail },
        },
        AdminStep::Answer { reply: answer.reply },
    )
}

impl AdminCourse {
    /// Opens the course of a request that was read: it gets its number, and its source and its
    /// maker are judged.
    pub fn open(
        state: &mut WorkspaceServeState,
        request: &RequestHead,
        request_body: &[u8],
        listener: &str,
        source: IpAddress,
        policy: &CompiledAdminPolicy,
        replay_state: &mut AdminReplayState,
        legacy_admin_secret: &str,
        readings: &SecretReadings,
        now_secs: u64,
        now: u128,
        observed_at_ms: u64,
    ) -> (r: (AdminCourse, AdminStep))
        requires
            policy.wf(),
        ensures
            r.0.session.is_of(*request, listener@, source, old(state).admin_audit_sequence),
            *final(state) == (WorkspaceServeState {
                admin_audit_sequence: old(state).admin_audit_sequence.wrapping_add(1),
                ..*old(state)
            }),
            ({
                let session = r.0.session;
                let judged = judge(
                    auth_input(
                        session,
                        *request,
                        request_body@,
                        legacy_admin_secret@,
                        *readings,
                        now_secs,
                    ),
                    *policy,
                    old(replay_state).nonces@,
                    now,
                );
                if !policy.source_allowed(source) {
                    let (event, reply) = source_refusal(session, observed_at_ms);
                    &&& r.0.stage@ == StageView::Over
                    &&& r.1@ == StepView::Refuse { event, reply }
                    &&& final(replay_state).nonces@ == old(replay_state).nonces@
                } else {
                    &&& final(replay_state).nonces@ == judged.1
                    &&& match judged.0 {
                        Ok(context) => {
                            &&& r.0.stage@ == StageView::Admitted { context }
                            &&& r.1@ == StepView::TakeToken {
                                key: (source, context.actor, context.auth_mode),
                            }
                        },
                        Err(failure) => {
                            let (event, reply) = auth_refusal(session, failure, observed_at_ms);
                            &&& r.0.stage@ == StageView::Over
                            &&& r.1@ == StepView::Refuse { event, reply }
                        },
                    }
                }
            }),
    {
        let session = AdminSession::begin(state, request, listener, source);
        match pass_gate(
            &session,
            request,
            request_body,
            policy,
            replay_state,
            legacy_admin_secret,
            readings,
            now_secs,
            now,
            observed_at_ms,
        ) {
            Ok(context) => {
                let key = AdminRateLimitKey {
                    source,
                    actor: context.actor.clone(),
                    auth_mode: context.auth_mode.clone(),
                };
                (
                    AdminCourse { session, stage: AdminStage::Admitted { context } },
                    AdminStep::TakeToken { key },
                )
            },
            Err(refusal) => (
                AdminCourse { session, stage: AdminStage::Over },
                AdminStep::Refuse { event: refusal.event, reply: refusal.reply },
            ),
        }
    }

    /// Decides what is done about a request after an event.
    pub fn advance(self, event: AdminEvent, state: &mut WorkspaceServeState, observed_at_ms: u64) -> (r:
        (AdminCourse, AdminStep))
        ensures
            r.0.session == self.session,
            (r.0.stage@, r.1@) == next_in_course(
                self.session,
                self.stage@,
                event,
                *old(state),
                observed_at_ms,
            ),
            last_words(*final(state)) == words_after(
                self.session,
                self.stage@,
                event,
                last_words(*old(state)),
            ),
            *final(state) == (WorkspaceServeState {
                last_reload_outcome_code: final(state).last_reload_outcome_code,
                last_reload_result: final(state).last_reload_result,
                last_restart_outcome_code: final(state).last_restart_outcome_code,
                last_restart_result: final(state).last_restart_result,
                ..*old(state)
            }),
    {
        let AdminCourse { session, stage } = self;
        match (stage, event) {
            (AdminStage::Admitted { context }, AdminEvent::Token { taken }) => {
                if !taken {
                    let refusal = refuse_rate_limited(&session, &context, observed_at_ms);
                    return (
                        AdminCourse { session, stage: AdminStage::Over },
                        AdminStep::Refuse { event: refusal.event, reply: refusal.reply },
                    );
                }
                match answer_directly(&session) {
                    Some(answer) => close_with(session, context, answer),
                    None => match session.action {
                        AdminRequestAction::Reload => (
                            AdminCourse { session, stage: AdminStage::Planning { context } },
                            AdminStep::Plan,
                        ),
                        AdminRequestAction::Restart => (
                            AdminCourse { session, stage: AdminStage::Planning { context } },
                            AdminStep::Plan,
                        ),
                        _ => (
                            AdminCourse { session, stage: AdminStage::LookingUp { context } },
                            AdminStep::LookUp,
                        ),
                    },
                }
            },
            (AdminStage::LookingUp { context }, AdminEvent::Found(finding)) => {
                match answer_finding(&session, finding) {
                    Some(Ok(answer)) => close_with(session, context, answer),
                    Some(Err(error)) => (
                        AdminCourse { session, stage: AdminStage::Over },
                        AdminStep::Fail { error },
                    ),
                    None => (
                        AdminCourse { session, stage: AdminStage::LookingUp { context } },
                        AdminStep::Ignore,
                    ),
                }
            },
            (AdminStage::Planning { context }, AdminEvent::Planned(plan)) => {
                let event = match session.action {
                    AdminRequestAction::Restart => restart_started_event(
                        &session,
                        &context,
                        &plan,
                        observed_at_ms,
                    ),
                    _ => reload_started_event(&session, &context, &plan, observed_at_ms),
                };
                (
                    AdminCourse { session, stage: AdminStage::Applying { context, plan } },
                    AdminStep::Apply { event },
                )
            },
            (AdminStage::Applying { context, plan }, AdminEvent::Reloaded(result)) => {
                match session.action {
                    AdminRequestAction::Reload => {
                        let answer = match &result {
                            Ok(outcome) => answer_reload(state, &session, &plan, Ok(outcome)),
                            Err(error) => answer_reload(
                                state,
                                &session,
                                &plan,
                                Err(error.as_str()),
                            ),
                        };
                        close_with(session, context, answer)
                    },
                    _ => (
                        AdminCourse { session, stage: AdminStage::Applying { context, plan } },
                        AdminStep::Ignore,
                    ),
                }
            },
            (AdminStage::Applying { context, plan }, AdminEvent::Restarted(result)) => {
                match session.action {
                    AdminRequestAction::Restart => {
                        let answer = match &result {
                            Ok(outcome) => answer_restart(state, &session, &plan, Ok(outcome)),
                            Err(error) => answer_restart(
                                state,
                                &session,
                                &plan,
                                Err(error.as_str()),
                            ),
                        };
                        close_with(session, context, answer)
                    },
                    _ => (
                        AdminCourse { session, stage: AdminStage::Applying { context, plan } },
                        AdminStep::Ignore,
                    ),
                }
            },
            (AdminStage::Closing { context, outcome, detail }, AdminEvent::Sent) => {
                let event = closing_event(
                    state,
                    &session,
                    &context,
                    outcome.as_str(),
                    detail.as_str(),
                    observed_at_ms,
                );
                (AdminCourse { session, stage: AdminStage::Over }, AdminStep::Record { event })
            },
            (stage, _) => (AdminCourse { session, stage }, AdminStep::Ignore),
        }
    }
}

/// An event together with the state and the time in which it finds the request.
pub struct Occurrence {
    pub event: AdminEvent,
    pub state: WorkspaceServeState,
    pub observed_at_ms: u64,
}

/// The stage after a request went through events.
pub open spec fn stage_after(
    session: AdminSession,
    first: StageView,
    history: Seq<Occurrence>,
) -> StageView
    decreases history.len(),
{
    if history.len() == 0 {
        first
    } else {
        let last = history.last();
        next_in_course(
            session,
            stage_after(session, first, history.drop_last()),
            last.event,
            last.state,
            last.observed_at_ms,
        ).0
    }
}

/// Whether a token was taken.
pub open spec fn token_taken(history: Seq<Occurrence>) -> bool {
    exists|i: int|
        0 <= i < history.len() && (#[trigger] history[i]).event == (AdminEvent::Token {
            taken: true,
        })
}

/// Who a request at a stage is known to come from.
pub open spec fn maker(stage: StageView) -> Option<ContextView> {
    match stage {
        StageView::Admitted { context } => Some(context),
        StageView::LookingUp { context } => Some(context),
        StageView::Planning { context } => Some(context),
        StageView::Applying { context, .. } => Some(context),
        StageView::Closing { context, .. } => Some(context),
        StageView::Over => None,
    }
}

/// Nothing is done for a request, but that it is refused, before its maker is known and a token
/// was taken for them, and its maker stays the same to the end. Nothing at all is done for one
/// that was refused.
pub proof fn work_needs_admission_and_a_token(
    session: AdminSession,
    first: StageView,
    history: Seq<Occurrence>,
)
    requires
        first is Admitted || first is Over,
    ensures
        ({
            let stage = stage_after(session, first, history);
            &&& first is Over ==> stage is Over
            &&& stage is LookingUp || stage is Planning || stage is Applying || stage is Closing
                ==> token_taken(history)
            &&& maker(stage) is Some ==> maker(stage) == maker(first)
        }),
    decreases history.len(),
{
    if history.len() > 0 {
        let before = history.drop_last();
        work_needs_admission_and_a_token(session, first, before);
        assert(history[history.len() - 1] == history.last());
        if token_taken(before) {
            let i = choose|i: int|
                0 <= i < before.len() && (#[trigger] before[i]).event == (AdminEvent::Token {
                    taken: true,
                });
            assert(history[i] == before[i]);
        }
    }
}

/// Everything that is recorded of a request names the request, its listener, its action and its
/// source, and once its maker is known, its maker.
pub proof fn records_name_their_request(
    session: AdminSession,
    stage: StageView,
    event: AdminEvent,
    state: WorkspaceServeState,
    observed_at_ms: u64,
)
    ensures
        ({
            let recorded = match next_in_course(session, stage, event, state, observed_at_ms).1 {
                StepView::Apply { event } => Some(event),
                StepView::Refuse { event, .. } => Some(event),
                StepView::Record { event } => Some(event),
                _ => None,
            };
            recorded matches Some(e) ==> {
                &&& e == session.event(
                    observed_at_ms,
                    e.actor,
                    e.auth_mode,
                    e.code,
                    e.outcome,
                    e.detail,
                )
                &&& maker(stage) matches Some(context)
                &&& e.actor == context.actor
                &&& e.auth_mode == context.auth_mode
            }
        }),
{
}

} // verus!
