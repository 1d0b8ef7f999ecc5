//! What holds of all reports: each tells every value that it is about under the value's own name.

use crate::admin_audit::DurableSnapshotIdentity;
use crate::compile_policies::SourceAggregation;
use crate::config::{ListenerBindMode, ListenerClassConfig, ListenerProtocolConfig};
use crate::control_plane_journal::{ControlPlaneJournalRuntime, JournalInFlightOperation};
use crate::json::{bool_json, escaped, optional_number, quoted, serde_string};
use crate::listener_status::{
    aggregation_name, bind_mode_name, class_name, event_list, health_at, health_name, identity_list,
    protocol_name, FailedListenerStartStatus, HandshakeGuardStatus, ListenerAbuseProtectionStatus,
    ListenerIdentityStatus, ListenerReplacementStatus, ListenerStatus, SourceQuotaStatus,
};
use crate::overload::OverloadEventStatus;
use crate::readiness::{ListenerReadinessStatus, WorkspaceReadinessStatus};
use crate::recovery::{
    ControlPlaneRecoveryInfo, RecoveredListenerStatus, RecoveryOperatorGuidance,
    RecoveryReconciliationSummary,
};
use crate::secrets::AdminSecretHealthStatus;
use crate::state::WorkspaceServeState;
use crate::text::{decimal, joined};
use vstd::prelude::*;
use vstd::string::*;

verus! {

/// Whether a report tells a value right behind a name.
pub open spec fn tells(report: Seq<char>, name: Seq<char>, value: Seq<char>) -> bool {
    exists|before: Seq<char>, after: Seq<char>| report == #[trigger] (before + name + value + after)
}

#[verifier::rlimit(40)]
pub(crate) proof fn lemma_told()
    ensures
        forall|before: Seq<char>, name: Seq<char>, value: Seq<char>| #[trigger]
            tells(before + name + value, name, value),
        forall|name: Seq<char>, value: Seq<char>| #[trigger] tells(name + value, name, value),
        forall|report: Seq<char>, more: Seq<char>, name: Seq<char>, value: Seq<char>|
            tells(report, name, value) ==> #[trigger] tells(report + more, name, value),
{
    let none = Seq::<char>::empty();
    assert forall|before: Seq<char>, name: Seq<char>, value: Seq<char>| #[trigger] tells(
        before + name + value,
        name,
        value,
    ) by {
        assert(before + name + value =~= before + name + value + none);
    }
    assert forall|name: Seq<char>, value: Seq<char>| #[trigger] tells(
        name + value,
        name,
        value,
    ) by {
        assert(name + value =~= none + name + value + none);
    }
    assert forall|report: Seq<char>, more: Seq<char>, name: Seq<char>, value: Seq<char>|
        tells(report, name, value) implies #[trigger] tells(report + more, name, value) by {
        let (before, after) = choose|before: Seq<char>, after: Seq<char>|
            report == #[trigger] (before + name + value + after);
        assert(report + more =~= before + name + value + (after + more));
    }
}

/// The texts of a list as JSON strings with a comma between each and the next.
pub open spec fn strings(list: Vec<String>) -> Seq<char> {
    joined(Seq::new(list@.len(), |i: int| quoted(list@[i]@)), ","@)
}

proof fn lemma_strings(list: Vec<String>)
    ensures
        crate::json::quoted_list(crate::text::texts(list@)) == strings(list),
{
    assert(crate::text::texts(list@).map_values(|s: Seq<char>| quoted(s)) =~= Seq::new(
        list@.len(),
        |i: int| quoted(list@[i]@),
    ));
}

/// A snapshot is told by where it came from, its digest and its versions.
pub proof fn snapshots_are_told(identity: DurableSnapshotIdentity)
    ensures
        tells(identity.json(), "{\"source_label\":\""@, escaped(identity.source_label@)),
        tells(identity.json(), "\",\"digest_sha256\":\""@, escaped(identity.digest_sha256@)),
        tells(identity.json(), "\",\"api_version\":\""@, escaped(identity.api_version@)),
        tells(identity.json(), "\",\"snapshot_format_version\":\""@, escaped(identity.snapshot_format_version@)),
{
    lemma_told();
}

/// An operation is told with what it is, when it began, what it is to serve, and whom it touches.
pub proof fn operations_are_told(operation: JournalInFlightOperation)
    ensures
        tells(operation.json(), "{\"kind\":\""@, escaped(operation.kind@)),
        tells(operation.json(), "\",\"started_at_unix_ms\":"@, decimal(operation.started_at_unix_ms as nat)),
        tells(operation.json(), ",\"desired_snapshot\":"@, operation.desired_snapshot.json()),
        tells(operation.json(), ",\"lifecycle_code\":\""@, escaped(operation.lifecycle_code@)),
        tells(operation.json(), "\",\"detail\":\""@, escaped(operation.detail@)),
        tells(operation.json(), "\",\"expected_completion_within_ms\":"@, optional_number(operation.expected_completion_within_ms)),
        tells(operation.json(), ",\"affected_listeners\":["@, strings(operation.affected_listeners)),
{
    lemma_told();
    lemma_strings(operation.affected_listeners);
}

/// An overload event is told with its code, its scope and its detail.
pub proof fn overload_events_are_told(event: OverloadEventStatus)
    ensures
        tells(event.json(), "{\"code\":\""@, escaped(event.code@)),
        tells(event.json(), "\",\"scope\":\""@, escaped(event.scope@)),
        tells(event.json(), "\",\"detail\":\""@, escaped(event.detail@)),
{
    lemma_told();
}

/// The name of a listener's class, of its protocol and of its bind mode in reports, and of the way in
/// which sources are counted together.
pub proof fn kinds_are_told_by_their_names(
    class: ListenerClassConfig,
    protocol: ListenerProtocolConfig,
    bind_mode: ListenerBindMode,
    aggregation: SourceAggregation,
)
    ensures
        class_name(ListenerClassConfig::Public) == "public"@,
        class_name(ListenerClassConfig::Admin) == "admin"@,
        protocol_name(protocol) == (match protocol {
            ListenerProtocolConfig::Tcp => "tcp"@,
            ListenerProtocolConfig::Http1 => "http1"@,
            ListenerProtocolConfig::Https => "https"@,
            ListenerProtocolConfig::Http2 => "http2"@,
            ListenerProtocolConfig::Http3 => "http3"@,
            ListenerProtocolConfig::Auto => "auto"@,
        }),
        bind_mode_name(bind_mode) == (match bind_mode {
            ListenerBindMode::SingleStack => "single_stack"@,
            ListenerBindMode::DualStack => "dual_stack"@,
            ListenerBindMode::Ipv6Only => "ipv6_only"@,
        }),
        aggregation_name(aggregation) == (match aggregation {
            SourceAggregation::ExactIp => "exact_ip"@,
            SourceAggregation::Ipv4Subnet24 => "ipv4_subnet_24"@,
            SourceAggregation::Ipv6Subnet64 => "ipv6_subnet_64"@,
        }),
{
}

/// A socket is told by its class, its protocol, its address and its bind mode.
pub proof fn sockets_are_told(status: ListenerIdentityStatus)
    ensures
        tells(status.json(), "{\"class\":\""@, class_name(status.class)),
        tells(status.json(), "\",\"protocol\":\""@, protocol_name(status.protocol)),
        tells(status.json(), "\",\"configured_bind\":\""@, status.configured_bind.written()),
        tells(status.json(), "\",\"bind_mode\":\""@, bind_mode_name(status.bind_mode)),
{
    lemma_told();
}

/// A start that failed is told with what was to be opened and why it failed.
pub proof fn failed_starts_are_told(status: FailedListenerStartStatus)
    ensures
        tells(status.json(), "{\"identity\":"@, status.identity.json()),
        tells(status.json(), ",\"detail\":\""@, escaped(status.detail@)),
{
    lemma_told();
}

/// The reports of sockets with a comma between each and the next.
pub open spec fn sockets(list: Vec<ListenerIdentityStatus>) -> Seq<char> {
    joined(Seq::new(list@.len(), |i: int| list@[i].json()), ","@)
}

proof fn lemma_sockets(list: Vec<ListenerIdentityStatus>)
    ensures
        identity_list(list@) == sockets(list),
{
    assert(list@.map_values(|status: ListenerIdentityStatus| status.json()) =~= Seq::new(
        list@.len(),
        |i: int| list@[i].json(),
    ));
}

/// A replacement is told with its state, what is desired, what drains, what was retired, what took too
/// long, and what could not be started.
pub proof fn replacements_are_told(status: ListenerReplacementStatus)
    ensures
        tells(status.json(), "{\"state\":\""@, escaped(status.state@)),
        tells(status.json(), "\",\"desired\":"@, status.desired.json()),
        tells(status.json(), ",\"draining\":["@, sockets(status.draining)),
        tells(status.json(), "],\"retired_recent\":["@, sockets(status.retired_recent)),
        tells(status.json(), "],\"drain_timeout_recent\":["@, sockets(status.drain_timeout_recent)),
        tells(status.json(), "],\"failed_start\":"@, match status.failed_start {
            Some(failed) => failed.json(),
            None => "null"@,
        }),
{
    lemma_told();
    lemma_sockets(status.draining);
    lemma_sockets(status.retired_recent);
    lemma_sockets(status.drain_timeout_recent);
}

/// The quota and the guard of a listener are told with their limits.
pub proof fn limits_are_told(
    status: ListenerAbuseProtectionStatus,
    quota: SourceQuotaStatus,
    guard: HandshakeGuardStatus,
)
    requires
        status.source_quota == Some(quota),
        status.handshake_guard == Some(guard),
    ensures
        tells(status.json(), "\",\"source_quota\":"@, ("{\"aggregation\":\""@ + escaped(quota.aggregation@) + "\",\"max_active_per_source\":"@ + decimal(
            quota.max_active_per_source as nat,
        ) + ",\"max_tracked_sources\":"@ + decimal(quota.max_tracked_sources as nat) + "}"@)),
        tells(status.json(), ",\"handshake_guard\":"@, ("{\"max_inflight\":"@ + decimal(guard.max_inflight as nat) + ",\"timeout_ms\":"@ + decimal(
            guard.timeout_ms as nat,
        ) + "}"@)),
{
    lemma_told();
}

/// Hostile-edge protection is told with its state, all that it counted, and its reasons.
pub proof fn protection_is_told(status: ListenerAbuseProtectionStatus)
    ensures
        tells(status.json(), "{\"state\":\""@, escaped(status.state@)),
        tells(status.json(), ",\"source_quota_rejections\":"@, decimal(status.source_quota_rejections as nat)),
        tells(status.json(), ",\"tracked_source_limit_rejections\":"@, decimal(status.tracked_source_limit_rejections as nat)),
        tells(status.json(), ",\"handshake_guard_rejections\":"@, decimal(status.handshake_guard_rejections as nat)),
        tells(status.json(), ",\"tracked_sources\":"@, decimal(status.tracked_sources as nat)),
        tells(status.json(), ",\"active_handshakes\":"@, decimal(status.active_handshakes as nat)),
        tells(status.json(), ",\"reason_codes\":["@, strings(status.reason_codes)),
{
    lemma_told();
    lemma_strings(status.reason_codes);
}

/// Overload events with something between each and the next.
pub open spec fn overloads(list: Seq<OverloadEventStatus>, sep: Seq<char>) -> Seq<char> {
    joined(Seq::new(list.len(), |i: int| list[i].json()), sep)
}

proof fn lemma_overloads(list: Seq<OverloadEventStatus>, sep: Seq<char>)
    ensures
        event_list(list, sep) == overloads(list, sep),
{
    assert(list.map_values(|event: OverloadEventStatus| event.json()) =~= Seq::new(
        list.len(),
        |i: int| list[i].json(),
    ));
}

/// A listener is told with all that it is, that it counted, and that became of it.
pub proof fn listeners_are_told(status: ListenerStatus)
    ensures
        tells(status.json(), "{\"name\":\""@, escaped(status.name@)),
        tells(status.json(), "\",\"class\":\""@, class_name(status.class)),
        tells(status.json(), "\",\"protocol\":\""@, protocol_name(status.protocol)),
        tells(status.json(), "\",\"configured_bind\":\""@, status.configured_bind.written()),
        tells(status.json(), "\",\"local_addr\":\""@, status.local_addr.written()),
        tells(status.json(), "\",\"state\":\""@, escaped(status.state@)),
        tells(status.json(), "\",\"overload_state\":\""@, escaped(status.overload_state@)),
        tells(status.json(), "\",\"accepted_connections\":"@, decimal(status.accepted_connections as nat)),
        tells(status.json(), ",\"active_connections\":"@, decimal(status.active_connections as nat)),
        tells(status.json(), ",\"shed_connections\":"@, decimal(status.shed_connections as nat)),
        tells(status.json(), ",\"completed_connections\":"@, decimal(status.completed_connections as nat)),
        tells(status.json(), ",\"abuse_protection\":"@, status.abuse_protection.json()),
        tells(status.json(), ",\"brownout_features\":["@, strings(status.brownout_features)),
        tells(status.json(), "],\"recent_overload_events\":["@, overloads(status.recent_overload_events@, ","@)),
        tells(status.json(), "],\"replacement\":"@, status.replacement.json()),
        tells(status.json(), ",\"tls\":"@, match status.tls {
            Some(tls) => tls@,
            None => "null"@,
        }),
{
    lemma_told();
    lemma_strings(status.brownout_features);
    lemma_overloads(status.recent_overload_events@, ","@);
}

/// The readiness of a listener is told with what it is, whether it is ready, and why not.
pub proof fn listener_readiness_is_told(status: ListenerReadinessStatus)
    ensures
        tells(status.json(), "{\"name\":\""@, escaped(status.name@)),
        tells(status.json(), "\",\"class\":\""@, class_name(status.class)),
        tells(status.json(), "\",\"protocol\":\""@, protocol_name(status.protocol)),
        tells(status.json(), "\",\"configured_bind\":\""@, status.configured_bind.written()),
        tells(status.json(), "\",\"ready\":"@, bool_json(status.ready)),
        tells(status.json(), ",\"status\":\""@, escaped(status.status@)),
        tells(status.json(), "\",\"reason_codes\":["@, strings(status.reason_codes)),
{
    lemma_told();
    lemma_strings(status.reason_codes);
}

/// The readiness of all is told with whether they are ready, on which listeners it depends, how the latest
/// reload went, and why not.
pub proof fn readiness_is_told(status: WorkspaceReadinessStatus)
    ensures
        tells(status.json(), "{\"ready\":"@, bool_json(status.ready)),
        tells(status.json(), ",\"status\":\""@, escaped(status.status@)),
        tells(status.json(), "\",\"evaluated_listener_scope\":\""@, escaped(status.evaluated_listener_scope@)),
        tells(status.json(), "\",\"reload_status\":\""@, escaped(status.reload_status@)),
        tells(status.json(), "\",\"reason_codes\":["@, strings(status.reason_codes)),
        tells(status.json(), "],\"listeners\":["@, joined(
            Seq::new(status.listeners@.len(), |i: int| status.listeners@[i].json()),
            ","@,
        )),
{
    lemma_told();
    lemma_strings(status.reason_codes);
    assert(status.listeners@.map_values(|listener: ListenerReadinessStatus| listener.json())
        =~= Seq::new(status.listeners@.len(), |i: int| status.listeners@[i].json()));
}

/// A listener that a restart found is told with its name, its states and the verdict.
pub proof fn recovered_listeners_are_told(status: RecoveredListenerStatus)
    ensures
        tells(status.json(), "{\"name\":\""@, escaped(status.name@)),
        tells(status.json(), "\",\"listener_state\":\""@, escaped(status.listener_state@)),
        tells(status.json(), "\",\"replacement_state\":\""@, escaped(status.replacement_state@)),
        tells(status.json(), "\",\"reconciliation_verdict\":\""@, escaped(status.reconciliation_verdict@)),
{
    lemma_told();
}

/// A summary is told with its verdict, its advice, and how many listeners stand how.
pub proof fn summaries_are_told(summary: RecoveryReconciliationSummary)
    ensures
        tells(summary.json(), "{\"overall_verdict\":\""@, escaped(summary.overall_verdict@)),
        tells(summary.json(), "\",\"recommended_action\":\""@, escaped(summary.recommended_action@)),
        tells(summary.json(), "\",\"settled_count\":"@, decimal(summary.settled_count as nat)),
        tells(summary.json(), ",\"draining_count\":"@, decimal(summary.draining_count as nat)),
        tells(summary.json(), ",\"failed_preserved_count\":"@, decimal(summary.failed_preserved_count as nat)),
        tells(summary.json(), ",\"drain_timeout_count\":"@, decimal(summary.drain_timeout_count as nat)),
        tells(summary.json(), ",\"missing_count\":"@, decimal(summary.missing_count as nat)),
        tells(summary.json(), ",\"needs_review_count\":"@, decimal(summary.needs_review_count as nat)),
{
    lemma_told();
}

/// Advice is told with its urgency, the age of the operation, and whether it took too long.
pub proof fn advice_is_told(guidance: RecoveryOperatorGuidance)
    ensures
        tells(guidance.json(), "{\"recommended_action\":\""@, escaped(guidance.recommended_action@)),
        tells(guidance.json(), "\",\"urgency\":\""@, escaped(guidance.urgency@)),
        tells(guidance.json(), "\",\"operation_age_ms\":"@, optional_number(guidance.operation_age_ms)),
        tells(guidance.json(), ",\"expected_completion_within_ms\":"@, optional_number(guidance.expected_completion_within_ms)),
        tells(guidance.json(), ",\"exceeded_expected_completion\":"@, bool_json(guidance.exceeded_expected_completion)),
{
    lemma_told();
}

/// What a restart found is told with what was restored, the operation that was under way, the advice, the
/// listeners and the summary of them.
pub proof fn recovery_is_told(
    info: ControlPlaneRecoveryInfo,
    guidance: RecoveryOperatorGuidance,
    summary: RecoveryReconciliationSummary,
)
    ensures
        tells(info.json_with(guidance, summary), "{\"state\":\""@, escaped(info.state@)),
        tells(info.json_with(guidance, summary), "\",\"detail\":\""@, escaped(info.detail@)),
        tells(info.json_with(guidance, summary), "\",\"last_persisted_at_unix_ms\":"@, optional_number(info.last_persisted_at_unix_ms)),
        tells(info.json_with(guidance, summary), ",\"restored_reload_health\":"@, match info.restored_reload_health {
            Some(health) => quoted(health@),
            None => "null"@,
        }),
        tells(info.json_with(guidance, summary), ",\"restored_last_reload_outcome_code\":"@, match info.restored_last_reload_outcome_code {
            Some(code) => quoted(code@),
            None => "null"@,
        }),
        tells(info.json_with(guidance, summary), ",\"in_flight_operation\":"@, match info.in_flight_operation {
            Some(operation) => operation.json(),
            None => "null"@,
        }),
        tells(info.json_with(guidance, summary), ",\"operator_guidance\":"@, guidance.json()),
        tells(info.json_with(guidance, summary), ",\"reconciled_listeners\":["@, joined(
            Seq::new(info.reconciled_listeners@.len(), |i: int| info.reconciled_listeners@[i].json()),
            ","@,
        )),
        tells(info.json_with(guidance, summary), "],\"reconciliation_summary\":"@, summary.json()),
{
    lemma_told();
    assert(info.reconciled_listeners@.map_values(|l: RecoveredListenerStatus| l.json()) =~= Seq::new(
        info.reconciled_listeners@.len(),
        |i: int| info.reconciled_listeners@[i].json(),
    ));
}

/// The journal is told with its path and the two snapshots that it carries.
pub proof fn journals_are_told(
    journal: ControlPlaneJournalRuntime,
    now_ms: u64,
    report: Seq<char>,
)
    requires
        journal.status_json_at(now_ms, report),
    ensures
        tells(report, "{\"path\":\""@, escaped(journal.journal_path@)),
        tells(report, "\",\"desired_snapshot\":"@, match journal.desired_snapshot {
            Some(snapshot) => snapshot.json(),
            None => "null"@,
        }),
        tells(report, ",\"applied_snapshot\":"@, match journal.applied_snapshot {
            Some(snapshot) => snapshot.json(),
            None => "null"@,
        }),
{
    lemma_told();
}

/// A secret is told with who needs it, where it comes from, whether it can change, and how it stands.
pub proof fn secrets_are_told(status: AdminSecretHealthStatus)
    ensures
        tells(status.json(), "{\"listener\":"@, serde_string(status.listener@)),
        tells(status.json(), ",\"actor\":"@, serde_string(status.actor@)),
        tells(status.json(), ",\"auth_mode\":"@, serde_string(status.auth_mode@)),
        tells(status.json(), ",\"secret_env\":"@, serde_string(status.secret_env@)),
        tells(status.json(), ",\"source_kind\":"@, serde_string(status.source_kind@)),
        tells(status.json(), ",\"source_reference\":"@, serde_string(status.source_reference@)),
        tells(status.json(), ",\"supports_rotation_without_reload\":"@, bool_json(status.supports_rotation_without_reload)),
        tells(status.json(), ",\"healthy\":"@, bool_json(status.healthy)),
        tells(status.json(), ",\"state\":"@, serde_string(status.state@)),
        tells(status.json(), ",\"detail\":"@, serde_string(status.detail@)),
{
    lemma_told();
}

pub(crate) proof fn lemma_told_within()
    ensures
        forall|report: Seq<char>, earlier: Seq<char>, name: Seq<char>, value: Seq<char>|
            tells(report, name, value) ==> #[trigger] tells(earlier + report, name, value),
{
    assert forall|report: Seq<char>, earlier: Seq<char>, name: Seq<char>, value: Seq<char>|
        tells(report, name, value) implies #[trigger] tells(earlier + report, name, value) by {
        let (before, after) = choose|before: Seq<char>, after: Seq<char>|
            report == #[trigger] (before + name + value + after);
        assert(earlier + report =~= (earlier + before) + name + value + after);
    }
}

/// A status report tells how long the workspace runs, and all that it counted and timed of connections,
/// requests and reloads, each under its own name.
pub proof fn counters_are_told(
    state: WorkspaceServeState,
    uptime_secs: u64,
)
    ensures
        tells(state.counters_json(uptime_secs), "{\n  \"service\": \"lb-dataplane\",\n  \"mode\": \"workspace\",\n  \"config_path\": \""@, escaped(state.config_path@)),
        tells(state.counters_json(uptime_secs), "\",\n  \"uptime_secs\": "@, decimal(uptime_secs as nat)),
        tells(state.counters_json(uptime_secs), ",\n  \"proxied_connections\": "@, decimal(state.proxied_connections as nat)),
        tells(state.counters_json(uptime_secs), ",\n  \"proxied_requests\": "@, decimal(state.proxied_requests as nat)),
        tells(state.counters_json(uptime_secs), ",\n  \"admin_requests\": "@, decimal(state.admin_requests as nat)),
        tells(state.counters_json(uptime_secs), ",\n  \"reload_requests\": "@, decimal(state.reload_requests as nat)),
        tells(state.counters_json(uptime_secs), ",\n  \"reload_success_count\": "@, decimal(state.reload_success_count as nat)),
        tells(state.counters_json(uptime_secs), ",\n  \"reload_failure_count\": "@, decimal(state.reload_failure_count as nat)),
        tells(state.counters_json(uptime_secs), ",\n  \"reload_total_duration_ms\": "@, decimal(state.reload_total_duration_ms as nat)),
        tells(state.counters_json(uptime_secs), ",\n  \"reload_max_duration_ms\": "@, decimal(state.reload_max_duration_ms as nat)),
        tells(state.counters_json(uptime_secs), ",\n  \"reload_last_duration_ms\": "@, decimal(state.last_reload_duration_ms as nat)),
        tells(state.counters_json(uptime_secs), ",\n  \"reload_last_success_duration_ms\": "@, decimal(state.last_successful_reload_duration_ms as nat)),
        tells(state.counters_json(uptime_secs), ",\n  \"reload_last_failure_duration_ms\": "@, decimal(state.last_failed_reload_duration_ms as nat)),
        tells(state.counters_json(uptime_secs), ",\n  \"reload_drained_listener_count\": "@, decimal(state.reload_drained_listener_count as nat)),
        tells(state.counters_json(uptime_secs), ",\n  \"reload_completed_drain_count\": "@, decimal(state.reload_completed_drain_count as nat)),
        tells(state.counters_json(uptime_secs), ",\n  \"reload_drain_timeout_count\": "@, decimal(state.reload_drain_timeout_count as nat)),
{
    lemma_told();
}

/// A status report tells all that was counted and timed of restarts, and the latest outcomes, each under
/// its own name.
pub proof fn outcomes_are_told(state: WorkspaceServeState)
    ensures
        tells(state.outcomes_json(), ",\n  \"restart_requests\": "@, decimal(state.restart_requests as nat)),
        tells(state.outcomes_json(), ",\n  \"restart_success_count\": "@, decimal(state.restart_success_count as nat)),
        tells(state.outcomes_json(), ",\n  \"restart_failure_count\": "@, decimal(state.restart_failure_count as nat)),
        tells(state.outcomes_json(), ",\n  \"restart_last_duration_ms\": "@, decimal(state.last_restart_duration_ms as nat)),
        tells(state.outcomes_json(), ",\n  \"restart_last_success_duration_ms\": "@, decimal(state.last_successful_restart_duration_ms as nat)),
        tells(state.outcomes_json(), ",\n  \"restart_last_failure_duration_ms\": "@, decimal(state.last_failed_restart_duration_ms as nat)),
        tells(state.outcomes_json(), ",\n  \"last_restart_outcome_code\": \""@, escaped(state.last_restart_outcome_code@)),
        tells(state.outcomes_json(), "\",\n  \"reload_health\": \""@, health_name(health_at(state.reload_health))),
        tells(state.outcomes_json(), "\",\n  \"last_reload_outcome_code\": \""@, escaped(state.last_reload_outcome_code@)),
        tells(state.outcomes_json(), "\",\n  \"admin_audit_events\": "@, decimal(state.recent_admin_audit@.len())),
        tells(state.outcomes_json(), ",\n  \"last_reload_result\": \""@, escaped(state.last_reload_result@)),
{
    lemma_told();
}

/// The reports of listeners, one to a line.
pub open spec fn lines(list: Seq<ListenerStatus>) -> Seq<char> {
    joined(Seq::new(list.len(), |i: int| list[i].json()), ",\n"@)
}

/// A status report tells its counters and its outcomes as they are, and behind them the secrets, the
/// journal, the readiness, the listeners and the overload events, each under its own name.
pub proof fn status_reports_tell_everything(
    state: WorkspaceServeState,
    uptime_secs: u64,
    admin_auth: Seq<char>,
    journal: Seq<char>,
    readiness: WorkspaceReadinessStatus,
    listeners: Seq<ListenerStatus>,
    overload_events: Seq<OverloadEventStatus>,
    name: Seq<char>,
    value: Seq<char>,
)
    ensures
        ({
            let report = state.status_json(
                uptime_secs,
                admin_auth,
                journal,
                readiness,
                listeners,
                overload_events,
            );
            &&& tells(state.counters_json(uptime_secs), name, value) ==> tells(report, name, value)
            &&& tells(state.outcomes_json(), name, value) ==> tells(report, name, value)
            &&& tells(report, "\",\n  \"admin_auth\": "@, admin_auth)
            &&& tells(report, ",\n  \"control_plane_journal\": "@, journal)
            &&& tells(report, ",\n  \"readiness\": "@, readiness.json())
            &&& listeners.len() > 0 && lines(listeners).len() > 0 ==> tells(
                report,
                ",\n  \"listeners\": [\n"@,
                "    "@ + lines(listeners),
            )
            &&& overload_events.len() > 0 && overloads(overload_events, ",\n"@).len() > 0 ==> tells(
                report,
                "\n  ],\n  \"recent_overload_events\": [\n"@,
                "    "@ + overloads(overload_events, ",\n"@),
            )
        }),
{
    lemma_told();
    lemma_told_within();
    lemma_overloads(overload_events, ",\n"@);
    assert(listeners.map_values(|status: ListenerStatus| status.json()) =~= Seq::new(
        listeners.len(),
        |i: int| listeners[i].json(),
    ));
}

/// The status report of a state tells what its counters and its outcomes tell, its own journal, and
/// the readiness of the listeners that it reports.
#[verifier::rlimit(40)]
pub proof fn status_reports_are_those_of_their_state(
    state: WorkspaceServeState,
    report: Seq<char>,
    uptime_secs: u64,
    now_ms: u64,
    admin_auth: Seq<char>,
    listeners: Seq<ListenerStatus>,
    overload_events: Seq<OverloadEventStatus>,
    name: Seq<char>,
    value: Seq<char>,
)
    requires
        state.reports_status(
            report,
            uptime_secs,
            now_ms,
            admin_auth,
            listeners,
            overload_events,
        ),
    ensures
        tells(state.counters_json(uptime_secs), name, value) ==> tells(report, name, value),
        tells(state.outcomes_json(), name, value) ==> tells(report, name, value),
        tells(report, "\",\n  \"admin_auth\": "@, admin_auth),
        exists|journal: Seq<char>|
            #![trigger tells(report, ",\n  \"control_plane_journal\": "@, journal)]
            state.control_plane_journal.status_json_at(now_ms, journal) && tells(
                report,
                ",\n  \"control_plane_journal\": "@,
                journal,
            ),
        exists|readiness: WorkspaceReadinessStatus|
            #![trigger readiness.json()]
            readiness.evaluates(listeners, health_at(state.reload_health)) && tells(
                report,
                ",\n  \"readiness\": "@,
                readiness.json(),
            ),
{
    let (journal, readiness) = choose|journal: Seq<char>, readiness: WorkspaceReadinessStatus|
        {
            &&& #[trigger] state.control_plane_journal.status_json_at(now_ms, journal)
            &&& #[trigger] readiness.evaluates(listeners, health_at(state.reload_health))
            &&& report == state.status_json(
                uptime_secs,
                admin_auth,
                journal,
                readiness,
                listeners,
                overload_events,
            )
        };
    status_reports_tell_everything(
        state,
        uptime_secs,
        admin_auth,
        journal,
        readiness,
        listeners,
        overload_events,
        name,
        value,
    );
    assert(tells(report, ",\n  \"control_plane_journal\": "@, journal));
    assert(tells(report, ",\n  \"readiness\": "@, readiness.json()));
}

} // verus!
