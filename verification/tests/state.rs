use workspace_serve::addr::{IpAddress, SocketAddress};
use workspace_serve::admin_audit::{AdminAuditEvent, DurableSnapshotIdentity};
use workspace_serve::config::{ListenerBindMode, ListenerClassConfig, ListenerProtocolConfig};
use workspace_serve::control_plane_journal::{
    control_plane_journal_path, journal_temporary_path, ControlPlaneJournalEnvelope,
    JournalInFlightOperation,
};
use workspace_serve::listener_status::{
    ListenerAbuseProtectionStatus, ListenerIdentityStatus, ListenerReplacementStatus,
    ListenerStatus, ReloadHealthState,
};
use workspace_serve::overload::OverloadEventStatus;
use workspace_serve::reload_plan::{ReloadApplyOutcome, ReloadAuditPlan, WarmRestartApplyOutcome};
use workspace_serve::state::{
    next_admin_sequence_from_events, report_overload_events, TelemetryEvent, WorkspaceServeState,
};

fn identity(digest: &str) -> DurableSnapshotIdentity {
    DurableSnapshotIdentity {
        source_label: String::from("config_path=workspace.json"),
        digest_sha256: String::from(digest),
        api_version: String::from("v1alpha1"),
        snapshot_format_version: String::from("1"),
    }
}

fn event(request_id: &str) -> AdminAuditEvent {
    AdminAuditEvent {
        observed_at_unix_ms: 1,
        request_id: String::from(request_id),
        listener: String::from("admin"),
        actor: String::from("writer"),
        auth_mode: String::from("bearer"),
        action: String::from("status"),
        code: String::from("status_served"),
        source: String::from("127.0.0.1"),
        outcome: String::from("served"),
        detail: String::from("status response generated"),
    }
}

fn state() -> WorkspaceServeState {
    WorkspaceServeState::new(String::from("workspace.json"))
}

fn operation(digest: &str, affected: &[&str]) -> JournalInFlightOperation {
    let mut plan = ReloadAuditPlan::default();
    plan.supported_replacements = affected.iter().map(|name| String::from(*name)).collect();
    plan.expected_completion_within_ms = Some(50);
    JournalInFlightOperation::from_reload_plan_at(identity(digest), &plan, 1_000)
}

fn listener(name: &str, state: &str, replacement: &str) -> ListenerStatus {
    let bind = SocketAddress::new(IpAddress::V4(0x7f00_0001), 8080);
    ListenerStatus {
        name: String::from(name),
        class: ListenerClassConfig::Public,
        protocol: ListenerProtocolConfig::Http1,
        configured_bind: bind,
        local_addr: bind,
        state: String::from(state),
        overload_state: String::from("normal"),
        accepted_connections: 0,
        active_connections: 0,
        completed_connections: 0,
        shed_connections: 0,
        abuse_protection: ListenerAbuseProtectionStatus {
            state: String::from("disabled"),
            source_quota: None,
            handshake_guard: None,
            source_quota_rejections: 0,
            tracked_source_limit_rejections: 0,
            handshake_guard_rejections: 0,
            tracked_sources: 0,
            active_handshakes: 0,
            reason_codes: Vec::new(),
        },
        brownout_features: Vec::new(),
        recent_overload_events: Vec::new(),
        replacement: ListenerReplacementStatus {
            state: String::from(replacement),
            desired: ListenerIdentityStatus {
                class: ListenerClassConfig::Public,
                protocol: ListenerProtocolConfig::Http1,
                configured_bind: bind,
                bind_mode: ListenerBindMode::SingleStack,
            },
            draining: Vec::new(),
            retired_recent: Vec::new(),
            drain_timeout_recent: Vec::new(),
            failed_start: None,
        },
        tls: None,
    }
}

#[test]
fn requests_are_named_in_sequence() {
    let mut state = state();
    assert_eq!(state.next_admin_request_id(), "admin-0000000000000001");
    assert_eq!(state.next_admin_request_id(), "admin-0000000000000002");
    state.admin_audit_sequence = u64::MAX;
    assert_eq!(state.next_admin_request_id(), "admin-ffffffffffffffff");
    assert_eq!(state.next_admin_request_id(), "admin-0000000000000000");
}

#[test]
fn the_next_sequence_follows_the_highest() {
    assert_eq!(next_admin_sequence_from_events(&Vec::new()), 1);
    let events = vec![
        event("admin-000000000000000f"),
        event("recovery-00000000000000ff"),
        event("admin-not hexadecimal"),
        event("admin-0000000000000002"),
    ];
    assert_eq!(next_admin_sequence_from_events(&events), 16);
    assert_eq!(next_admin_sequence_from_events(&vec![event("admin-ffffffffffffffff")]), u64::MAX);
}

#[test]
fn the_oldest_events_give_way() {
    let mut state = state();
    state.set_admin_audit_capacity(2);
    for id in ["a", "b", "c"] {
        state.record_admin_audit(event(id));
    }
    let kept: Vec<&str> =
        state.recent_admin_audit.iter().map(|event| event.request_id.as_str()).collect();
    assert_eq!(kept, vec!["b", "c"]);

    state.set_admin_audit_capacity(0);
    assert_eq!(state.admin_audit_capacity, 1);
    state.record_admin_audit(event("d"));
    assert_eq!(state.recent_admin_audit.len(), 1);
}

#[test]
fn reload_durations_accumulate() {
    let mut state = state();
    state.record_reload_duration(5, false);
    state.record_reload_duration(3, true);
    assert_eq!(state.reload_total_duration_ms, 8);
    assert_eq!(state.reload_max_duration_ms, 5);
    assert_eq!(state.last_reload_duration_ms, 3);
    assert_eq!(state.last_failed_reload_duration_ms, 5);
    assert_eq!(state.last_successful_reload_duration_ms, 3);
}

#[test]
fn a_reload_that_is_applied_moves_the_applied_snapshot() {
    let mut state = state();
    state.begin_reload();
    state.prepare_reload_persistence(operation("d1", &[]));
    assert!(state.control_plane_journal.in_flight_operation.is_some());
    let mut outcome = ReloadApplyOutcome::default();
    outcome.drained_listener_count = 1;
    outcome.drain_timeout_count = 1;
    outcome.drain_timed_out_replacements.push(String::from("public"));

    state.complete_reload(Ok(&outcome), 7, &identity("d1"), true, 2_000);

    assert_eq!(state.reload_requests, 1);
    assert_eq!(state.reload_success_count, 1);
    assert_eq!(state.reload_failure_count, 0);
    assert_eq!(state.reload_drained_listener_count, 1);
    assert_eq!(state.reload_drain_timeout_count, 1);
    assert_eq!(state.reload_health(), ReloadHealthState::Healthy);
    assert_eq!(state.last_reload_outcome_code, "reload_applied_with_drain_timeout");
    assert_eq!(
        state.last_reload_result,
        "configuration applied; drained_listeners=1 completed_drains=0 drain_timeouts=1 \
         (timed out replacements: public)"
    );
    let journal = &state.control_plane_journal;
    assert!(journal.in_flight_operation.is_none());
    assert_eq!(journal.applied_snapshot.as_ref().expect("applied").digest_sha256, "d1");
    assert_eq!(journal.recovery.state, "none");
}

#[test]
fn a_reload_that_fails_keeps_the_applied_snapshot() {
    let mut state = state();
    state.complete_reload(
        Ok(&ReloadApplyOutcome::default()),
        1,
        &identity("d1"),
        true,
        2_000,
    );
    state.complete_reload(Err("no such file"), 4, &identity("d2"), true, 3_000);

    assert_eq!(state.reload_health(), ReloadHealthState::Failed);
    assert_eq!(state.reload_failure_count, 1);
    assert_eq!(state.last_reload_outcome_code, "reload_failed_apply");
    assert_eq!(state.last_reload_result, "no such file");
    assert_eq!(
        state.control_plane_journal.applied_snapshot.as_ref().expect("applied").digest_sha256,
        "d1"
    );
}

#[test]
fn a_restart_is_recorded_with_the_words_of_its_plan() {
    let mut state = state();
    let plan = ReloadAuditPlan::default();
    state.begin_restart();
    state.complete_restart(
        &plan,
        Ok(&WarmRestartApplyOutcome {
            restarted_listener_count: 1,
            completed_drain_count: 1,
            drain_timeout_count: 0,
            drain_timed_out_replacements: Vec::new(),
        }),
        9,
    );
    assert_eq!(state.restart_requests, 1);
    assert_eq!(state.restart_success_count, 1);
    assert_eq!(state.last_restart_outcome_code, "restart_applied_overlap_drain");
    assert_eq!(state.last_successful_restart_duration_ms, 9);
    assert_eq!(state.last_failed_restart_duration_ms, 0);

    state.complete_restart(&plan, Err("busy"), 2);
    assert_eq!(state.restart_failure_count, 1);
    assert_eq!(state.last_restart_outcome_code, "restart_failed_apply");
    assert_eq!(state.last_restart_result, "warm restart failed: busy");
    assert_eq!(state.last_failed_restart_duration_ms, 2);
}

#[test]
fn a_journal_gives_back_what_it_recorded() {
    let mut recorded = state();
    recorded.complete_reload(
        Ok(&ReloadApplyOutcome::default()),
        1,
        &identity("d1"),
        true,
        2_000,
    );
    recorded.record_admin_audit(event("admin-0000000000000041"));
    let payload = recorded.journal_payload(5_000);
    assert_eq!(payload.reload_health, "healthy");

    let mut restored = state();
    let write_again = restored.restore_control_plane_journal(&payload, 6_000, 6_001);

    assert!(!write_again);
    assert_eq!(restored.reload_health(), ReloadHealthState::Healthy);
    assert_eq!(restored.last_reload_outcome_code, recorded.last_reload_outcome_code);
    assert_eq!(restored.last_reload_result, recorded.last_reload_result);
    assert_eq!(restored.recent_admin_audit.len(), 1);
    assert_eq!(restored.next_admin_request_id(), "admin-0000000000000042");
    let journal = &restored.control_plane_journal;
    assert_eq!(journal.applied_snapshot.as_ref().expect("applied").digest_sha256, "d1");
    assert_eq!(journal.recovery.state, "restored");
    assert_eq!(journal.recovery.last_persisted_at_unix_ms, Some(5_000));
}

#[test]
fn an_unfinished_reload_waits_for_an_operator() {
    let mut recorded = state();
    recorded.prepare_reload_persistence(operation("d2", &["public", "gone"]));
    let payload = recorded.journal_payload(5_000);

    let mut restored = state();
    assert!(restored.restore_control_plane_journal(&payload, 6_000, 255));

    assert_eq!(restored.reload_health(), ReloadHealthState::Failed);
    assert_eq!(restored.last_reload_outcome_code, "reload_recovered_unfinished");
    let event = restored.recent_admin_audit.last().expect("event");
    assert_eq!(event.request_id, "recovery-00000000000000ff");
    assert_eq!(event.observed_at_unix_ms, 6_000);
    assert_eq!(event.outcome, "needs_operator_action");
    assert_eq!(restored.control_plane_journal.recovery.state, "needs_operator_action");

    restored.reconcile_control_plane_recovery(&vec![listener(
        "public",
        "running",
        "replacement_draining",
    )]);
    let found = &restored.control_plane_journal.recovery.reconciled_listeners;
    assert_eq!(found[0].reconciliation_verdict, "replacement_still_draining");
    assert_eq!(found[1].reconciliation_verdict, "missing");

    // A reload at startup settles nothing; one that an operator asks for does.
    restored.complete_reload(
        Ok(&ReloadApplyOutcome::default()),
        1,
        &identity("d2"),
        false,
        7_000,
    );
    assert_eq!(restored.control_plane_journal.recovery.state, "needs_operator_action");
    restored.complete_reload(
        Ok(&ReloadApplyOutcome::default()),
        1,
        &identity("d2"),
        true,
        8_000,
    );
    let recovery = &restored.control_plane_journal.recovery;
    assert_eq!(recovery.state, "resolved");
    assert_eq!(recovery.last_persisted_at_unix_ms, Some(8_000));
    assert_eq!(recovery.restored_reload_health.as_deref(), Some("healthy"));
    assert!(recovery.in_flight_operation.is_none());
}

#[test]
fn a_journal_is_accepted_only_intact() {
    let path = control_plane_journal_path("workspace.json");
    assert_eq!(path, "workspace.json.control-plane.json");
    assert_eq!(
        journal_temporary_path(&path, 7, 8, 9),
        "workspace.json.control-plane.json.tmp-7-8-9"
    );

    let mut envelope = ControlPlaneJournalEnvelope::seal(String::from("{}"));
    assert_eq!(
        envelope.payload_sha256,
        "44136fa355b3678a1146ad16f7e8649e94fb4fc21fe77e8310c060f61caaff8a"
    );
    assert!(envelope.check(&path).is_ok());

    envelope.payload_json = String::from("{ }");
    assert_eq!(
        envelope.check(&path),
        Err(String::from(
            "control-plane journal at workspace.json.control-plane.json failed checksum validation"
        ))
    );
    envelope.version = 2;
    assert_eq!(
        envelope.check(&path),
        Err(String::from(
            "control-plane journal at workspace.json.control-plane.json uses unsupported version 2"
        ))
    );
}

#[test]
fn the_status_report_is_one_document() {
    let mut state = state();
    state.record_admin_request();
    state.record_proxied_connection(3);
    let events = report_overload_events(&vec![
        TelemetryEvent {
            about_overload: false,
            code: String::from("other"),
            scope: String::from("s"),
            detail: String::from("d"),
        },
        TelemetryEvent {
            about_overload: true,
            code: String::from("overload.request.shed"),
            scope: String::from("workspace_listener_public"),
            detail: String::from("shed"),
        },
    ]);
    assert_eq!(events.len(), 1);

    let body = state.status_body(
        12,
        1_000,
        "{\"secret_sources\":[]}",
        &vec![listener("public", "running", "stable")],
        &events,
    );

    let parsed: serde_json::Value = serde_json::from_str(&body).expect("a JSON document");
    assert_eq!(parsed["service"], "lb-dataplane");
    assert_eq!(parsed["uptime_secs"], 12);
    assert_eq!(parsed["proxied_connections"], 1);
    assert_eq!(parsed["proxied_requests"], 3);
    assert_eq!(parsed["admin_requests"], 1);
    assert_eq!(parsed["restart_requests"], 0);
    assert_eq!(parsed["last_restart_outcome_code"], "not_requested");
    assert!(parsed.get("last_restart_result").is_none());
    assert_eq!(parsed["reload_health"], "not_requested");
    assert_eq!(parsed["readiness"]["ready"], true);
    assert_eq!(parsed["listeners"][0]["name"], "public");
    assert_eq!(parsed["recent_overload_events"][0]["code"], "overload.request.shed");
    assert_eq!(parsed["control_plane_journal"]["recovery"]["state"], "none");
    assert!(body.contains("\"reload_health\": \"not_requested\",\n"));
    assert!(body.ends_with("\n  ]\n}\n"));

    let none: Vec<OverloadEventStatus> = Vec::new();
    let empty = state.status_body(0, 1_000, "{}", &Vec::new(), &none);
    assert!(empty.contains("\"listeners\": [\n\n  ],\n  \"recent_overload_events\": [\n\n  ]\n"));
}

#[test]
fn reloads_are_counted_once_each_and_the_last_decides_the_health() {
    let mut state = state();
    let outcome = ReloadApplyOutcome::default();
    for (succeeds, duration_ms) in [(true, 4), (false, 9), (false, 2), (true, 3)] {
        state.begin_reload();
        let result = if succeeds { Ok(&outcome) } else { Err("no") };
        state.complete_reload(result, duration_ms, &identity("d"), true, 1);
        let expected =
            if succeeds { ReloadHealthState::Healthy } else { ReloadHealthState::Failed };
        assert_eq!(state.reload_health(), expected);
    }
    assert_eq!(state.reload_requests, 4);
    assert_eq!(state.reload_success_count, 2);
    assert_eq!(state.reload_failure_count, 2);
    assert_eq!(state.reload_max_duration_ms, 9);
    assert_eq!(state.reload_total_duration_ms, 18);
    assert_eq!(state.last_failed_reload_duration_ms, 2);
}
