use workspace_serve::admin_audit::DurableSnapshotIdentity;
use workspace_serve::control_plane_journal::JournalInFlightOperation;
use workspace_serve::recovery::{
    ControlPlaneRecoveryInfo, RecoveredListenerStatus, RecoveryReconciliationSummary,
};

#[test]
fn recovered_listener_status_assigns_machine_readable_verdicts() {
    let cases = [
        ("running", "stable", "settled"),
        ("running", "replacement_draining", "replacement_still_draining"),
        ("running", "failed_start_preserved", "replacement_failed_preserved"),
        ("running", "drain_timeout_expired", "replacement_drain_timeout"),
        ("missing", "missing", "missing"),
        ("draining", "stable", "needs_review"),
    ];

    for (listener_state, replacement_state, expected_verdict) in cases {
        let recovered = RecoveredListenerStatus::new(
            String::from("public"),
            String::from(listener_state),
            String::from(replacement_state),
        );
        assert_eq!(recovered.reconciliation_verdict, expected_verdict);
    }
}

#[test]
fn recovery_reconciliation_summary_aggregates_verdicts() {
    let listeners = vec![
        RecoveredListenerStatus::new(
            String::from("a"),
            String::from("running"),
            String::from("stable"),
        ),
        RecoveredListenerStatus::new(
            String::from("b"),
            String::from("running"),
            String::from("replacement_draining"),
        ),
        RecoveredListenerStatus::new(
            String::from("c"),
            String::from("missing"),
            String::from("missing"),
        ),
    ];

    let summary = RecoveryReconciliationSummary::from_reconciled_listeners(&listeners);
    assert_eq!(summary.overall_verdict, "needs_review");
    assert_eq!(summary.recommended_action, "investigate_and_validate_reload");
    assert_eq!(summary.settled_count, 1);
    assert_eq!(summary.draining_count, 1);
    assert_eq!(summary.missing_count, 1);
    assert_eq!(summary.failed_preserved_count, 0);
    assert_eq!(summary.drain_timeout_count, 0);
    assert_eq!(summary.needs_review_count, 0);
}

#[test]
fn recovery_reconciliation_summary_recommends_next_action() {
    let cases = [
        (
            vec![RecoveredListenerStatus::new(
                String::from("a"),
                String::from("running"),
                String::from("stable"),
            )],
            "settled",
            "observe_only",
        ),
        (
            vec![RecoveredListenerStatus::new(
                String::from("a"),
                String::from("running"),
                String::from("replacement_draining"),
            )],
            "replacement_still_draining",
            "wait_for_drain_completion",
        ),
        (
            vec![RecoveredListenerStatus::new(
                String::from("a"),
                String::from("running"),
                String::from("failed_start_preserved"),
            )],
            "replacement_failed_preserved",
            "validate_and_retry_reload",
        ),
        (
            vec![RecoveredListenerStatus::new(
                String::from("a"),
                String::from("running"),
                String::from("drain_timeout_expired"),
            )],
            "replacement_drain_timeout",
            "investigate_drain_timeout",
        ),
    ];

    for (listeners, expected_verdict, expected_action) in cases {
        let summary = RecoveryReconciliationSummary::from_reconciled_listeners(&listeners);
        assert_eq!(summary.overall_verdict, expected_verdict);
        assert_eq!(summary.recommended_action, expected_action);
    }
}

#[test]
fn recovery_operator_guidance_defaults_plain_unfinished_reload_to_retry() {
    let recovery = ControlPlaneRecoveryInfo {
        state: String::from("needs_operator_action"),
        detail: String::from("recovered unfinished reload"),
        last_persisted_at_unix_ms: None,
        restored_reload_health: Some(String::from("healthy")),
        restored_last_reload_outcome_code: Some(String::from("reload_started_in_place")),
        in_flight_operation: Some(JournalInFlightOperation {
            kind: String::from("reload"),
            started_at_unix_ms: 1,
            desired_snapshot: DurableSnapshotIdentity {
                source_label: String::from("test"),
                digest_sha256: String::from("abc123"),
                api_version: String::from("v1alpha1"),
                snapshot_format_version: String::from("1"),
            },
            lifecycle_code: String::from("reload_started_in_place"),
            detail: String::from("reload started"),
            expected_completion_within_ms: None,
            affected_listeners: Vec::new(),
        }),
        reconciled_listeners: Vec::new(),
    };

    let guidance = recovery.operator_guidance_at(101);
    assert_eq!(guidance.recommended_action, "validate_and_retry_reload");
    assert_eq!(guidance.urgency, "action_required");
    assert_eq!(guidance.operation_age_ms, Some(100));
    assert_eq!(guidance.expected_completion_within_ms, None);
    assert!(!guidance.exceeded_expected_completion);
}

#[test]
fn recovery_operator_guidance_escalates_stale_replacement_drain() {
    let recovery = ControlPlaneRecoveryInfo {
        state: String::from("needs_operator_action"),
        detail: String::from("recovered unfinished overlap drain"),
        last_persisted_at_unix_ms: None,
        restored_reload_health: Some(String::from("healthy")),
        restored_last_reload_outcome_code: Some(String::from("reload_started_overlap_drain")),
        in_flight_operation: Some(JournalInFlightOperation {
            kind: String::from("reload_overlap_drain"),
            started_at_unix_ms: 1,
            desired_snapshot: DurableSnapshotIdentity {
                source_label: String::from("test"),
                digest_sha256: String::from("abc123"),
                api_version: String::from("v1alpha1"),
                snapshot_format_version: String::from("1"),
            },
            lifecycle_code: String::from("reload_started_overlap_drain"),
            detail: String::from("reload started"),
            expected_completion_within_ms: Some(50),
            affected_listeners: vec![String::from("public")],
        }),
        reconciled_listeners: vec![RecoveredListenerStatus::new(
            String::from("public"),
            String::from("running"),
            String::from("replacement_draining"),
        )],
    };

    let guidance = recovery.operator_guidance_at(101);
    assert_eq!(guidance.recommended_action, "investigate_stalled_drain");
    assert_eq!(guidance.urgency, "action_required");
    assert_eq!(guidance.operation_age_ms, Some(100));
    assert_eq!(guidance.expected_completion_within_ms, Some(50));
    assert!(guidance.exceeded_expected_completion);
}

#[test]
fn recovery_operator_guidance_allows_fresh_replacement_drain_to_continue() {
    let recovery = ControlPlaneRecoveryInfo {
        state: String::from("needs_operator_action"),
        detail: String::from("recovered unfinished overlap drain"),
        last_persisted_at_unix_ms: None,
        restored_reload_health: Some(String::from("healthy")),
        restored_last_reload_outcome_code: Some(String::from("reload_started_overlap_drain")),
        in_flight_operation: Some(JournalInFlightOperation {
            kind: String::from("reload_overlap_drain"),
            started_at_unix_ms: 75,
            desired_snapshot: DurableSnapshotIdentity {
                source_label: String::from("test"),
                digest_sha256: String::from("abc123"),
                api_version: String::from("v1alpha1"),
                snapshot_format_version: String::from("1"),
            },
            lifecycle_code: String::from("reload_started_overlap_drain"),
            detail: String::from("reload started"),
            expected_completion_within_ms: Some(50),
            affected_listeners: vec![String::from("public")],
        }),
        reconciled_listeners: vec![RecoveredListenerStatus::new(
            String::from("public"),
            String::from("running"),
            String::from("replacement_draining"),
        )],
    };

    let guidance = recovery.operator_guidance_at(101);
    assert_eq!(guidance.recommended_action, "wait_for_drain_completion");
    assert_eq!(guidance.urgency, "watch");
    assert_eq!(guidance.operation_age_ms, Some(26));
    assert_eq!(guidance.expected_completion_within_ms, Some(50));
    assert!(!guidance.exceeded_expected_completion);
}
