use workspace_serve::addr::{IpAddress, SocketAddress};
use workspace_serve::admin_policy::{
    CompiledAdminAuthPolicy, CompiledAdminPolicy, CompiledAdminRateLimit, PermissionSet,
};
use workspace_serve::compile_runtime::{CompiledServeListener, ListenerService};
use workspace_serve::config::{ListenerBindMode, ListenerClassConfig, ListenerProtocolConfig};
use workspace_serve::config_preview::{
    build_config_validation_preview, SnapshotDiff, SnapshotResourceChange,
};
use workspace_serve::admin_audit::SnapshotMetadata;
use workspace_serve::listener_lifecycle::{
    CurrentListenerIdentity, ListenerDrainOutcome, ManagedListenerSlot, RetiredListener,
};
use workspace_serve::named_map::NamedMap;
use workspace_serve::proxy_protocol::ProxyProtocolModeConfig;
use workspace_serve::reload_plan::{
    ApplyMode, ReloadApplyOutcome, ReloadAuditPlan, WarmRestartApplyOutcome,
};
use workspace_serve::supervisor::{
    admin_audit_capacity_of, plan_starts, ADMIN_AUDIT_DEFAULT_CAPACITY,
};
use workspace_serve::switch_over::{
    current_identities, plan_updates, record_drain, record_failed_start, record_update, retire_all,
    switch_over, StartedListener,
};

fn loopback(port: u16) -> SocketAddress {
    SocketAddress::new(IpAddress::V4(0x7f00_0001), port)
}

// The service of a listener plays no part in replacing it.
fn listener(class: ListenerClassConfig, port: u16, drain_timeout_ms: u128) -> CompiledServeListener {
    CompiledServeListener {
        class,
        protocol: ListenerProtocolConfig::Http1,
        proxy_protocol: ProxyProtocolModeConfig::Disabled,
        bind_address: loopback(port),
        bind_mode: ListenerBindMode::SingleStack,
        max_connections: 128,
        drain_timeout_ms,
        overload_policy: None,
        abuse_protection_policy: None,
        service: ListenerService::Admin {
            policy: CompiledAdminPolicy {
                auth: CompiledAdminAuthPolicy::Bearer {
                    secret_env: String::from("SECRET"),
                    permissions: PermissionSet { read: true, audit: true, write: true },
                },
                allowed_source_cidrs: Vec::new(),
                rate_limit: CompiledAdminRateLimit { requests_per_minute: 60, burst: 10 },
                audit_capacity: 16,
            },
            tls: None,
        },
    }
}

fn running(class: ListenerClassConfig, configured: u16, local: u16) -> CurrentListenerIdentity {
    CurrentListenerIdentity {
        class,
        protocol: ListenerProtocolConfig::Http1,
        proxy_protocol: ProxyProtocolModeConfig::Disabled,
        configured_bind: loopback(configured),
        bind_mode: ListenerBindMode::SingleStack,
        local_addr: loopback(local),
    }
}

fn slots(entries: &[(&str, CurrentListenerIdentity)]) -> NamedMap<ManagedListenerSlot> {
    let mut out = NamedMap::new();
    for (name, identity) in entries {
        out.insert(String::from(*name), ManagedListenerSlot::new(*identity));
    }
    out
}

fn candidates(
    entries: Vec<(&str, CompiledServeListener)>,
) -> NamedMap<CompiledServeListener> {
    let mut out = NamedMap::new();
    for (name, spec) in entries {
        out.insert(String::from(name), spec);
    }
    out
}

const PUBLIC: ListenerClassConfig = ListenerClassConfig::Public;
const ADMIN: ListenerClassConfig = ListenerClassConfig::Admin;

#[test]
fn a_reload_starts_what_is_new_or_moved() {
    let current = slots(&[
        ("admin", running(ADMIN, 9000, 9000)),
        ("gone", running(PUBLIC, 8002, 8002)),
        ("moved", running(PUBLIC, 8000, 8000)),
        ("same", running(PUBLIC, 8001, 8001)),
    ]);
    let next = candidates(vec![
        ("admin", listener(ADMIN, 9000, 100)),
        ("moved", listener(PUBLIC, 8100, 250)),
        ("new", listener(PUBLIC, 8200, 900)),
        ("same", listener(PUBLIC, 8001, 100)),
    ]);
    let identities = current_identities(&current);

    let starts = plan_starts(ApplyMode::Reload, &identities, &next).expect("nothing blocked");
    assert_eq!(starts, vec!["moved", "new"]);
    assert_eq!(plan_updates(ApplyMode::Reload, &current, &next), vec!["admin", "same"]);

    let plan = ReloadAuditPlan::from_candidate(&identities, &next);
    assert_eq!(plan.supported_replacements, vec!["moved"]);
    assert!(plan.blocked_replacements.is_empty());
    assert_eq!(plan.expected_completion_within_ms, Some(250));
    assert_eq!(plan.start_code(), "reload_started_overlap_drain");
}

#[test]
fn a_socket_that_cannot_be_opened_beside_the_running_one_blocks_the_reload() {
    let current = slots(&[("public", running(PUBLIC, 8000, 8000))]);
    let mut moved = listener(PUBLIC, 8000, 100);
    moved.protocol = ListenerProtocolConfig::Http2;
    let next = candidates(vec![("public", moved)]);
    let identities = current_identities(&current);

    let error = plan_starts(ApplyMode::Reload, &identities, &next).expect_err("blocked");
    assert_eq!(
        error.message,
        "reload would require retiring active listener public on 127.0.0.1:8000 before \
         replacement can start; zero-downtime replacement is not available for this change"
    );
    let plan = ReloadAuditPlan::from_candidate(&identities, &next);
    assert_eq!(plan.blocked_replacements, vec!["public"]);
    assert_eq!(plan.failure_code(), "reload_failed_blocked_change");
    assert_eq!(
        plan.failure_detail("no"),
        "reload failed: no; candidate still required disruptive retirement for: public"
    );
}

#[test]
fn a_warm_restart_replaces_public_listeners_that_did_not_change() {
    // Bound to any free port, a listener can be opened beside itself.
    let current = slots(&[
        ("admin", running(ADMIN, 9000, 9000)),
        ("public", running(PUBLIC, 0, 40123)),
    ]);
    let next = candidates(vec![
        ("admin", listener(ADMIN, 9000, 100)),
        ("public", listener(PUBLIC, 0, 100)),
    ]);
    let identities = current_identities(&current);

    let starts = plan_starts(ApplyMode::WarmRestart, &identities, &next).expect("staged");
    assert_eq!(starts, vec!["public"]);
    assert!(plan_starts(ApplyMode::Reload, &identities, &next).expect("same").is_empty());
    assert_eq!(plan_updates(ApplyMode::WarmRestart, &current, &next), vec!["admin"]);
    let plan = ReloadAuditPlan::from_restart_candidate(&identities, &next);
    assert_eq!(plan.supported_replacements, vec!["public"]);
    assert_eq!(plan.restart_start_code(), "restart_started_overlap_drain");
}

#[test]
fn a_warm_restart_is_refused_on_a_fixed_port() {
    let current = slots(&[("public", running(PUBLIC, 8000, 8000))]);
    let next = candidates(vec![("public", listener(PUBLIC, 8000, 100))]);
    let identities = current_identities(&current);

    let error = plan_starts(ApplyMode::WarmRestart, &identities, &next).expect_err("blocked");
    assert_eq!(
        error.message,
        "warm restart cannot stage replacement for listener public on 127.0.0.1:8000"
    );
    let plan = ReloadAuditPlan::from_restart_candidate(&identities, &next);
    assert_eq!(plan.blocked_replacements, vec!["public"]);
    assert_eq!(plan.restart_failure_code(), "restart_failed_blocked");
}

#[test]
fn after_a_switch_the_candidates_are_served_and_the_rest_drains() {
    let mut current = slots(&[
        ("gone", running(PUBLIC, 8002, 8002)),
        ("moved", running(PUBLIC, 8000, 8000)),
        ("same", running(PUBLIC, 8001, 8001)),
    ]);
    let next = candidates(vec![
        ("moved", listener(PUBLIC, 8100, 250)),
        ("new", listener(PUBLIC, 8200, 900)),
        ("same", listener(PUBLIC, 8001, 100)),
    ]);
    let started = vec![
        StartedListener {
            name: String::from("moved"),
            identity: running(PUBLIC, 8100, 8100),
        },
        StartedListener { name: String::from("new"), identity: running(PUBLIC, 8200, 8200) },
    ];

    let retired = switch_over(ApplyMode::Reload, &mut current, &next, &started);

    assert_eq!(current.len(), 3);
    assert!(current.get("gone").is_none());
    for (name, port) in [("moved", 8100), ("new", 8200), ("same", 8001)] {
        let slot = current.get(name).expect("slot");
        assert_eq!(slot.active.configured_bind, loopback(port));
    }
    assert_eq!(retired.len(), 2);
    assert!(retired[0].slot_name.is_none());
    assert_eq!(retired[0].identity.configured_bind, loopback(8002));
    assert_eq!(retired[1].slot_name.as_deref(), Some("moved"));
    assert_eq!(retired[1].identity.configured_bind, loopback(8000));
    assert_eq!(current.get("moved").expect("slot").lifecycle.draining_identities.len(), 1);

    let mut outcome = ReloadApplyOutcome::default();
    record_drain(&mut outcome, &mut current, &retired[0], ListenerDrainOutcome::Completed);
    record_drain(&mut outcome, &mut current, &retired[1], ListenerDrainOutcome::TimedOut);
    assert_eq!(outcome.drained_listener_count, 2);
    assert_eq!(outcome.completed_drain_count, 1);
    assert_eq!(outcome.drain_timeout_count, 1);
    assert_eq!(outcome.drain_timed_out_replacements, vec!["moved"]);
    let moved = &current.get("moved").expect("slot").lifecycle;
    assert!(moved.draining_identities.is_empty());
    assert_eq!(moved.retired_identities.len(), 1);
    assert_eq!(moved.drain_timed_out_identities.len(), 1);
    assert_eq!(outcome.generic_success_code(), "reload_applied_with_drain_timeout");
    let restart = WarmRestartApplyOutcome::from_reload(outcome);
    assert_eq!(restart.restarted_listener_count, 2);
    assert!(restart.timed_out_during_drain());
}

#[test]
fn a_name_that_times_out_twice_is_named_once() {
    let mut none: NamedMap<ManagedListenerSlot> = NamedMap::new();
    let mut outcome = ReloadApplyOutcome::default();
    let retired = RetiredListener {
        slot_name: Some(String::from("public")),
        identity: running(PUBLIC, 8000, 8000).listener_identity(),
    };
    record_drain(&mut outcome, &mut none, &retired, ListenerDrainOutcome::TimedOut);
    record_drain(&mut outcome, &mut none, &retired, ListenerDrainOutcome::TimedOut);
    assert_eq!(outcome.drain_timeout_count, 2);
    assert_eq!(outcome.drain_timed_out_replacements, vec!["public"]);
}

#[test]
fn a_failed_start_keeps_what_is_served() {
    let mut current = slots(&[("public", running(PUBLIC, 8000, 8000))]);
    let spec = listener(PUBLIC, 8100, 100);

    record_failed_start(
        &mut current,
        &String::from("public"),
        &spec,
        String::from("address in use"),
    );

    let slot = current.get("public").expect("slot");
    assert_eq!(slot.active, running(PUBLIC, 8000, 8000));
    let failed = slot.lifecycle.failed_start.as_ref().expect("failure");
    assert_eq!(failed.detail, "address in use");
    assert_eq!(failed.identity.configured_bind, loopback(8100));

    record_update(&mut current, &String::from("public"), &listener(PUBLIC, 8000, 100));
    assert!(current.get("public").expect("slot").lifecycle.failed_start.is_none());
    record_failed_start(&mut current, &String::from("other"), &spec, String::from("ignored"));
    assert_eq!(current.len(), 1);
}

#[test]
fn stopping_retires_every_listener() {
    let mut current =
        slots(&[("b", running(PUBLIC, 8001, 8001)), ("a", running(PUBLIC, 8000, 8000))]);
    let retired = retire_all(&mut current);
    assert_eq!(current.len(), 0);
    let binds: Vec<SocketAddress> =
        retired.iter().map(|one| one.identity.configured_bind).collect();
    assert_eq!(binds, vec![loopback(8000), loopback(8001)]);
}

#[test]
fn sockets_in_different_zones_are_different() {
    let linked = |flow: u32, scope: u32| SocketAddress::V6 { ip: 1, port: 8000, flow, scope };
    let mut active = running(PUBLIC, 8000, 8000);
    active.configured_bind = linked(0, 1);
    active.local_addr = linked(0, 1);
    let mut wanted = listener(PUBLIC, 8000, 100);
    wanted.bind_address = linked(0, 1);
    assert!(active.matches_spec(&wanted));
    assert!(!active.can_stage_replacement(&wanted));
    for bind in [linked(0, 2), linked(5, 1), linked(0, 0)] {
        wanted.bind_address = bind;
        assert!(active.needs_replacement(&wanted));
        assert!(active.can_stage_replacement(&wanted));
    }
}

#[test]
fn the_largest_capacity_for_events_wins() {
    let mut second = listener(ADMIN, 9001, 100);
    if let ListenerService::Admin { policy, .. } = &mut second.service {
        policy.audit_capacity = 128;
    }
    let next = candidates(vec![("a", listener(ADMIN, 9000, 100)), ("b", second)]);
    assert_eq!(admin_audit_capacity_of(&next), 128);
    let none = candidates(Vec::new());
    assert_eq!(admin_audit_capacity_of(&none), ADMIN_AUDIT_DEFAULT_CAPACITY);
}

fn metadata(digest: &str) -> SnapshotMetadata {
    SnapshotMetadata {
        digest_sha256: String::from(digest),
        api_version: Some(String::from("v1alpha1")),
        format_version: String::from("1"),
    }
}

fn change(name: &str, kind: &str) -> SnapshotResourceChange {
    SnapshotResourceChange { name: String::from(name), kind: String::from(kind) }
}

#[test]
fn a_preview_names_changes_and_replacements() {
    let current = current_identities(&slots(&[("public", running(PUBLIC, 8000, 8000))]));
    let next = candidates(vec![("public", listener(PUBLIC, 8100, 100))]);
    let diff = Some(SnapshotDiff {
        listener_changes: vec![change("public", "Modified"), change("other", "Added")],
        route_changes: Vec::new(),
        upstream_cluster_changes: vec![change("frontend", "Modified")],
        security_changed: true,
    });

    let preview = build_config_validation_preview(
        "workspace.json",
        &diff,
        &Some(metadata("a")),
        &metadata("b"),
        &current,
        &next,
    );

    let codes: Vec<&str> = preview.warnings.iter().map(|warning| warning.code.as_str()).collect();
    assert_eq!(
        codes,
        vec![
            "listener_topology_changed",
            "upstream_clusters_changed",
            "security_posture_changed",
            "listener_replacement_planned",
        ]
    );
    assert_eq!(
        preview.warnings[0].message,
        "listener changes detected: public:Modified, other:Added"
    );
    assert_eq!(preview.apply_preview.strategy, "overlap_and_drain_replacement");
    assert!(preview.apply_preview.rollback_safe);
    assert_eq!(preview.compatibility.active_api_version.as_deref(), Some("v1alpha1"));
}

#[test]
fn a_preview_foretells_a_refused_reload() {
    let current = current_identities(&slots(&[("public", running(PUBLIC, 8000, 8000))]));
    let mut blocked = listener(PUBLIC, 8000, 100);
    blocked.proxy_protocol = ProxyProtocolModeConfig::V1;
    let next = candidates(vec![("public", blocked)]);

    let preview = build_config_validation_preview(
        "workspace.json",
        &None,
        &None,
        &metadata("b"),
        &current,
        &next,
    );

    assert_eq!(preview.apply_preview.strategy, "blocked_requires_rebind");
    assert_eq!(preview.warnings[0].code, "bootstrap_apply");
    assert_eq!(preview.warnings[1].code, "listener_rebind_required");
    assert!(plan_starts(ApplyMode::Reload, &current, &next).is_err());
}
