use workspace_serve::addr::{IpAddress, SocketAddress};
use workspace_serve::compile_policies::{
    CompiledHandshakeGuardPolicy, CompiledListenerAbuseProtectionPolicy,
    CompiledSourceQuotaPolicy, SourceAggregation,
};
use workspace_serve::config::{ListenerBindMode, ListenerClassConfig, ListenerProtocolConfig};
use workspace_serve::listener_status::{
    push_unique_reason, reload_health_from_index, reload_health_from_name, reload_health_index,
    reload_health_name, AbuseRejectionCodes, FailedListenerStartStatus,
    ListenerAbuseProtectionSnapshot, ListenerAbuseProtectionStatus, ListenerIdentityStatus,
    ListenerReplacementStatus, ListenerStatus, ReloadHealthState,
};
use workspace_serve::overload::OverloadEventStatus;
use workspace_serve::readiness::{evaluate_workspace_readiness, reduce_listener_readiness};

fn bind() -> SocketAddress {
    SocketAddress::new(IpAddress::V4(0x7f00_0001), 8080)
}

fn test_listener_status(
    class: ListenerClassConfig,
    state: &str,
    overload_state: &str,
) -> ListenerStatus {
    let configured_bind = bind();
    ListenerStatus {
        name: String::from("listener-under-test"),
        class,
        protocol: ListenerProtocolConfig::Http1,
        configured_bind,
        local_addr: configured_bind,
        state: String::from(state),
        overload_state: String::from(overload_state),
        accepted_connections: 0,
        active_connections: 0,
        completed_connections: 0,
        shed_connections: 0,
        abuse_protection: ListenerAbuseProtectionStatus {
            state: String::from("disabled"),
            source_quota: None,
            handshake_guard: None,
            source_quota_rejections: 0,
            tracked_source_limit_rejections: 0,
            handshake_guard_rejections: 0,
            tracked_sources: 0,
            active_handshakes: 0,
            reason_codes: Vec::new(),
        },
        brownout_features: Vec::new(),
        recent_overload_events: Vec::new(),
        replacement: ListenerReplacementStatus {
            state: String::from("stable"),
            desired: ListenerIdentityStatus {
                class,
                protocol: ListenerProtocolConfig::Http1,
                configured_bind,
                bind_mode: ListenerBindMode::SingleStack,
            },
            draining: Vec::new(),
            retired_recent: Vec::new(),
            drain_timeout_recent: Vec::new(),
            failed_start: None,
        },
        tls: None,
    }
}

fn codes() -> AbuseRejectionCodes {
    AbuseRejectionCodes {
        source_quota_exceeded: String::from("source_quota_exceeded"),
        tracked_source_limit_reached: String::from("tracked_source_limit_reached"),
        handshake_limit_reached: String::from("handshake_limit_reached"),
    }
}

#[test]
fn workspace_readiness_is_ready_for_running_public_listener() {
    let readiness = evaluate_workspace_readiness(
        &vec![test_listener_status(ListenerClassConfig::Public, "running", "normal")],
        ReloadHealthState::Healthy,
    );

    assert!(readiness.ready);
    assert_eq!(readiness.status, "ready");
    assert_eq!(readiness.reload_status, reload_health_name(ReloadHealthState::Healthy));
    assert!(readiness.reason_codes.is_empty());
}

#[test]
fn workspace_readiness_is_not_ready_for_draining_public_listener() {
    let readiness = evaluate_workspace_readiness(
        &vec![test_listener_status(ListenerClassConfig::Public, "draining", "normal")],
        ReloadHealthState::Healthy,
    );

    assert!(!readiness.ready);
    assert_eq!(readiness.reason_codes, vec![String::from("listener_draining")]);
}

#[test]
fn workspace_readiness_is_not_ready_for_failed_reload_and_shedding_listener() {
    let readiness = evaluate_workspace_readiness(
        &vec![test_listener_status(ListenerClassConfig::Public, "running", "shedding")],
        ReloadHealthState::Failed,
    );

    assert!(!readiness.ready);
    assert_eq!(
        readiness.reason_codes,
        vec![String::from("reload_failed"), String::from("listener_overload_shedding"),]
    );
}

#[test]
fn workspace_readiness_evaluates_public_listeners_only_when_present() {
    let readiness = evaluate_workspace_readiness(
        &vec![
            test_listener_status(ListenerClassConfig::Public, "running", "normal"),
            test_listener_status(ListenerClassConfig::Admin, "draining", "normal"),
        ],
        ReloadHealthState::Healthy,
    );

    assert!(readiness.ready);
    assert_eq!(readiness.evaluated_listener_scope, "public");
    assert_eq!(readiness.listeners.len(), 1);
}

#[test]
fn without_listeners_nothing_serves() {
    let readiness = evaluate_workspace_readiness(&Vec::new(), ReloadHealthState::NotRequested);

    assert!(!readiness.ready);
    assert_eq!(readiness.evaluated_listener_scope, "all");
    assert_eq!(readiness.reason_codes, vec![String::from("no_serving_listeners")]);
    assert_eq!(
        readiness.to_json(),
        "{\"ready\":false,\"status\":\"not_ready\",\"evaluated_listener_scope\":\"all\",\
         \"reload_status\":\"not_requested\",\"reason_codes\":[\"no_serving_listeners\"],\
         \"listeners\":[]}"
    );
}

#[test]
fn every_reason_against_a_listener_is_named_once() {
    let mut listener = test_listener_status(ListenerClassConfig::Public, "stopped", "brownout");
    listener.replacement.failed_start = Some(FailedListenerStartStatus {
        identity: listener.replacement.desired,
        detail: String::from("bind failed"),
    });
    listener.abuse_protection.reason_codes = vec![
        String::from("source_quota_exceeded"),
        String::from("tracked_source_capacity_saturated"),
        String::from("handshake_guard_saturated"),
        String::from("tracked_source_capacity_saturated"),
    ];

    let reduced = reduce_listener_readiness(&listener);

    assert!(!reduced.ready);
    assert_eq!(
        reduced.reason_codes,
        vec![
            "listener_not_running",
            "listener_overload_brownout",
            "listener_replacement_failed",
            "listener_abuse_source_tracking_saturated",
            "listener_abuse_handshake_saturated",
        ]
    );
}

#[test]
fn a_reason_is_added_once() {
    let mut reasons = Vec::new();
    push_unique_reason(&mut reasons, "a");
    push_unique_reason(&mut reasons, "b");
    push_unique_reason(&mut reasons, "a");
    assert_eq!(reasons, vec!["a", "b"]);
}

#[test]
fn reload_health_is_read_back_from_name_and_index() {
    for health in
        [ReloadHealthState::NotRequested, ReloadHealthState::Healthy, ReloadHealthState::Failed]
    {
        assert_eq!(reload_health_from_name(reload_health_name(health)), health);
        assert_eq!(reload_health_from_index(reload_health_index(health)), health);
    }
    assert_eq!(reload_health_from_name("unheard of"), ReloadHealthState::NotRequested);
    assert_eq!(reload_health_from_index(17), ReloadHealthState::NotRequested);
}

#[test]
fn abuse_protection_reports_its_policy_and_its_counts() {
    let policy = Some(CompiledListenerAbuseProtectionPolicy {
        source_quota: Some(CompiledSourceQuotaPolicy {
            aggregation: SourceAggregation::ExactIp,
            max_active_per_source: 1,
            max_tracked_sources: 64,
        }),
        handshake_guard: Some(CompiledHandshakeGuardPolicy { max_inflight: 16, timeout_ms: 5000 }),
    });
    let mut snapshot = ListenerAbuseProtectionSnapshot {
        source_quota_rejections: 1,
        tracked_source_limit_rejections: 0,
        handshake_guard_rejections: 0,
        tracked_sources: 1,
        active_handshakes: 0,
    };

    let status = ListenerAbuseProtectionStatus::from_runtime(&policy, snapshot, &codes());
    assert_eq!(
        status.to_json(),
        "{\"state\":\"enforcing\",\"source_quota\":{\"aggregation\":\"exact_ip\",\
         \"max_active_per_source\":1,\"max_tracked_sources\":64},\"handshake_guard\":\
         {\"max_inflight\":16,\"timeout_ms\":5000},\"source_quota_rejections\":1,\
         \"tracked_source_limit_rejections\":0,\"handshake_guard_rejections\":0,\
         \"tracked_sources\":1,\"active_handshakes\":0,\
         \"reason_codes\":[\"source_quota_exceeded\"]}"
    );

    snapshot.tracked_sources = 64;
    snapshot.active_handshakes = 16;
    let status = ListenerAbuseProtectionStatus::from_runtime(&policy, snapshot, &codes());
    assert_eq!(status.state, "constrained");
    assert_eq!(
        status.reason_codes,
        vec![
            "source_quota_exceeded",
            "tracked_source_capacity_saturated",
            "handshake_guard_saturated"
        ]
    );

    let status = ListenerAbuseProtectionStatus::from_runtime(&None, snapshot, &codes());
    assert_eq!(status.state, "disabled");
    assert!(status.source_quota.is_none());
    assert!(status.handshake_guard.is_none());
}

#[test]
fn a_listener_is_reported_as_one_object() {
    let mut listener = test_listener_status(ListenerClassConfig::Admin, "running", "normal");
    listener.accepted_connections = 7;
    listener.active_connections = 2;
    listener.brownout_features = vec![String::from("search")];
    listener.recent_overload_events = vec![OverloadEventStatus {
        code: String::from("overload.request.shed"),
        scope: String::from("workspace_listener_public"),
        detail: String::from("say \"no\""),
    }];
    listener.tls = Some(String::from("{\"state\":\"ok\"}"));

    assert_eq!(
        listener.to_json(),
        "{\"name\":\"listener-under-test\",\"class\":\"admin\",\"protocol\":\"http1\",\
         \"configured_bind\":\"127.0.0.1:8080\",\"local_addr\":\"127.0.0.1:8080\",\
         \"state\":\"running\",\"overload_state\":\"normal\",\"accepted_connections\":7,\
         \"active_connections\":2,\"shed_connections\":0,\"completed_connections\":0,\
         \"abuse_protection\":{\"state\":\"disabled\",\"source_quota\":null,\
         \"handshake_guard\":null,\"source_quota_rejections\":0,\
         \"tracked_source_limit_rejections\":0,\"handshake_guard_rejections\":0,\
         \"tracked_sources\":0,\"active_handshakes\":0,\"reason_codes\":[]},\
         \"brownout_features\":[\"search\"],\"recent_overload_events\":[{\"code\":\
         \"overload.request.shed\",\"scope\":\"workspace_listener_public\",\
         \"detail\":\"say \\\"no\\\"\"}],\"replacement\":{\"state\":\"stable\",\"desired\":\
         {\"class\":\"admin\",\"protocol\":\"http1\",\"configured_bind\":\"127.0.0.1:8080\",\
         \"bind_mode\":\"single_stack\"},\"draining\":[],\"retired_recent\":[],\
         \"drain_timeout_recent\":[],\"failed_start\":null},\"tls\":{\"state\":\"ok\"}}"
    );
}
