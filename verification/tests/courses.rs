use workspace_serve::addr::{IpAddress, SocketAddress};
use workspace_serve::admin_auth::{AdminReplayState, RequestHead};
use workspace_serve::admin_course::{AdminCourse, AdminEvent, AdminStage, AdminStep, Finding};
use workspace_serve::admin_policy::{
    CompiledAdminAuthPolicy, CompiledAdminPolicy, CompiledAdminRateLimit, PermissionSet,
};
use workspace_serve::apply_run::{start_plan, ApplyRun};
use workspace_serve::compile_runtime::{CompiledServeListener, ListenerService};
use workspace_serve::config::{
    CircuitBreakerPolicyConfig, ListenerBindMode, ListenerClassConfig, ListenerProtocolConfig,
    RetryBudgetPolicyConfig,
};
use workspace_serve::connection_course::{
    advance_connection, ConnectionEvent, ConnectionStage, ConnectionStep, ListenerTerms,
};
use workspace_serve::destination_policies::EngineDefaults;
use workspace_serve::listener_lifecycle::ManagedListenerSlot;
use workspace_serve::listener_runtime::ListenerRuntimeCounters;
use workspace_serve::named_map::NamedMap;
use workspace_serve::overload::ConnectionKind;
use workspace_serve::proxy_protocol::ProxyProtocolModeConfig;
use workspace_serve::reload_plan::{ApplyMode, ReloadApplyOutcome, ReloadAuditPlan};
use workspace_serve::secrets::SecretReadings;
use workspace_serve::state::WorkspaceServeState;

fn loopback(port: u16) -> SocketAddress {
    SocketAddress::new(IpAddress::V4(0x7f00_0001), port)
}

fn policy() -> CompiledAdminPolicy {
    CompiledAdminPolicy {
        auth: CompiledAdminAuthPolicy::Bearer {
            secret_env: String::from("SECRET"),
            permissions: PermissionSet { read: true, audit: true, write: true },
        },
        allowed_source_cidrs: Vec::new(),
        rate_limit: CompiledAdminRateLimit { requests_per_minute: 60, burst: 10 },
        audit_capacity: 16,
    }
}

fn listener(port: u16) -> CompiledServeListener {
    CompiledServeListener {
        class: ListenerClassConfig::Public,
        protocol: ListenerProtocolConfig::Http1,
        proxy_protocol: ProxyProtocolModeConfig::Disabled,
        bind_address: loopback(port),
        bind_mode: ListenerBindMode::SingleStack,
        max_connections: 128,
        drain_timeout_ms: 100,
        overload_policy: None,
        abuse_protection_policy: None,
        service: ListenerService::Admin { policy: policy(), tls: None },
    }
}

fn candidates(entries: &[(&str, u16)]) -> NamedMap<CompiledServeListener> {
    let mut out = NamedMap::new();
    for (name, port) in entries {
        out.insert(String::from(*name), listener(*port));
    }
    out
}

fn terms(kind: ConnectionKind, proxy_protocol: ProxyProtocolModeConfig) -> ListenerTerms {
    ListenerTerms { kind, proxy_protocol, preface_timeout_ms: 250, tells: true, keeps_permit: false }
}

fn follow(
    terms: &ListenerTerms,
    limit: usize,
    counters: &mut ListenerRuntimeCounters,
    events: &[ConnectionEvent],
) -> Vec<ConnectionStep> {
    let mut stage = ConnectionStage::Expected;
    let mut steps = Vec::new();
    for event in events {
        let (next, step) = advance_connection(terms, limit, stage, *event, counters);
        stage = next;
        steps.push(step);
    }
    steps
}

#[test]
fn a_connection_passes_every_gate_before_it_is_served() {
    let mut counters = ListenerRuntimeCounters::new();
    let client = loopback(7);
    let steps = follow(
        &terms(ConnectionKind::Public, ProxyProtocolModeConfig::V1),
        1,
        &mut counters,
        &[
            ConnectionEvent::Reached { peer: loopback(1) },
            ConnectionEvent::PrefaceRead { named: Some(client) },
            ConnectionEvent::Granted,
            ConnectionEvent::Granted,
        ],
    );
    assert_eq!(
        steps,
        vec![
            ConnectionStep::ReadPreface { version: ProxyProtocolModeConfig::V1, timeout_ms: 250 },
            ConnectionStep::AskQuota { address: client },
            ConnectionStep::AskGuard { keep_permit: false },
            ConnectionStep::Serve { address: client },
        ]
    );
    assert_eq!(counters.active_connections, 1);
    assert_eq!(counters.accepted_connections, 1);

    let shed = follow(
        &terms(ConnectionKind::Admin, ProxyProtocolModeConfig::Disabled),
        1,
        &mut counters,
        &[
            ConnectionEvent::Reached { peer: client },
            ConnectionEvent::Granted,
            ConnectionEvent::Granted,
            ConnectionEvent::Ended,
        ],
    );
    assert_eq!(shed[2], ConnectionStep::Shed { leave_guards: true, tell: true });
    assert_eq!(shed[3], ConnectionStep::Ignore);
    assert_eq!(counters.shed_connections, 1);
    assert_eq!(counters.active_connections, 1);
}

#[test]
fn connections_that_are_refused_are_not_counted() {
    let mut counters = ListenerRuntimeCounters::new();
    let terms = terms(ConnectionKind::Public, ProxyProtocolModeConfig::Disabled);
    let reached = ConnectionEvent::Reached { peer: loopback(1) };
    let quota = follow(&terms, 4, &mut counters, &[reached, ConnectionEvent::Refused]);
    assert_eq!(quota[1], ConnectionStep::TurnAway { leave_quota: false, tell: true });
    let guard = follow(
        &terms,
        4,
        &mut counters,
        &[reached, ConnectionEvent::Granted, ConnectionEvent::Refused],
    );
    assert_eq!(guard[2], ConnectionStep::TurnAway { leave_quota: true, tell: true });
    let version = ListenerTerms { proxy_protocol: ProxyProtocolModeConfig::V2, ..terms };
    let silent = follow(&version, 4, &mut counters, &[reached, ConnectionEvent::PrefaceFailed]);
    assert_eq!(silent[1], ConnectionStep::Drop);
    assert_eq!(counters.accepted_connections, 0);
    assert_eq!(counters.active_connections, 0);
}

#[test]
fn http3_connections_take_their_slot_first_and_give_it_back() {
    let mut counters = ListenerRuntimeCounters::new();
    let terms = ListenerTerms {
        tells: false,
        ..terms(ConnectionKind::Http3, ProxyProtocolModeConfig::Disabled)
    };
    let reached = ConnectionEvent::Reached { peer: loopback(1) };
    let connected = ConnectionEvent::Connected { address: loopback(2) };
    for ending in [ConnectionEvent::Refused, ConnectionEvent::Broken] {
        let events = match ending {
            ConnectionEvent::Broken => vec![reached, ending],
            _ => vec![reached, connected, ending],
        };
        let steps = follow(&terms, 1, &mut counters, &events);
        assert_eq!(steps[0], ConnectionStep::Connect);
        assert_eq!(steps.last(), Some(&ConnectionStep::Finish));
        assert_eq!(counters.active_connections, 0);
    }
    let steps = follow(
        &terms,
        1,
        &mut counters,
        &[reached, connected, ConnectionEvent::Granted, ConnectionEvent::Ended],
    );
    assert_eq!(steps[2], ConnectionStep::Serve { address: loopback(2) });
    assert_eq!(counters.completed_connections, 3);
    let shed = follow(&terms, 0, &mut counters, &[reached]);
    assert_eq!(shed[0], ConnectionStep::Shed { leave_guards: false, tell: false });
}

#[test]
fn the_terms_of_a_listener_follow_from_its_service() {
    let defaults = EngineDefaults {
        retry_budget: RetryBudgetPolicyConfig {
            window_ms: 1,
            min_retry_tokens: 1,
            retry_percent: 1,
        },
        circuit_breaker: CircuitBreakerPolicyConfig {
            open_failure_threshold: 1,
            open_duration_ms: 1,
            half_open_success_threshold: 1,
        },
        connect_timeout_ms: 1,
        idle_timeout_ms: 1,
        preface_timeout_ms: 9,
    };
    let encrypted =
        ListenerService::Admin { policy: policy(), tls: Some(String::from("identity")) };
    let terms = ListenerTerms::of(&encrypted, ProxyProtocolModeConfig::V1, &defaults);
    assert_eq!(terms.kind, ConnectionKind::Admin);
    assert_eq!(terms.proxy_protocol, ProxyProtocolModeConfig::Disabled);
    assert!(terms.keeps_permit);
    assert!(!terms.tells);
}

#[test]
fn a_run_takes_effect_once_every_listener_was_started() {
    let mut slots = NamedMap::new();
    let next = candidates(&[("a", 8000), ("b", 8001)]);
    let mut run = ApplyRun::begin(ApplyMode::Reload, &slots, &next).expect("nothing blocked");
    assert_eq!(run.next_start().map(String::as_str), Some("a"));
    assert!(run.note_started(&next, loopback(8000)));
    assert_eq!(run.next_start().map(String::as_str), Some("b"));
    assert!(run.note_started(&next, loopback(8001)));
    assert!(run.next_start().is_none());
    assert!(!run.note_started(&next, loopback(8002)));
    let retired = run.take_effect(&mut slots, &next).expect("complete");
    assert!(retired.is_empty());
    assert_eq!(slots.len(), 2);
    assert_eq!(slots.get("b").expect("slot").active.local_addr, loopback(8001));

    let again = ApplyRun::begin(ApplyMode::Reload, &slots, &next).expect("the same");
    assert!(again.next_start().is_none());
    let early = ApplyRun::begin(ApplyMode::Reload, &slots, &candidates(&[("c", 1)])).expect("new");
    assert!(early.take_effect(&mut slots, &candidates(&[("c", 1)])).is_none());
    assert_eq!(slots.len(), 2);
}

#[test]
fn a_run_that_is_given_up_changes_nothing_that_is_served() {
    let mut slots: NamedMap<ManagedListenerSlot> = NamedMap::new();
    let first = candidates(&[("b", 8001)]);
    let mut run = ApplyRun::begin(ApplyMode::Reload, &slots, &first).expect("new");
    run.note_started(&first, loopback(8001));
    run.take_effect(&mut slots, &first);

    let next = candidates(&[("a", 8000), ("b", 8100)]);
    let mut run = ApplyRun::begin(ApplyMode::Reload, &slots, &next).expect("nothing blocked");
    run.note_started(&next, loopback(8000));
    let stopped = run.give_up(&mut slots, &next, String::from("address in use"));
    assert_eq!(stopped.len(), 1);
    assert_eq!(stopped[0].name, "a");
    assert_eq!(slots.len(), 1);
    let slot = slots.get("b").expect("slot");
    assert_eq!(slot.active.local_addr, loopback(8001));
    assert_eq!(slot.lifecycle.failed_start.as_ref().expect("failure").detail, "address in use");
}

#[test]
fn the_administration_interface_has_nothing_to_probe() {
    let plan = start_plan(&listener(9000));
    assert!(!plan.datagrams);
    assert!(!plan.probes);
}

fn open(
    state: &mut WorkspaceServeState,
    method: &str,
    target: &str,
    token: &str,
) -> (AdminCourse, AdminStep) {
    AdminCourse::open(
        state,
        &RequestHead {
            method: String::from(method),
            target: String::from(target),
            authorization_bearer: Some(String::from(token)),
            headers: Vec::new(),
        },
        b"",
        "admin",
        IpAddress::V4(0x7f00_0001),
        &policy(),
        &mut AdminReplayState::new(),
        "",
        &SecretReadings {
            file_variable: None,
            file_contents: Err(String::new()),
            variable: Some(String::from("secret")),
        },
        0,
        0,
        1,
    )
}

fn new_state() -> WorkspaceServeState {
    WorkspaceServeState::new(String::from("workspace.json"))
}

#[test]
fn a_reload_runs_its_course() {
    let mut state = new_state();
    let (course, step) = open(&mut state, "POST", "/reload", "secret");
    match step {
        AdminStep::TakeToken { key } => assert_eq!(key.actor, "shared-bearer"),
        other => panic!("unexpected step {:?}", other),
    }
    let (course, step) = course.advance(AdminEvent::Token { taken: true }, &mut state, 2);
    assert!(matches!(step, AdminStep::Plan));
    let plan = Some(ReloadAuditPlan::default());
    let (course, step) = course.advance(AdminEvent::Planned(plan), &mut state, 3);
    match step {
        AdminStep::Apply { event } => {
            assert_eq!(event.outcome, "started");
            assert_eq!(event.observed_at_unix_ms, 3);
        }
        other => panic!("unexpected step {:?}", other),
    }
    // The end of a restart says nothing of a reload.
    let wrong = AdminEvent::Restarted(Err(String::from("no")));
    let (course, step) = course.advance(wrong, &mut state, 4);
    assert!(matches!(step, AdminStep::Ignore));
    let ended = AdminEvent::Reloaded(Ok(ReloadApplyOutcome::default()));
    let (course, step) = course.advance(ended, &mut state, 5);
    match step {
        AdminStep::Answer { reply } => assert_eq!(reply.body, "configuration applied\n"),
        other => panic!("unexpected step {:?}", other),
    }
    let code = state.last_reload_outcome_code.clone();
    let (course, step) = course.advance(AdminEvent::Sent, &mut state, 6);
    match step {
        AdminStep::Record { event } => {
            assert_eq!(event.code, code);
            assert_eq!(event.request_id, "admin-0000000000000001");
            assert_eq!(event.actor, "shared-bearer");
        }
        other => panic!("unexpected step {:?}", other),
    }
    let (course, step) = course.advance(AdminEvent::Sent, &mut state, 7);
    assert!(matches!(course.stage, AdminStage::Over));
    assert!(matches!(step, AdminStep::Ignore));
}

#[test]
fn refused_requests_get_no_further() {
    let mut state = new_state();
    let (course, step) = open(&mut state, "POST", "/reload", "guess");
    assert!(matches!(step, AdminStep::Refuse { .. }));
    let (course, step) = course.advance(AdminEvent::Token { taken: true }, &mut state, 2);
    assert!(matches!(course.stage, AdminStage::Over));
    assert!(matches!(step, AdminStep::Ignore));

    let (course, _) = open(&mut state, "GET", "/status", "secret");
    let (course, step) = course.advance(AdminEvent::Token { taken: false }, &mut state, 2);
    match step {
        AdminStep::Refuse { event, reply } => {
            assert_eq!(reply.status, "429 Too Many Requests");
            assert_eq!(event.code, "status_rate_limited");
        }
        other => panic!("unexpected step {:?}", other),
    }
    assert!(matches!(course.stage, AdminStage::Over));
}

#[test]
fn what_was_looked_up_has_to_be_what_was_asked_for() {
    let mut state = new_state();
    let (course, _) = open(&mut state, "GET", "/v1/status", "secret");
    let (course, step) = course.advance(AdminEvent::Token { taken: true }, &mut state, 2);
    assert!(matches!(step, AdminStep::LookUp));
    let wrong = AdminEvent::Found(Finding::Events(String::from("[]")));
    let (course, step) = course.advance(wrong, &mut state, 3);
    assert!(matches!(step, AdminStep::Ignore));
    let broken = AdminEvent::Found(Finding::Status(String::from("{")));
    let (course, step) = course.advance(broken, &mut state, 4);
    assert!(matches!(step, AdminStep::Fail { .. }));
    assert!(matches!(course.stage, AdminStage::Over));

    let (course, _) = open(&mut state, "GET", "/healthz", "secret");
    let (_, step) = course.advance(AdminEvent::Token { taken: true }, &mut state, 2);
    match step {
        AdminStep::Answer { reply } => assert_eq!(reply.body, "ok\n"),
        other => panic!("unexpected step {:?}", other),
    }
}
