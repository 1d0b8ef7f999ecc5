use workspace_serve::active_health::{judge_probe, ProbeResult, ProbeVerdict};
use workspace_serve::admin_policy::{
    CompiledAdminAuthPolicy, CompiledAdminPolicy, CompiledAdminRateLimit, PermissionSet,
};
use workspace_serve::compile_runtime::ListenerService;
use workspace_serve::http3::{
    bridge_http3_request, http3_status_reason, report_http3_request, visible_text, BodyKind,
    Http3RequestEnd, RawHeader,
};
use workspace_serve::listener_lifecycle::ListenerDrainOutcome;
use workspace_serve::listener_runtime::{
    answers_rejections, keeps_handshake_permit, overload_response, reject_hostile_connection,
    try_acquire_listener_slot, Admission, ListenerRuntimeCounters,
};
use workspace_serve::overload::{
    http3_scope, overload_scope, overload_state_from_index, overload_state_index,
    overload_state_name, snapshot_listener_overload, snapshot_listener_overload_status,
    sync_overload_state, ConnectionKind, OverloadEvent, OverloadEventKind, OverloadEventStatus,
    OverloadState,
};

fn admin_service(tls: Option<&str>) -> ListenerService {
    ListenerService::Admin {
        policy: CompiledAdminPolicy {
            auth: CompiledAdminAuthPolicy::Bearer {
                secret_env: String::from("SECRET"),
                permissions: PermissionSet { read: true, audit: true, write: true },
            },
            allowed_source_cidrs: Vec::new(),
            rate_limit: CompiledAdminRateLimit { requests_per_minute: 60, burst: 10 },
            audit_capacity: 16,
        },
        tls: tls.map(String::from),
    }
}

#[test]
fn slots_are_taken_up_to_the_limit_and_given_back() {
    let mut counters = ListenerRuntimeCounters::new();
    assert_eq!(counters.state, "starting");
    counters.start_running();
    assert!(matches!(
        counters.take_connection(ConnectionKind::Public, 1),
        Admission::Admitted
    ));
    match counters.take_connection(ConnectionKind::Http3, 1) {
        Admission::Shed { event_detail } => {
            assert_eq!(event_detail, "listener shed http3 connection at capacity 1");
        }
        Admission::Admitted => panic!("no slot was free"),
    }
    assert_eq!(counters.accepted_connections, 2);
    assert_eq!(counters.shed_connections, 1);
    assert_eq!(counters.active_connections, 1);
    counters.finish_connection();
    assert_eq!(counters.active_connections, 0);
    assert_eq!(counters.completed_connections, 1);
    assert!(try_acquire_listener_slot(&mut counters, 1));
    assert!(!try_acquire_listener_slot(&mut counters, 1));
    assert!(!try_acquire_listener_slot(&mut counters, 0));
}

#[test]
fn draining_ends_in_time_or_not() {
    let mut counters = ListenerRuntimeCounters::new();
    counters.start_draining();
    assert_eq!(counters.state, "draining");
    assert_eq!(counters.finish_draining(true), ListenerDrainOutcome::Completed);
    assert_eq!(counters.state, "stopped");
    assert_eq!(counters.finish_draining(false), ListenerDrainOutcome::TimedOut);
    assert_eq!(counters.state, "drain_timeout_expired");
}

#[test]
fn rejected_connections_are_told_in_plain_http_only() {
    let plain = admin_service(None);
    assert!(answers_rejections(&plain));
    assert!(!keeps_handshake_permit(&plain));
    let rejection = reject_hostile_connection(&plain, "source_quota_exceeded", "too many");
    assert_eq!(
        rejection.event_detail,
        "listener rejected hostile-edge connection: source_quota_exceeded (too many)"
    );
    assert_eq!(
        rejection.reply.expect("reply"),
        "HTTP/1.1 503 Service Unavailable\r\nContent-Type: text/plain; charset=utf-8\r\n\
         Content-Length: 52\r\nConnection: close\r\n\
         X-LB-Abuse-Reason: source_quota_exceeded\r\n\r\n\
         listener rejected connection: source_quota_exceeded\n"
    );
    assert_eq!(
        overload_response(&plain),
        Some(("503 Service Unavailable", "text/plain; charset=utf-8", "listener overloaded\n"))
    );

    let encrypted = admin_service(Some("admin-identity"));
    assert!(keeps_handshake_permit(&encrypted));
    assert!(overload_response(&encrypted).is_none());
    assert!(reject_hostile_connection(&encrypted, "c", "d").reply.is_none());
}

#[test]
fn a_full_listener_sheds() {
    let full = snapshot_listener_overload(None, 4, 7, 4);
    assert_eq!(full.snapshot.state, OverloadState::Shedding);
    assert_eq!(full.snapshot.active_signal_count, 1);
    assert_eq!(full.snapshot.concurrency_limited_count, 4);
    assert_eq!(full.snapshot.shed_request_count, 7);
    let free = snapshot_listener_overload(None, 3, 7, 4);
    assert_eq!(free.snapshot.state, OverloadState::Normal);
    assert_eq!(free.snapshot.active_signal_count, 0);

    let transition = sync_overload_state(0, OverloadState::Shedding);
    assert_eq!(transition.next_state, 2);
    assert_eq!(
        transition.event_detail.as_deref(),
        Some("listener overload state transitioned to Shedding")
    );
    assert!(sync_overload_state(2, OverloadState::Shedding).event_detail.is_none());
}

#[test]
fn overload_states_are_kept_as_numbers() {
    for state in [
        OverloadState::Normal,
        OverloadState::Constrained,
        OverloadState::Shedding,
        OverloadState::Brownout,
    ] {
        assert_eq!(overload_state_from_index(overload_state_index(state)), state);
    }
    assert_eq!(overload_state_from_index(9), OverloadState::Normal);
    assert_eq!(overload_state_name(OverloadState::Brownout), "brownout");
    assert_eq!(snapshot_listener_overload_status(None, 3).state, OverloadState::Brownout);
    assert_eq!(overload_scope("public"), "workspace_listener_public");
    assert_eq!(http3_scope("public"), "workspace_http3_public");
    let event = OverloadEventStatus::from_overload_event(OverloadEvent {
        kind: OverloadEventKind::BrownoutFeaturesChanged,
        scope: String::from("s"),
        detail: String::from("a\tb"),
    });
    assert_eq!(
        event.to_json(),
        "{\"code\":\"overload.brownout.features_changed\",\"scope\":\"s\",\"detail\":\"a\\tb\"}"
    );
}

fn raw(name: &str, value: &[u8]) -> RawHeader {
    RawHeader { name: String::from(name), value: value.to_vec() }
}

#[test]
fn requests_are_bridged_with_one_length() {
    let request = bridge_http3_request(
        String::from("POST"),
        None,
        &vec![
            raw("Content-Length", b"99"),
            raw("X-Name", b"value"),
            raw("x-binary", &[0xff]),
        ],
        12,
    );
    assert_eq!(request.method, "POST");
    assert_eq!(request.target, "/");
    assert_eq!(request.body_kind, BodyKind::ContentLength(12));
    assert!(!request.keep_alive);
    let fields: Vec<(&str, &str)> = request
        .headers
        .iter()
        .map(|header| (header.name.as_str(), header.value.as_str()))
        .collect();
    assert_eq!(fields, vec![("x-name", "value"), ("content-length", "12")]);

    let empty = bridge_http3_request(
        String::from("GET"),
        Some(String::from("/a?b")),
        &vec![raw("content-length", b"0")],
        0,
    );
    assert_eq!(empty.target, "/a?b");
    assert_eq!(empty.body_kind, BodyKind::Empty);
    assert_eq!(empty.headers.len(), 1);

    assert_eq!(visible_text(&b"a\tb ~".to_vec()).as_deref(), Some("a\tb ~"));
    assert!(visible_text(&vec![127]).is_none());
    assert!(visible_text(&vec![10]).is_none());
}

#[test]
fn http3_requests_are_reported_by_their_end() {
    assert_eq!(http3_status_reason(204), "2xx");
    assert_eq!(http3_status_reason(302), "3xx");
    assert_eq!(http3_status_reason(404), "4xx");
    assert_eq!(http3_status_reason(503), "5xx");
    assert_eq!(http3_status_reason(101), "other");
    assert_eq!(report_http3_request(Http3RequestEnd::Served { status: 200 }), ("served", "2xx"));
    assert_eq!(
        report_http3_request(Http3RequestEnd::BridgeFailed),
        ("failed", "bridge_failed")
    );
    assert_eq!(
        report_http3_request(Http3RequestEnd::ResponseBuildFailed).1,
        "response_build_failed"
    );
    assert_eq!(
        report_http3_request(Http3RequestEnd::ResponseHeadWriteFailed).1,
        "response_head_write_failed"
    );
    assert_eq!(
        report_http3_request(Http3RequestEnd::ResponseBodyWriteFailed).1,
        "response_body_write_failed"
    );
    assert_eq!(
        report_http3_request(Http3RequestEnd::ResponseFinishFailed).1,
        "response_finish_failed"
    );
}

#[test]
fn only_a_connection_is_a_successful_probe() {
    assert_eq!(judge_probe(ProbeResult::Connected), ProbeVerdict::Success);
    assert_eq!(judge_probe(ProbeResult::Refused), ProbeVerdict::Failure);
    assert_eq!(judge_probe(ProbeResult::TimedOut), ProbeVerdict::Failure);
}
