use workspace_serve::addr::IpAddress;
use workspace_serve::addr_parse::parse_address;
use workspace_serve::admin_api::{
    negotiate_admin_api_request, normalize_admin_api_version, versioned_admin_target_parts,
    AdminApiRequestMode, AdminRequestAction,
};
use workspace_serve::admin_auth::{
    find_secret_env, sign_admin_request, AdminReplayState, AdminRequestContext, HeaderField, RequestHead,
};
use workspace_serve::admin_policy::{
    CompiledAdminAuthPolicy, CompiledAdminOperator, CompiledAdminPolicy, CompiledAdminRateLimit,
    PermissionSet,
};
use workspace_serve::admin_rate_limit::{AdminRateLimitKey, AdminRateLimitState};
use workspace_serve::admin_session::{
    answer_audit, answer_cache_invalidate, answer_cache_purge, answer_directly, answer_readyz,
    answer_reload, answer_restart, answer_status, answer_validate, closing_event, pass_gate,
    refuse_rate_limited, reload_started_event, restart_started_event, AdminSession,
    CacheInvalidationReport, CachePurgeReport, RenderedDocument,
};
use workspace_serve::cidr::parse_cidr;
use workspace_serve::listener_status::ReloadHealthState;
use workspace_serve::named_map::NamedMap;
use workspace_serve::readiness::evaluate_workspace_readiness;
use workspace_serve::reload_plan::{ReloadApplyOutcome, ReloadAuditPlan, WarmRestartApplyOutcome};
use workspace_serve::secrets::{
    report_secret, secret_owners, AdminAuthStatus, SecretReadings,
};
use workspace_serve::state::WorkspaceServeState;

const LOOPBACK: IpAddress = IpAddress::V4(0x7f00_0001);

fn head(method: &str, target: &str) -> RequestHead {
    RequestHead {
        method: String::from(method),
        target: String::from(target),
        authorization_bearer: None,
        headers: Vec::new(),
    }
}

fn field(name: &str, value: &str) -> HeaderField {
    HeaderField { name: String::from(name), value: String::from(value) }
}

fn readings(secret: &str) -> SecretReadings {
    SecretReadings {
        file_variable: None,
        file_contents: Err(String::from("not read")),
        variable: Some(String::from(secret)),
    }
}

fn bearer_policy(cidrs: &[&str]) -> CompiledAdminPolicy {
    CompiledAdminPolicy {
        auth: CompiledAdminAuthPolicy::Bearer {
            secret_env: String::from("LB_CTL_ADMIN_SECRET"),
            permissions: PermissionSet { read: true, audit: true, write: false },
        },
        allowed_source_cidrs: cidrs.iter().map(|text| parse_cidr(text).expect("block")).collect(),
        rate_limit: CompiledAdminRateLimit { requests_per_minute: 60, burst: 1 },
        audit_capacity: 64,
    }
}

fn signed_policy() -> CompiledAdminPolicy {
    let mut operators = NamedMap::new();
    operators.insert(
        String::from("writer"),
        CompiledAdminOperator {
            secret_env: String::from("WRITER_SECRET"),
            permissions: PermissionSet { read: true, audit: false, write: true },
        },
    );
    operators.insert(
        String::from("reader"),
        CompiledAdminOperator {
            secret_env: String::from("READER_SECRET"),
            permissions: PermissionSet { read: true, audit: false, write: false },
        },
    );
    CompiledAdminPolicy {
        auth: CompiledAdminAuthPolicy::SignedHeaders {
            operators,
            max_clock_skew_secs: 30,
            nonce_ttl_secs: 300,
        },
        allowed_source_cidrs: Vec::new(),
        rate_limit: CompiledAdminRateLimit { requests_per_minute: 60, burst: 1 },
        audit_capacity: 64,
    }
}

fn signed_head(actor: &str, secret: &str, method: &str, target: &str, nonce: &str) -> RequestHead {
    let mut request = head(method, target);
    let signature = sign_admin_request(secret, actor, method, target, 1_700_000_000, nonce, b"");
    request.headers = vec![
        field("X-LB-Admin-Actor", actor),
        field("X-LB-Admin-Timestamp", "1700000000"),
        field("X-LB-Admin-Nonce", nonce),
        field("X-LB-Admin-Signature", &signature),
    ];
    request
}

fn new_state() -> WorkspaceServeState {
    WorkspaceServeState::new(String::from("workspace.json"))
}

fn session(request: &RequestHead) -> AdminSession {
    AdminSession::begin(&mut new_state(), request, "admin", LOOPBACK)
}

fn context() -> AdminRequestContext {
    AdminRequestContext {
        request_id: String::from("admin-0000000000000001"),
        actor: String::from("writer"),
        auth_mode: String::from("signed_headers"),
        source: LOOPBACK,
    }
}

fn gate(
    request: &RequestHead,
    policy: &CompiledAdminPolicy,
    replay: &mut AdminReplayState,
    secret: &str,
    now_secs: u64,
) -> Result<String, (String, String, String)> {
    let session = session(request);
    match pass_gate(
        &session,
        request,
        b"",
        policy,
        replay,
        "legacy",
        &readings(secret),
        now_secs,
        1_000,
        77,
    ) {
        Ok(context) => Ok(context.actor),
        Err(refusal) => Err((
            String::from(refusal.reply.status),
            refusal.event.outcome,
            refusal.event.detail,
        )),
    }
}

#[test]
fn versions_are_negotiated_by_path_and_header() {
    assert!(versioned_admin_target_parts("/status").is_none());
    assert!(versioned_admin_target_parts("/vx/status").is_none());
    assert_eq!(
        versioned_admin_target_parts("/v1/status"),
        Some((String::from("v1"), String::from("/status")))
    );
    assert_eq!(
        versioned_admin_target_parts("/v22"),
        Some((String::from("v22"), String::from("/")))
    );
    assert_eq!(normalize_admin_api_version(" V1 "), Some(String::from("v1")));
    assert_eq!(normalize_admin_api_version("2"), Some(String::from("v2")));
    assert_eq!(normalize_admin_api_version("  "), None);

    let legacy = negotiate_admin_api_request(&head("GET", "/status"));
    assert!(matches!(legacy, AdminApiRequestMode::Legacy { .. }));
    let mut conflicting = head("GET", "/v1/status");
    conflicting.headers.push(field("X-LB-Admin-Api-Version", "2"));
    match negotiate_admin_api_request(&conflicting) {
        AdminApiRequestMode::UnsupportedVersion { canonical_target, detail, .. } => {
            assert_eq!(canonical_target, "/status");
            assert_eq!(
                detail,
                "conflicting admin api versions requested in path (v1) and header (v2)"
            );
        }
        other => panic!("unexpected mode {:?}", other),
    }
}

#[test]
fn signatures_are_keyed_digests() {
    assert_eq!(
        sign_admin_request(
            "writer-secret",
            "writer",
            "POST",
            "/reload",
            1_700_000_000,
            "nonce-1",
            b""
        ),
        "51f4d14fd8aaa728e1722c22c11e899874f5199a49dcc7789f3bdbb9a891e90a"
    );
    let long_secret = "k".repeat(80);
    assert_eq!(
        sign_admin_request(
            &long_secret,
            "writer",
            "POST",
            "/reload",
            1_700_000_000,
            "nonce-1",
            b"{}"
        ),
        "938dd7ec312f44fbb26e3dc6487d17b6a9ed6c41faa47418f489d7c33ab166f5"
    );
}

#[test]
fn sources_outside_the_allow_list_are_refused_first() {
    let mut replay = AdminReplayState::new();
    let request = head("GET", "/status");
    assert_eq!(
        gate(&request, &bearer_policy(&["10.0.0.0/8"]), &mut replay, "secret", 0),
        Err((
            String::from("403 Forbidden"),
            String::from("denied"),
            String::from("source address is outside the admin allow-list")
        ))
    );
    let mut allowed = head("GET", "/status");
    allowed.authorization_bearer = Some(String::from("secret"));
    assert_eq!(
        gate(
            &allowed,
            &bearer_policy(&["10.0.0.0/8", "127.0.0.0/8"]),
            &mut replay,
            "secret",
            0
        ),
        Ok(String::from("shared-bearer"))
    );
}

#[test]
fn bearer_requests_need_the_secret_and_the_permission() {
    let mut replay = AdminReplayState::new();
    let policy = bearer_policy(&[]);
    let missing = gate(&head("GET", "/status"), &policy, &mut replay, "secret", 0);
    assert_eq!(missing.expect_err("refused").0, "401 Unauthorized");

    let mut wrong = head("GET", "/status");
    wrong.authorization_bearer = Some(String::from("guess"));
    let refused = gate(&wrong, &policy, &mut replay, "secret", 0).expect_err("refused");
    assert_eq!(refused.2, "bearer token mismatch");

    let mut write = head("POST", "/reload");
    write.authorization_bearer = Some(String::from("secret"));
    let refused = gate(&write, &policy, &mut replay, "secret", 0).expect_err("refused");
    assert_eq!(refused.0, "403 Forbidden");
    assert_eq!(refused.1, "forbidden");

    let mut unset = head("GET", "/status");
    unset.authorization_bearer = Some(String::from(""));
    let refused = gate(&unset, &policy, &mut replay, "", 0).expect_err("refused");
    assert_eq!(refused.0, "503 Service Unavailable");
    assert_eq!(refused.1, "misconfigured");
}

#[test]
fn signed_requests_are_admitted_once() {
    let mut replay = AdminReplayState::new();
    let policy = signed_policy();
    let request = signed_head("writer", "writer-secret", "POST", "/reload", "nonce-1");
    assert_eq!(
        gate(&request, &policy, &mut replay, "writer-secret", 1_700_000_010),
        Ok(String::from("writer"))
    );
    let replayed =
        gate(&request, &policy, &mut replay, "writer-secret", 1_700_000_011).expect_err("replay");
    assert_eq!(replayed.0, "409 Conflict");
    assert_eq!(replayed.1, "replay_rejected");

    let stale = signed_head("writer", "writer-secret", "POST", "/reload", "nonce-2");
    let refused =
        gate(&stale, &policy, &mut replay, "writer-secret", 1_700_000_031).expect_err("stale");
    assert_eq!(refused.0, "401 Unauthorized");

    let mut tampered = signed_head("writer", "writer-secret", "POST", "/reload", "nonce-3");
    tampered.target = String::from("/restart");
    assert!(gate(&tampered, &policy, &mut replay, "writer-secret", 1_700_000_000).is_err());

    let reader = signed_head("reader", "reader-secret", "POST", "/reload", "nonce-4");
    let refused =
        gate(&reader, &policy, &mut replay, "reader-secret", 1_700_000_000).expect_err("forbidden");
    assert_eq!(refused.0, "403 Forbidden");

    let stranger = signed_head("stranger", "secret", "GET", "/status", "nonce-5");
    assert!(gate(&stranger, &policy, &mut replay, "secret", 1_700_000_000).is_err());

    let other = signed_head("writer", "writer-secret", "POST", "/reload", "nonce-6");
    assert!(gate(&other, &policy, &mut replay, "writer-secret", 1_700_000_012).is_ok());
    let replayed =
        gate(&request, &policy, &mut replay, "writer-secret", 1_700_000_013).expect_err("replay");
    assert_eq!(replayed.1, "replay_rejected");
}

#[test]
fn refusals_are_wrapped_for_the_versioned_interface() {
    let request = head("GET", "/v1/status");
    let session = session(&request);
    let refusal = pass_gate(
        &session,
        &request,
        b"",
        &bearer_policy(&[]),
        &mut AdminReplayState::new(),
        "legacy",
        &readings("secret"),
        0,
        0,
        99,
    )
    .expect_err("refused");
    assert_eq!(
        refusal.reply.headers,
        vec!["X-LB-Admin-Api-Version: v1", "WWW-Authenticate: Bearer"]
    );
    let body: serde_json::Value = serde_json::from_str(&refusal.reply.body).expect("JSON");
    assert_eq!(body["api_version"], "v1");
    assert_eq!(body["status"], "error");
    assert_eq!(body["request_id"], "admin-0000000000000001");
    assert_eq!(body["error"]["code"], "unauthorized");
    assert_eq!(body["error"]["retryable"], false);
    assert_eq!(refusal.event.observed_at_unix_ms, 99);
    assert_eq!(refusal.event.source, "127.0.0.1");
    assert_eq!(refusal.event.action, "status");

    let limited = refuse_rate_limited(&session, &context(), 5);
    assert_eq!(limited.reply.status, "429 Too Many Requests");
    assert_eq!(limited.event.code, "status_rate_limited");
    let body: serde_json::Value = serde_json::from_str(&limited.reply.body).expect("JSON");
    assert_eq!(body["error"]["code"], "rate_limited");
    assert_eq!(body["error"]["retryable"], true);
}

#[test]
fn some_requests_need_nothing_to_be_looked_up() {
    let healthz = answer_directly(&session(&head("GET", "/healthz"))).expect("direct");
    assert_eq!(healthz.reply.status, "200 OK");
    assert_eq!(healthz.reply.body, "ok\n");
    assert!(healthz.reply.headers.is_empty());

    let versioned = answer_directly(&session(&head("GET", "/v1/healthz"))).expect("direct");
    assert_eq!(
        versioned.reply.body,
        "{\"api_version\":\"v1\",\"request_id\":\"admin-0000000000000001\",\"status\":\"ok\",\
         \"data\":{\"live\":true,\"status\":\"ok\"}}"
    );

    let unknown = answer_directly(&session(&head("GET", "/nowhere"))).expect("direct");
    assert_eq!(unknown.reply.status, "404 Not Found");
    assert_eq!(unknown.outcome, "not_found");

    let unsupported = answer_directly(&session(&head("POST", "/v9/reload"))).expect("direct");
    assert_eq!(unsupported.reply.status, "406 Not Acceptable");
    let body: serde_json::Value = serde_json::from_str(&unsupported.reply.body).expect("JSON");
    assert_eq!(body["error"]["code"], "unsupported_api_version");
    assert_eq!(body["error"]["message"], "unsupported admin api version v9");

    assert!(answer_directly(&session(&head("GET", "/status"))).is_none());
}

#[test]
fn documents_are_answered_in_their_compact_form() {
    let document = String::from("{\n  \"b\": 1,\n  \"a\": [true, null]\n}\n");
    let legacy = answer_status(&session(&head("GET", "/status")), document.clone()).expect("body");
    assert_eq!(legacy.reply.body, document);
    assert_eq!(legacy.reply.content_type, "application/json");

    let versioned =
        answer_status(&session(&head("GET", "/v1/status")), document.clone()).expect("body");
    assert!(versioned.reply.body.ends_with("\"data\":{\"a\":[true,null],\"b\":1}}"));
    assert_eq!(versioned.detail, "status response generated");

    let audit = answer_audit(&session(&head("GET", "/v1/audit")), String::from("[ ]"))
        .expect("body");
    assert!(audit.reply.body.ends_with("\"data\":[]}"));
    let broken = answer_audit(&session(&head("GET", "/v1/audit")), String::from("["));
    assert!(broken.expect_err("no JSON").message.contains("EOF"));
}

#[test]
fn readiness_decides_the_status() {
    let unready = evaluate_workspace_readiness(&Vec::new(), ReloadHealthState::Failed);
    let answer =
        answer_readyz(&session(&head("GET", "/readyz")), &unready).expect("answer");
    assert_eq!(answer.reply.status, "503 Service Unavailable");
    assert_eq!(answer.outcome, "degraded");
    assert_eq!(
        answer.detail,
        "readiness check completed: not ready (reload_failed, no_serving_listeners)"
    );
    let versioned =
        answer_readyz(&session(&head("GET", "/v1/readyz")), &unready).expect("answer");
    let body: serde_json::Value = serde_json::from_str(&versioned.reply.body).expect("JSON");
    assert_eq!(body["data"]["ready"], false);
}

fn rendered() -> RenderedDocument {
    RenderedDocument { compact: String::from("{\"a\":1}"), pretty: String::from("{\n \"a\": 1\n}") }
}

#[test]
fn validation_and_cache_requests_are_answered() {
    let plain = session(&head("GET", "/validate"));
    let preview = answer_validate(&plain, Ok(rendered()));
    assert_eq!(preview.reply.body, "{\n \"a\": 1\n}");
    let failed = answer_validate(&plain, Err(String::from("no such file")));
    assert_eq!(failed.reply.status, "400 Bad Request");
    assert_eq!(failed.reply.body, "validation preview failed: no such file\n");

    let purge = answer_cache_purge(
        &session(&head("POST", "/v1/cache/purge")),
        Ok(CachePurgeReport {
            scope: String::from("public"),
            purged_entries: 3,
            degraded: true,
            document: rendered(),
        }),
    );
    assert_eq!(purge.outcome, "degraded");
    assert_eq!(purge.detail, "cache purge for scope public purged 3 entries");
    assert!(purge.reply.body.ends_with("\"data\":{\"a\":1}}"));
    let refused = answer_cache_purge(
        &session(&head("POST", "/v1/cache/purge")),
        Err(String::from("unknown cache scope x")),
    );
    let body: serde_json::Value = serde_json::from_str(&refused.reply.body).expect("JSON");
    assert_eq!(body["error"]["code"], "validation_failed");

    let duplicate = answer_cache_invalidate(
        &session(&head("POST", "/cache/invalidate")),
        Ok(CacheInvalidationReport {
            scope: String::from("public"),
            duplicate: true,
            purged_entries: 0,
            document: String::from("{\"result\":\"duplicate\"}"),
        }),
    );
    assert_eq!(duplicate.outcome, "duplicate");
    assert_eq!(duplicate.reply.body, "{\"result\":\"duplicate\"}");
}

#[test]
fn a_reload_is_recorded_from_start_to_end() {
    let mut state = new_state();
    let request = head("POST", "/v1/reload");
    let session = AdminSession::begin(&mut state, &request, "admin", LOOPBACK);
    assert_eq!(session.action, AdminRequestAction::Reload);
    let mut plan = ReloadAuditPlan::default();
    plan.supported_replacements.push(String::from("public"));
    let plan = Some(plan);

    let started = reload_started_event(&session, &context(), &plan, 10);
    assert_eq!(started.code, "reload_started_overlap_drain");
    assert_eq!(started.outcome, "started");
    let unknown = reload_started_event(&session, &context(), &None, 10);
    assert_eq!(unknown.code, "reload_started_unknown");

    let outcome = ReloadApplyOutcome::default();
    let answer = answer_reload(&mut state, &session, &plan, Ok(&outcome));
    assert_eq!(state.last_reload_outcome_code, "reload_applied_overlap_drain");
    let body: serde_json::Value = serde_json::from_str(&answer.reply.body).expect("JSON");
    assert_eq!(body["data"]["result"], "configuration_applied");
    assert_eq!(body["data"]["outcome_code"], "reload_applied_overlap_drain");
    assert_eq!(body["data"]["degraded"], false);
    let closing = closing_event(&state, &session, &context(), &answer.outcome, &answer.detail, 20);
    assert_eq!(closing.code, "reload_applied_overlap_drain");
    assert_eq!(closing.outcome, "executed");
    assert_eq!(closing.detail, state.last_reload_result);

    let mut blocked = ReloadAuditPlan::default();
    blocked.blocked_replacements.push(String::from("public"));
    let failed = answer_reload(&mut state, &session, &Some(blocked), Err("busy"));
    let body: serde_json::Value = serde_json::from_str(&failed.reply.body).expect("JSON");
    assert_eq!(body["error"]["code"], "unsupported_mutation");
    assert_eq!(state.last_reload_outcome_code, "reload_failed_blocked_change");
    let plain = answer_reload(&mut state, &session, &None, Err("busy"));
    assert_eq!(plain.detail, "reload failed: busy");
}

#[test]
fn a_restart_is_answered_with_its_counts() {
    let mut state = new_state();
    let request = head("POST", "/v1/restart");
    let session = AdminSession::begin(&mut state, &request, "admin", LOOPBACK);
    let started = restart_started_event(&session, &context(), &None, 10);
    assert_eq!(started.code, "restart_started_unknown");
    let outcome = WarmRestartApplyOutcome {
        restarted_listener_count: 2,
        completed_drain_count: 1,
        drain_timeout_count: 1,
        drain_timed_out_replacements: vec![String::from("public")],
    };
    let answer = answer_restart(
        &mut state,
        &session,
        &Some(ReloadAuditPlan::default()),
        Ok(&outcome),
    );
    let body: serde_json::Value = serde_json::from_str(&answer.reply.body).expect("JSON");
    assert_eq!(body["data"]["restarted_listeners"], 2);
    assert_eq!(body["data"]["drain_timeouts"], 1);
    assert_eq!(body["data"]["degraded"], true);
    assert_eq!(state.last_restart_outcome_code, "restart_applied_overlap_drain_timeout");

    let failed = answer_restart(&mut state, &session, &None, Err("no"));
    assert_eq!(failed.detail, "warm restart failed: no");
    assert_eq!(state.last_restart_outcome_code, "restart_failed_apply");
    let closing = closing_event(&state, &session, &context(), &failed.outcome, &failed.detail, 1);
    assert_eq!(closing.code, "restart_failed_apply");
}

fn key(actor: &str) -> AdminRateLimitKey {
    AdminRateLimitKey {
        source: LOOPBACK,
        actor: String::from(actor),
        auth_mode: String::from("bearer"),
    }
}

#[test]
fn buckets_are_kept_by_identity_and_forgotten_when_stale() {
    let mut table = AdminRateLimitState::new();
    let full = 10.0_f64.to_bits();
    let first = table.claim(&key("a"), full, 1_000);
    assert_eq!(first.token_bits, full);
    table.settle(&key("a"), 9.0_f64.to_bits(), 1_000);
    assert_eq!(f64::from_bits(table.claim(&key("a"), full, 2_000).token_bits), 9.0);
    assert_eq!(f64::from_bits(table.claim(&key("b"), full, 2_000).token_bits), 10.0);
    assert_eq!(table.entries.len(), 2);

    let later = 2_000 + 600_000_000_001_u128;
    assert_eq!(table.claim(&key("a"), full, later).last_refill, later);
    assert_eq!(table.entries.len(), 1);
}

#[test]
fn secrets_are_reported_for_each_who_needs_one() {
    let policy = signed_policy();
    let owners = secret_owners("admin", &policy.auth);
    let actors: Vec<&str> = owners.iter().map(|owner| owner.actor.as_str()).collect();
    assert_eq!(actors, vec!["reader", "writer"]);
    let missing = SecretReadings {
        file_variable: None,
        file_contents: Err(String::new()),
        variable: None,
    };
    let status = AdminAuthStatus {
        secret_sources: vec![
            report_secret(&owners[0], "legacy", &missing),
            report_secret(&owners[1], "legacy", &readings("w")),
        ],
    };
    assert!(!status.secret_sources[0].healthy);
    assert_eq!(
        status.secret_sources[1].to_json(),
        "{\"listener\":\"admin\",\"actor\":\"writer\",\"auth_mode\":\"signed_headers\",\
         \"secret_env\":\"WRITER_SECRET\",\"source_kind\":\"env\",\
         \"source_reference\":\"WRITER_SECRET\",\"supports_rotation_without_reload\":false,\
         \"healthy\":true,\"state\":\"loaded\",\"detail\":\"secret material loaded\"}"
    );
    let parsed: serde_json::Value = serde_json::from_str(&status.to_json()).expect("JSON");
    assert_eq!(parsed["secret_sources"][0]["state"], "missing");

    let shared = secret_owners("admin", &bearer_policy(&[]).auth);
    assert_eq!(shared.len(), 1);
    assert_eq!(shared[0].actor, "shared-bearer");
    let from_file = SecretReadings {
        file_variable: Some(String::from(" /run/secret ")),
        file_contents: Ok(String::from("s3\r\n")),
        variable: Some(String::from("unused")),
    };
    let report = report_secret(&shared[0], "legacy", &from_file);
    assert_eq!(report.source_kind, "file");
    assert_eq!(report.source_reference, "/run/secret");
    assert!(report.supports_rotation_without_reload);
}

#[test]
fn blocks_cover_the_addresses_of_their_prefix() {
    let v4 = parse_address("10.1.2.3").expect("address");
    let mut policy = bearer_policy(&["10.1.0.0/16"]);
    assert!(workspace_serve::admin_policy::admin_source_allowed(v4, &policy));
    policy.allowed_source_cidrs = vec![parse_cidr("10.2.0.0/16").expect("block")];
    assert!(!workspace_serve::admin_policy::admin_source_allowed(v4, &policy));
    policy.allowed_source_cidrs = vec![parse_cidr("2001:db8::/32").expect("block")];
    let v6 = parse_address("2001:db8::1").expect("address");
    assert!(workspace_serve::admin_policy::admin_source_allowed(v6, &policy));
    assert_eq!(parse_cidr("10.0.0.0/33"), Err(String::from("invalid IP address syntax")));
}

#[test]
fn secrets_that_cannot_be_found_are_told_apart() {
    let shared = secret_owners("admin", &bearer_policy(&[]).auth);
    let with_file = |contents: Result<String, String>| SecretReadings {
        file_variable: Some(String::from("/run/secret")),
        file_contents: contents,
        variable: Some(String::from("unused")),
    };
    let unread = report_secret(
        &shared[0],
        "legacy",
        &with_file(Err(String::from("No such file or directory (os error 2)"))),
    );
    assert_eq!(unread.state, "read_failed");
    assert_eq!(
        unread.detail,
        "admin secret file /run/secret from LB_CTL_ADMIN_SECRET_FILE could not be read: \
         No such file or directory (os error 2)"
    );
    let empty = report_secret(&shared[0], "legacy", &with_file(Ok(String::from("\r\n"))));
    assert_eq!(empty.state, "empty");
    assert_eq!(
        empty.detail,
        "admin secret file configured via LB_CTL_ADMIN_SECRET_FILE was empty"
    );
    assert!(empty.supports_rotation_without_reload);
    let unset = SecretReadings {
        file_variable: Some(String::from("  ")),
        file_contents: Err(String::new()),
        variable: None,
    };
    // The shared secret may still come from where it used to stand.
    assert!(report_secret(&shared[0], "legacy", &unset).healthy);
    let missing = report_secret(&shared[0], "", &unset);
    assert_eq!(missing.state, "missing");
    assert_eq!(missing.detail, "admin secret env LB_CTL_ADMIN_SECRET is not configured");
}

#[test]
fn the_secret_of_a_request_is_that_of_its_operator() {
    let policy = signed_policy();
    let request = signed_head("reader", "reader-secret", "GET", "/status", "nonce-1");
    assert_eq!(find_secret_env(&policy, &request), Some("READER_SECRET"));
    assert_eq!(find_secret_env(&policy, &head("GET", "/status")), None);
    let stranger = signed_head("stranger", "s", "GET", "/status", "nonce-2");
    assert_eq!(find_secret_env(&policy, &stranger), None);
    assert_eq!(
        find_secret_env(&bearer_policy(&[]), &head("GET", "/status")),
        Some("LB_CTL_ADMIN_SECRET")
    );
}
