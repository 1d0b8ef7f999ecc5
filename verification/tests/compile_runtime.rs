use workspace_serve::addr::{IpAddress, SocketAddress};
use workspace_serve::admin_audit::SnapshotMetadata;
use workspace_serve::compile_policies::{
    compile_listener_abuse_protection_policy, compile_listener_overload_policy,
    compile_route_destination_auth_runtime, compile_route_destination_authorization_runtime,
    compile_route_destination_external_auth_runtime, compile_route_destination_jwt_auth_runtime,
    compile_route_destination_upstream_identity_runtime, AuthPolicyKind, SourceAggregation,
    TrafficClass,
};
use workspace_serve::compile_runtime::{
    check_references, compile_resolved_workspace_runtime, compile_workspace_runtime,
    CompiledWorkspaceRuntime, ListenerService, ManagedProxyConfig, ProxyPlan,
};
use workspace_serve::config::{
    AdminAuthPolicyConfig, AdminAuthorizationScopeConfig, AdminListenerConfig,
    AdminRateLimitConfig, BrownoutFeatureConfig, CircuitBreakerPolicyConfig, EndpointStateConfig,
    HandshakeGuardConfig, HostileEdgeProtectionPolicyConfig, HostileEdgeSourceAggregationConfig,
    HttpCachePolicyConfig,
    ListenerBindMode, ListenerClassConfig, ListenerProtocolConfig, ListenerResourceConfig,
    ListenerSocketConfig, LoadBalancingAlgorithmConfig, LocalConcurrencyLimitPolicyConfig,
    LocalLimitKeyKindConfig, LocalLimitScopeConfig, LocalRateLimitPolicyConfig,
    LocalityRoutingConfig, NamedPolicy, NoHealthyFallbackConfig, OverloadResponsePolicyConfig,
    PolicyBindingConfig,
    PolicyCatalogConfig, RequestTransformConfig, ResponseTransformConfig, RetryBudgetPolicyConfig,
    RouteConfig, RouteDestinationConfig, RoutePrefixRule, SourceQuotaConfig,
    TimeoutHierarchyPolicyConfig, TrafficClassConfig, TransformPolicyConfig, UpstreamClusterConfig, UpstreamEndpointConfig,
    UpstreamTrafficPolicyConfig, WorkspaceConfig,
};
use workspace_serve::destination_policies::EngineDefaults;
use workspace_serve::effective_policies::{
    resolve_effective_route_backend_policy_diagnostics, EffectiveRouteDestinationPolicy,
};
use workspace_serve::http_cache_scopes::{
    http_cache_store_config, resolve_listener_http_cache_policy,
};
use workspace_serve::listener_lifecycle::CurrentListenerIdentity;
use workspace_serve::named_map::NamedMap;
use workspace_serve::proxy_protocol::ProxyProtocolModeConfig;
use workspace_serve::supervisor::{
    collect_blocked_listener_replacements, collect_supported_listener_replacements,
};

fn loopback(port: u16) -> SocketAddress {
    SocketAddress::new(IpAddress::V4(0x7f00_0001), port)
}

fn some(name: &str) -> Option<String> {
    Some(String::from(name))
}

fn list(names: &[&str]) -> Vec<String> {
    names.iter().map(|name| String::from(*name)).collect()
}

fn named<S>(name: &str, spec: S) -> NamedPolicy<S> {
    NamedPolicy { name: String::from(name), spec }
}

fn no_policies() -> PolicyCatalogConfig {
    PolicyCatalogConfig {
        transforms: Vec::new(),
        traffic_mirrors: Vec::new(),
        fault_injections: Vec::new(),
        jwt_auth_policies: Vec::new(),
        external_auth_policies: Vec::new(),
        authorization_policies: Vec::new(),
        upstream_identity_policies: Vec::new(),
        local_rate_limits: Vec::new(),
        local_concurrency_limits: Vec::new(),
        retry_budgets: Vec::new(),
        timeout_hierarchies: Vec::new(),
        circuit_breakers: Vec::new(),
        http_caches: Vec::new(),
        overload_responses: Vec::new(),
        hostile_edge_protections: Vec::new(),
    }
}

fn admin_settings() -> AdminListenerConfig {
    AdminListenerConfig {
        auth: AdminAuthPolicyConfig::Bearer {
            secret_env: String::from("LB_ADMIN_BEARER"),
            permissions: vec![
                AdminAuthorizationScopeConfig::Read,
                AdminAuthorizationScopeConfig::Audit,
                AdminAuthorizationScopeConfig::Write,
            ],
        },
        allowed_source_cidrs: Vec::new(),
        rate_limit: AdminRateLimitConfig { requests_per_minute: 600, burst: 100 },
        max_retained_audit_events: 64,
    }
}

fn listener(
    name: &str,
    class: ListenerClassConfig,
    protocol: ListenerProtocolConfig,
    routes: &[&str],
) -> ListenerResourceConfig {
    ListenerResourceConfig {
        name: String::from(name),
        class,
        protocol,
        proxy_protocol: ProxyProtocolModeConfig::Disabled,
        routes: list(routes),
        policies: PolicyBindingConfig::default(),
        upgrade_protocols: Vec::new(),
        admin: admin_settings(),
        tls_termination: None,
    }
}

fn socket(bind_address: SocketAddress, bind_mode: ListenerBindMode) -> ListenerSocketConfig {
    ListenerSocketConfig {
        bind_address,
        bind_mode,
        max_connections: 128,
        drain_timeout_ms: 30_000,
        ends_tls: false,
    }
}

fn destination(cluster: &str, weight: u32) -> RouteDestinationConfig {
    RouteDestinationConfig {
        upstream_cluster: String::from(cluster),
        weight,
        policies: PolicyBindingConfig::default(),
    }
}

fn route(name: &str, destinations: Vec<RouteDestinationConfig>) -> RouteConfig {
    RouteConfig {
        name: String::from(name),
        policies: PolicyBindingConfig::default(),
        upgrade_protocols: Vec::new(),
        destinations,
    }
}

fn endpoint(id: &str, port: u16) -> UpstreamEndpointConfig {
    UpstreamEndpointConfig {
        id: String::from(id),
        address: loopback(port),
        state: EndpointStateConfig::Ready,
        zone: None,
        locality: None,
        weight: 1,
    }
}

fn cluster(name: &str, endpoints: Vec<UpstreamEndpointConfig>) -> UpstreamClusterConfig {
    UpstreamClusterConfig {
        name: String::from(name),
        endpoints,
        traffic_policy: UpstreamTrafficPolicyConfig {
            algorithm: LoadBalancingAlgorithmConfig::RoundRobin,
            locality: LocalityRoutingConfig::Disabled,
            no_healthy_fallback: NoHealthyFallbackConfig::Fail,
            affinity: None,
        },
        policies: PolicyBindingConfig::default(),
    }
}

fn request_change(
    path_rewrite: Option<&str>,
    host_rewrite: Option<&str>,
    header_mutations: &[&str],
) -> RequestTransformConfig {
    RequestTransformConfig {
        path_rewrite: path_rewrite.map(String::from),
        host_rewrite: host_rewrite.map(String::from),
        header_mutations: list(header_mutations),
    }
}

fn transform(request: RequestTransformConfig, response: &[&str]) -> TransformPolicyConfig {
    TransformPolicyConfig {
        request,
        response: ResponseTransformConfig { header_mutations: list(response) },
    }
}

fn defaults() -> EngineDefaults {
    EngineDefaults {
        retry_budget: RetryBudgetPolicyConfig {
            min_retry_tokens: 10,
            retry_percent: 20,
            window_ms: 10_000,
        },
        circuit_breaker: CircuitBreakerPolicyConfig {
            open_failure_threshold: 5,
            open_duration_ms: 30_000,
            half_open_success_threshold: 1,
        },
        connect_timeout_ms: 1_000,
        idle_timeout_ms: 30_000,
        preface_timeout_ms: 5_000,
    }
}

fn metadata() -> SnapshotMetadata {
    SnapshotMetadata {
        digest_sha256: String::from("d1"),
        api_version: some("v1alpha1"),
        format_version: String::from("1"),
    }
}

fn rules(config: &WorkspaceConfig) -> Vec<RoutePrefixRule> {
    config
        .routes
        .iter()
        .map(|route| RoutePrefixRule { label: route.name.clone(), rule: String::from("/") })
        .collect()
}

fn compile(
    config: &WorkspaceConfig,
    sockets: &Vec<ListenerSocketConfig>,
) -> Result<CompiledWorkspaceRuntime, String> {
    assert!(check_references(config, sockets, &rules(config), &defaults()));
    compile_workspace_runtime(
        "workspace.json",
        metadata(),
        config,
        sockets,
        &rules(config),
        &defaults(),
    )
    .map_err(|error| error.message)
}

fn resolves(config: &WorkspaceConfig) -> bool {
    check_references(config, &sockets(), &rules(config), &defaults())
}

fn compile_resolved(config: &WorkspaceConfig) -> Option<Result<CompiledWorkspaceRuntime, String>> {
    compile_resolved_workspace_runtime(
        "workspace.json",
        metadata(),
        config,
        &sockets(),
        &rules(config),
        &defaults(),
        true,
    )
    .map(|outcome| outcome.map_err(|error| error.message))
}

fn workspace(protocol: ListenerProtocolConfig, upstream_port: u16) -> WorkspaceConfig {
    WorkspaceConfig {
        listeners: vec![
            listener("public", ListenerClassConfig::Public, protocol, &["web"]),
            listener(
                "admin",
                ListenerClassConfig::Admin,
                ListenerProtocolConfig::Http1,
                &[],
            ),
        ],
        routes: vec![route("web", vec![destination("frontend", 1)])],
        upstream_clusters: vec![cluster("frontend", vec![endpoint("frontend-a", upstream_port)])],
        policies: no_policies(),
    }
}

fn sockets() -> Vec<ListenerSocketConfig> {
    vec![
        socket(loopback(0), ListenerBindMode::SingleStack),
        socket(loopback(0), ListenerBindMode::SingleStack),
    ]
}

fn http1_plan(compiled: &CompiledWorkspaceRuntime) -> &ProxyPlan {
    match &compiled.listeners.get("public").expect("public listener").service {
        ListenerService::Public(ManagedProxyConfig::Http1(plan)) => plan,
        _ => panic!("expected public HTTP/1 listener"),
    }
}

fn http2_plan(compiled: &CompiledWorkspaceRuntime) -> &ProxyPlan {
    match &compiled.listeners.get("public").expect("public listener").service {
        ListenerService::Public(ManagedProxyConfig::Http2(plan)) => plan,
        _ => panic!("expected public HTTP/2 listener"),
    }
}

fn with_request_transforms(protocol: ListenerProtocolConfig, port: u16) -> WorkspaceConfig {
    let mut config = workspace(protocol, port);
    config.listeners[0].policies.transform_policy = some("listener-transform");
    config.routes[0].policies.transform_policy = some("route-transform");
    config.policies.transforms = vec![
        named(
            "listener-transform",
            transform(request_change(None, None, &["set x-listener edge"]), &[]),
        ),
        named(
            "route-transform",
            transform(
                request_change(Some("/edge -> /v1"), Some("backend.internal"), &[]),
                &[],
            ),
        ),
    ];
    config
}

fn with_response_transforms(protocol: ListenerProtocolConfig, port: u16) -> WorkspaceConfig {
    let mut config = workspace(protocol, port);
    config.listeners[0].policies.transform_policy = some("listener-transform");
    config.routes[0].policies.transform_policy = some("route-transform");
    config.policies.transforms = vec![
        named(
            "listener-transform",
            transform(request_change(None, None, &[]), &["set x-listener-response edge"]),
        ),
        named(
            "route-transform",
            transform(request_change(None, None, &[]), &["remove x-remove-me"]),
        ),
    ];
    config
}

fn check_request_transforms(plan: &ProxyPlan) {
    assert_eq!(
        plan.request_transform.as_ref().map(|transform| transform.header_mutations.len()),
        Some(1)
    );
    assert_eq!(
        plan.route_request_transforms
            .iter()
            .find(|(route, _)| route == "web")
            .and_then(|(_, transform)| transform.host_rewrite.as_deref()),
        Some("backend.internal")
    );
}

fn check_response_transforms(plan: &ProxyPlan) {
    assert_eq!(
        plan.response_transform.as_ref().map(|transform| transform.header_mutations.len()),
        Some(1)
    );
    assert_eq!(
        plan.route_response_transforms
            .iter()
            .find(|(route, _)| route == "web")
            .map(|(_, transform)| transform.header_mutations.len()),
        Some(1)
    );
}

fn diagnostics_of<'a>(plan: &'a ProxyPlan, cluster: &str) -> &'a EffectiveRouteDestinationPolicy {
    plan.diagnostics
        .get("web")
        .expect("web backend diagnostics")
        .iter()
        .find(|entry| entry.upstream_cluster == cluster)
        .expect("diagnostics of the cluster")
}

#[test]
fn compile_workspace_runtime_accepts_http2_public_listener() {
    let config = workspace(ListenerProtocolConfig::Http2, 19080);

    let compiled = compile(&config, &sockets()).expect("compiles");

    assert_eq!(compiled.listeners.len(), 2);
}

#[test]
fn compile_workspace_runtime_accepts_http3_public_listener() {
    let mut config = workspace(ListenerProtocolConfig::Http3, 19080);
    config.listeners[0].tls_termination = some("public-identity");
    let mut sockets = sockets();
    sockets[0].ends_tls = true;

    let compiled = compile(&config, &sockets).expect("compiles");

    assert_eq!(compiled.listeners.len(), 2);
}

#[test]
fn bind_mode_change_on_same_listener_bind_requires_rebind() {
    let config = workspace(ListenerProtocolConfig::Http1, 19080);
    let unspecified = SocketAddress::new(IpAddress::V6(0), 8080);
    let compiled = compile(
        &config,
        &vec![
            socket(unspecified, ListenerBindMode::DualStack),
            socket(loopback(0), ListenerBindMode::SingleStack),
        ],
    )
    .expect("compiles");

    let mut current_identities = NamedMap::new();
    current_identities.insert(
        String::from("public"),
        CurrentListenerIdentity {
            class: ListenerClassConfig::Public,
            protocol: ListenerProtocolConfig::Http1,
            proxy_protocol: ProxyProtocolModeConfig::Disabled,
            configured_bind: unspecified,
            bind_mode: ListenerBindMode::SingleStack,
            local_addr: unspecified,
        },
    );

    let supported =
        collect_supported_listener_replacements(&current_identities, &compiled.listeners);
    let blocked = collect_blocked_listener_replacements(&current_identities, &compiled.listeners);

    assert!(supported.is_empty());
    assert_eq!(blocked, vec![String::from("public")]);
}

#[test]
fn compile_workspace_runtime_attaches_request_transforms_to_http1_public_proxy() {
    let config = with_request_transforms(ListenerProtocolConfig::Http1, 18081);
    let compiled = compile(&config, &sockets()).expect("compiles");
    check_request_transforms(http1_plan(&compiled));
}

#[test]
fn compile_workspace_runtime_attaches_request_transforms_to_http2_public_proxy() {
    let config = with_request_transforms(ListenerProtocolConfig::Http2, 18082);
    let compiled = compile(&config, &sockets()).expect("compiles");
    check_request_transforms(http2_plan(&compiled));
}

#[test]
fn compile_workspace_runtime_attaches_response_transforms_to_http1_public_proxy() {
    let config = with_response_transforms(ListenerProtocolConfig::Http1, 18083);
    let compiled = compile(&config, &sockets()).expect("compiles");
    check_response_transforms(http1_plan(&compiled));
}

#[test]
fn compile_workspace_runtime_attaches_response_transforms_to_http2_public_proxy() {
    let config = with_response_transforms(ListenerProtocolConfig::Http2, 18084);
    let compiled = compile(&config, &sockets()).expect("compiles");
    check_response_transforms(http2_plan(&compiled));
}

fn layered_workspace() -> WorkspaceConfig {
    let mut canary = destination("frontend-canary", 10);
    canary.policies.transform_policy = some("destination-transform");
    canary.policies.retry_budget = some("destination-retry");
    canary.policies.circuit_breaker = some("destination-breaker");
    canary.policies.local_rate_limits = list(&["destination-rate"]);
    canary.policies.local_concurrency_limits = list(&["destination-concurrency"]);
    let mut web = route("web", vec![destination("frontend-stable", 90), canary]);
    web.policies.transform_policy = some("route-transform");
    web.policies.timeout_hierarchy = some("route-timeout");
    web.policies.local_rate_limits = list(&["route-rate"]);
    web.policies.local_concurrency_limits = list(&["route-concurrency"]);

    let mut config = workspace(ListenerProtocolConfig::Http1, 18110);
    config.listeners[0].policies.transform_policy = some("listener-transform");
    config.listeners[0].policies.retry_budget = some("listener-retry");
    config.listeners[0].policies.local_rate_limits = list(&["listener-rate"]);
    config.routes = vec![web];
    config.upstream_clusters = vec![
        cluster("frontend-stable", vec![endpoint("frontend-stable-a", 18110)]),
        cluster("frontend-canary", vec![endpoint("frontend-canary-a", 18111)]),
    ];
    config.policies.local_rate_limits = vec![
        named(
            "listener-rate",
            LocalRateLimitPolicyConfig {
                scope: LocalLimitScopeConfig::Listener { name: String::from("public") },
                key_kind: LocalLimitKeyKindConfig::SourceIp,
                requests_per_window: 100,
                window_ms: 1000,
                max_tracked_keys: 1024,
            },
        ),
        named(
            "route-rate",
            LocalRateLimitPolicyConfig {
                scope: LocalLimitScopeConfig::Route { name: String::from("web") },
                key_kind: LocalLimitKeyKindConfig::RouteName,
                requests_per_window: 50,
                window_ms: 1000,
                max_tracked_keys: 256,
            },
        ),
        named(
            "destination-rate",
            LocalRateLimitPolicyConfig {
                scope: LocalLimitScopeConfig::RouteDestination {
                    route: String::from("web"),
                    upstream_cluster: String::from("frontend-canary"),
                },
                key_kind: LocalLimitKeyKindConfig::Global,
                requests_per_window: 10,
                window_ms: 1000,
                max_tracked_keys: 64,
            },
        ),
    ];
    config.policies.local_concurrency_limits = vec![
        named(
            "route-concurrency",
            LocalConcurrencyLimitPolicyConfig {
                scope: LocalLimitScopeConfig::Route { name: String::from("web") },
                key_kind: LocalLimitKeyKindConfig::RouteName,
                max_concurrent: 64,
                max_tracked_keys: 256,
            },
        ),
        named(
            "destination-concurrency",
            LocalConcurrencyLimitPolicyConfig {
                scope: LocalLimitScopeConfig::RouteDestination {
                    route: String::from("web"),
                    upstream_cluster: String::from("frontend-canary"),
                },
                key_kind: LocalLimitKeyKindConfig::Global,
                max_concurrent: 8,
                max_tracked_keys: 64,
            },
        ),
    ];
    config.policies.retry_budgets = vec![
        named(
            "listener-retry",
            RetryBudgetPolicyConfig { min_retry_tokens: 3, retry_percent: 20, window_ms: 10000 },
        ),
        named(
            "destination-retry",
            RetryBudgetPolicyConfig { min_retry_tokens: 2, retry_percent: 5, window_ms: 5000 },
        ),
    ];
    config.policies.timeout_hierarchies = vec![named(
        "route-timeout",
        TimeoutHierarchyPolicyConfig {
            request_timeout_ms: 30000,
            attempt_timeout_ms: 10000,
            per_try_timeout_ms: Some(8000),
            connect_timeout_ms: 1000,
            idle_timeout_ms: 5000,
        },
    )];
    config.policies.circuit_breakers = vec![named(
        "destination-breaker",
        CircuitBreakerPolicyConfig {
            open_failure_threshold: 5,
            open_duration_ms: 30000,
            half_open_success_threshold: 2,
        },
    )];
    config.policies.transforms = vec![
        named(
            "listener-transform",
            transform(
                request_change(None, None, &["set x-listener edge"]),
                &["set x-listener-response edge"],
            ),
        ),
        named(
            "route-transform",
            transform(
                request_change(Some("/edge -> /v1"), None, &["set x-route api"]),
                &["set x-route-response api"],
            ),
        ),
        named(
            "destination-transform",
            transform(
                request_change(None, Some("canary.internal"), &["set x-destination canary"]),
                &["set x-destination-response canary"],
            ),
        ),
    ];
    config
}

#[test]
fn compile_workspace_runtime_exposes_effective_backend_policy_diagnostics_for_http1() {
    let config = layered_workspace();
    let compiled = compile(&config, &sockets()).expect("compiles");
    let plan = http1_plan(&compiled);
    assert_eq!(plan.route_enumeration.source_aggregation, SourceAggregation::ExactIp);

    let stable = diagnostics_of(plan, "frontend-stable");
    let canary = diagnostics_of(plan, "frontend-canary");

    assert_eq!(stable.retry_budget.as_deref(), Some("listener-retry"));
    assert_eq!(stable.timeout_hierarchy.as_deref(), Some("route-timeout"));
    assert_eq!(stable.transform_policy.as_deref(), Some("route-transform"));
    assert_eq!(stable.local_rate_limits, vec!["listener-rate", "route-rate"]);
    assert!(stable
        .effective_request_transform
        .as_ref()
        .and_then(|transform| transform.path_rewrite.as_ref())
        .is_some());
    assert_eq!(
        stable
            .effective_request_transform
            .as_ref()
            .map(|transform| transform.header_mutations.len()),
        Some(2)
    );

    assert_eq!(canary.retry_budget.as_deref(), Some("destination-retry"));
    assert_eq!(canary.timeout_hierarchy.as_deref(), Some("route-timeout"));
    assert_eq!(canary.circuit_breaker.as_deref(), Some("destination-breaker"));
    assert_eq!(canary.transform_policy.as_deref(), Some("destination-transform"));
    assert_eq!(
        canary.local_rate_limits,
        vec!["listener-rate", "route-rate", "destination-rate"]
    );
    assert_eq!(
        canary.local_concurrency_limits,
        vec!["route-concurrency", "destination-concurrency"]
    );
    assert_eq!(
        canary
            .effective_request_transform
            .as_ref()
            .and_then(|transform| transform.host_rewrite.as_deref()),
        Some("canary.internal")
    );
    assert_eq!(
        canary
            .effective_request_transform
            .as_ref()
            .map(|transform| transform.header_mutations.len()),
        Some(3)
    );
    assert_eq!(
        canary
            .effective_response_transform
            .as_ref()
            .map(|transform| transform.header_mutations.len()),
        Some(3)
    );

    let canary_plan = plan
        .destination_policies
        .routes
        .get("web")
        .and_then(|policies| policies.get("frontend-canary"))
        .expect("canary destination plan");
    assert_eq!(
        canary_plan
            .request_transform
            .as_ref()
            .and_then(|transform| transform.host_rewrite.as_deref()),
        Some("canary.internal")
    );
    assert_eq!(canary_plan.rate_limiters.len(), 3);
    assert_eq!(canary_plan.concurrency_limiters.len(), 2);
    let key = canary_plan.failure_manager.as_ref().expect("canary failure manager");
    assert_eq!(key.timeout_hierarchy.as_deref(), Some("route-timeout"));
    let manager = plan
        .destination_policies
        .shared
        .failure_managers
        .iter()
        .find(|entry| {
            entry.key.retry_budget == key.retry_budget
                && entry.key.timeout_hierarchy == key.timeout_hierarchy
                && entry.key.circuit_breaker == key.circuit_breaker
        })
        .expect("shared failure manager");
    assert_eq!(manager.plan.timeouts.attempt_timeout_ms, 8_000);
    assert!(canary_plan.enforce_timeout_hierarchy);
    assert!(canary_plan.enforce_retry_budget);
}

#[test]
fn compile_workspace_runtime_exposes_effective_backend_policy_diagnostics_for_http2() {
    let mut canary = destination("frontend-canary", 10);
    canary.policies.transform_policy = some("destination-transform");
    canary.policies.retry_budget = some("destination-retry");
    let mut web = route("web", vec![canary]);
    web.policies.transform_policy = some("route-transform");
    let mut config = workspace(ListenerProtocolConfig::Http2, 18112);
    config.listeners[0].policies.transform_policy = some("listener-transform");
    config.listeners[0].policies.retry_budget = some("listener-retry");
    config.routes = vec![web];
    config.upstream_clusters =
        vec![cluster("frontend-canary", vec![endpoint("frontend-canary-a", 18112)])];
    config.policies.retry_budgets = vec![
        named(
            "listener-retry",
            RetryBudgetPolicyConfig { min_retry_tokens: 3, retry_percent: 20, window_ms: 10000 },
        ),
        named(
            "destination-retry",
            RetryBudgetPolicyConfig { min_retry_tokens: 2, retry_percent: 5, window_ms: 5000 },
        ),
    ];
    config.policies.transforms = vec![
        named(
            "listener-transform",
            transform(request_change(None, None, &["set x-listener edge"]), &[]),
        ),
        named("route-transform", transform(request_change(Some("/edge -> /v2"), None, &[]), &[])),
        named(
            "destination-transform",
            transform(request_change(None, Some("canary.internal"), &[]), &[]),
        ),
    ];

    let compiled = compile(&config, &sockets()).expect("compiles");
    let plan = http2_plan(&compiled);

    let canary = plan.diagnostics.get("web").and_then(|entries| entries.first()).expect("canary");
    assert_eq!(canary.retry_budget.as_deref(), Some("destination-retry"));
    assert_eq!(canary.transform_policy.as_deref(), Some("destination-transform"));
    assert_eq!(
        canary
            .effective_request_transform
            .as_ref()
            .and_then(|transform| transform.host_rewrite.as_deref()),
        Some("canary.internal")
    );
    assert!(canary
        .effective_request_transform
        .as_ref()
        .and_then(|transform| transform.path_rewrite.as_ref())
        .is_some());
    let canary_plan = plan
        .destination_policies
        .routes
        .get("web")
        .and_then(|policies| policies.get("frontend-canary"))
        .expect("canary destination plan");
    assert_eq!(
        canary_plan
            .request_transform
            .as_ref()
            .and_then(|transform| transform.host_rewrite.as_deref()),
        Some("canary.internal")
    );
    assert!(canary_plan.failure_manager.is_some());
    assert!(canary_plan.enforce_retry_budget);
}

#[test]
fn routes_to_one_cluster_share_its_pool() {
    let mut config = workspace(ListenerProtocolConfig::Http1, 18081);
    config.listeners[0].routes = list(&["web-a", "web-b"]);
    config.routes = vec![
        route("web-a", vec![destination("frontend", 1)]),
        route("web-b", vec![destination("frontend", 1)]),
    ];
    config.upstream_clusters =
        vec![cluster("frontend", vec![endpoint("a", 18081), endpoint("b", 18082)])];

    let compiled = compile(&config, &sockets()).expect("compiles");
    let plan = http1_plan(&compiled);

    assert_eq!(plan.backends.cluster_pools.len(), 1);
    let pool = plan.backends.cluster_pools.get("frontend").expect("pool");
    assert_eq!(pool.endpoints.len(), 2);
    assert_eq!(pool.warmup_ms, 1000);
    let routes: Vec<(&str, &str)> = plan
        .backends
        .route_pools
        .iter()
        .map(|pool| (pool.route.as_str(), pool.destinations[0].cluster.as_str()))
        .collect();
    assert_eq!(routes, vec![("web-a", "frontend"), ("web-b", "frontend")]);
    let upstreams: Vec<&str> =
        plan.backends.upstreams.iter().map(|entry| entry.upstream.name.as_str()).collect();
    assert_eq!(upstreams, vec!["frontend:a", "frontend:b", "frontend:a", "frontend:b"]);
}

#[test]
fn faults_of_a_workspace_are_named() {
    let mut unknown_route = workspace(ListenerProtocolConfig::Http1, 19080);
    unknown_route.listeners[0].routes = list(&["missing"]);
    let error = compile(&unknown_route, &sockets()).expect_err("unknown route");
    assert!(error.contains("missing"), "{}", error);

    let mut unknown_cluster = workspace(ListenerProtocolConfig::Http1, 19080);
    unknown_cluster.routes[0].destinations[0].upstream_cluster = String::from("nowhere");
    let error = compile(&unknown_cluster, &sockets()).expect_err("unknown cluster");
    assert!(error.contains("nowhere"), "{}", error);

    let mut empty_cluster = workspace(ListenerProtocolConfig::Http1, 19080);
    empty_cluster.upstream_clusters[0].endpoints.clear();
    let error = compile(&empty_cluster, &sockets()).expect_err("empty cluster");
    assert_eq!(error, "upstream cluster frontend must declare at least one endpoint");

    let mut no_routes = workspace(ListenerProtocolConfig::Http1, 19080);
    no_routes.listeners[0].routes.clear();
    let error = compile(&no_routes, &sockets()).expect_err("no routes");
    assert_eq!(error, "public listener public must reference at least one route");

    let mut unknown_policy = workspace(ListenerProtocolConfig::Http1, 19080);
    unknown_policy.listeners[0].policies.retry_budget = some("nothing");
    let error = compile(&unknown_policy, &sockets()).expect_err("unknown policy");
    assert!(error.contains("nothing"), "{}", error);

    let mut bad_block = workspace(ListenerProtocolConfig::Http1, 19080);
    bad_block.listeners[1].admin.allowed_source_cidrs = list(&["10.0.0.0/8", "not a block"]);
    let error = compile(&bad_block, &sockets()).expect_err("bad block");
    assert!(error.contains("invalid IP address syntax"), "{}", error);

    let tcp = workspace(ListenerProtocolConfig::Tcp, 19080);
    assert!(compile(&tcp, &sockets()).is_err());
}

#[test]
fn references_to_mirrors_are_checked() {
    let mut config = workspace(ListenerProtocolConfig::Http1, 19080);
    config.routes[0].policies.traffic_mirror = some("shadow");
    assert!(!resolves(&config));
    assert!(compile_resolved(&config).is_none());

    config.policies.traffic_mirrors = vec![named("shadow", String::from("frontend 10%"))];
    assert!(resolves(&config));
    let compiled = compile_resolved(&config).expect("all there").expect("compiles");
    assert_eq!(compiled.listeners.len(), 2);
}

#[test]
fn only_policies_that_are_looked_up_must_be_there() {
    let mut unused = workspace(ListenerProtocolConfig::Http1, 19080);
    let mut spare = workspace(ListenerProtocolConfig::Http1, 19080).routes.remove(0);
    spare.name = String::from("spare");
    spare.policies.traffic_mirror = some("nothing");
    unused.routes.push(spare);
    assert!(compile(&unused, &sockets()).is_ok());

    let mut overridden = workspace(ListenerProtocolConfig::Http1, 19080);
    overridden.policies.fault_injections = vec![named("slow", String::from("delay"))];
    overridden.listeners[0].policies.fault_injection = some("nothing");
    overridden.routes[0].destinations[0].policies.fault_injection = some("slow");
    assert!(compile(&overridden, &sockets()).is_ok());
    overridden.routes[0].destinations[0].policies.fault_injection = None;
    assert!(!resolves(&overridden));

    let mut admin = workspace(ListenerProtocolConfig::Http1, 19080);
    admin.listeners[1].policies.traffic_mirror = some("nothing");
    assert!(compile(&admin, &sockets()).is_ok());
}

#[test]
fn a_fault_before_a_lookup_is_reported() {
    let mut config = workspace(ListenerProtocolConfig::Http1, 19080);
    config.routes[0].policies.traffic_mirror = some("nothing");
    assert!(!resolves(&config));

    config.listeners[0].policies.retry_budget = some("missing budget");
    let error = compile(&config, &sockets()).expect_err("unknown budget");
    assert!(error.contains("missing budget"), "{}", error);
    config.listeners[0].policies.retry_budget = None;

    config.listeners.swap(0, 1);
    config.listeners[0].admin.allowed_source_cidrs = list(&["not a block"]);
    let error = compile(&config, &sockets()).expect_err("bad block");
    assert!(error.contains("invalid IP address syntax"), "{}", error);
    config.listeners[0].admin.allowed_source_cidrs.clear();
    assert!(!resolves(&config));
}

#[test]
fn destinations_are_authenticated_by_the_innermost_policy() {
    let mut config = workspace(ListenerProtocolConfig::Http1, 19080);
    config.policies.jwt_auth_policies =
        vec![named("outer", String::from("outer rules")), named("inner", String::from("inner"))];
    config.listeners[0].policies.jwt_auth_policy = some("outer");
    config.routes[0].destinations[0].policies.jwt_auth_policy = some("inner");
    let policies =
        resolve_effective_route_backend_policy_diagnostics(&config, &config.listeners[0])
            .expect("policies");
    let found =
        compile_route_destination_auth_runtime(&config, AuthPolicyKind::Jwt, &policies)
            .expect("known policies");
    let destinations = found.value_at(0);
    assert_eq!(destinations.name_at(0), &config.routes[0].destinations[0].upstream_cluster);
    assert_eq!(destinations.value_at(0), "inner");
    let none =
        compile_route_destination_auth_runtime(&config, AuthPolicyKind::External, &policies)
            .expect("nothing to find");
    assert_eq!(none.value_at(0).len(), 0);
    let jwt = compile_route_destination_jwt_auth_runtime(&config, &policies).expect("known");
    assert_eq!(jwt.value_at(0).value_at(0), "inner");
    let external =
        compile_route_destination_external_auth_runtime(&config, &policies).expect("nothing");
    assert_eq!(external.value_at(0).len(), 0);
    let authorization =
        compile_route_destination_authorization_runtime(&config, &policies).expect("nothing");
    assert_eq!(authorization.value_at(0).len(), 0);
    let identity =
        compile_route_destination_upstream_identity_runtime(&config, &policies).expect("nothing");
    assert_eq!(identity.value_at(0).len(), 0);

    config.policies.jwt_auth_policies.clear();
    let error = compile_route_destination_auth_runtime(&config, AuthPolicyKind::Jwt, &policies)
        .expect_err("unknown policy");
    assert_eq!(error.message, "unknown jwt auth policy inner");
}

#[test]
fn each_kind_of_authentication_names_its_own_policy() {
    let mut config = workspace(ListenerProtocolConfig::Http1, 19080);
    config.policies.external_auth_policies = vec![named("gate", String::from("gate rules"))];
    config.policies.authorization_policies = vec![named("roles", String::from("role rules"))];
    config.policies.upstream_identity_policies = vec![named("peer", String::from("peer rules"))];
    config.routes[0].policies.external_auth_policy = some("gate");
    config.routes[0].policies.authorization_policy = some("roles");
    config.upstream_clusters[0].policies.upstream_identity_policy = some("peer");
    let policies =
        resolve_effective_route_backend_policy_diagnostics(&config, &config.listeners[0])
            .expect("policies");
    let external =
        compile_route_destination_external_auth_runtime(&config, &policies).expect("known");
    assert_eq!(external.value_at(0).value_at(0), "gate rules");
    let authorization =
        compile_route_destination_authorization_runtime(&config, &policies).expect("known");
    assert_eq!(authorization.value_at(0).value_at(0), "role rules");
    let identity =
        compile_route_destination_upstream_identity_runtime(&config, &policies).expect("known");
    assert_eq!(identity.value_at(0).value_at(0), "peer rules");

    config.policies.external_auth_policies.clear();
    config.policies.authorization_policies.clear();
    config.policies.upstream_identity_policies.clear();
    assert_eq!(
        compile_route_destination_external_auth_runtime(&config, &policies)
            .expect_err("unknown")
            .message,
        "unknown external auth policy gate"
    );
    assert_eq!(
        compile_route_destination_authorization_runtime(&config, &policies)
            .expect_err("unknown")
            .message,
        "unknown authorization policy roles"
    );
    assert_eq!(
        compile_route_destination_upstream_identity_runtime(&config, &policies)
            .expect_err("unknown")
            .message,
        "unknown upstream identity policy peer"
    );
}

fn cache(max_bytes: u64) -> HttpCachePolicyConfig {
    HttpCachePolicyConfig {
        purge_enabled: true,
        max_entries: 8,
        max_bytes,
        max_object_bytes: 16,
        rules: String::from("rules"),
    }
}

#[test]
fn a_listener_has_the_cache_that_its_routes_agree_on() {
    let mut config = workspace(ListenerProtocolConfig::Http1, 19080);
    let resolve = |config: &WorkspaceConfig| {
        resolve_listener_http_cache_policy(config, &config.listeners[0])
            .map(|found| found.map(|(name, _)| name))
            .map_err(|error| error.message)
    };
    assert_eq!(resolve(&config), Ok(None));

    config.policies.http_caches = vec![named("small", cache(64)), named("large", cache(128))];
    config.routes[0].policies.cache_policy = some("small");
    assert_eq!(resolve(&config), Ok(some("small")));

    let mut second = route("second", vec![destination("frontend", 1)]);
    second.policies.cache_policy = some("large");
    config.routes.push(second);
    config.listeners[0].routes.push(String::from("second"));
    assert_eq!(
        resolve(&config),
        Err(String::from(
            "listener public references multiple route-level http cache policies, which serve \
             mode does not support on a single listener"
        ))
    );

    config.listeners[0].policies.cache_policy = some("large");
    assert_eq!(resolve(&config), Ok(some("large")));
    config.listeners[0].policies.cache_policy = some("lost");
    assert_eq!(
        resolve(&config),
        Err(String::from("listener public references unknown http cache policy lost"))
    );

    let limits = http_cache_store_config(&cache(64)).expect("small enough");
    assert_eq!((limits.max_entries, limits.max_bytes, limits.max_object_bytes), (8, 64, 16));
}

#[test]
fn policies_against_overload_and_hostile_sources_are_compiled() {
    let mut config = workspace(ListenerProtocolConfig::Http1, 19080);
    config.policies.overload_responses = vec![named(
        "busy",
        OverloadResponsePolicyConfig {
            signal_window_ms: 500,
            constrained_signal_threshold: 1,
            shedding_signal_threshold: 2,
            brownout_signal_threshold: 3,
            brownout_features: vec![BrownoutFeatureConfig {
                name: String::from("mirroring"),
                priority: TrafficClassConfig::BestEffort,
            }],
        },
    )];
    config.policies.hostile_edge_protections = vec![named(
        "edge",
        HostileEdgeProtectionPolicyConfig {
            source_quota: Some(SourceQuotaConfig {
                aggregation: HostileEdgeSourceAggregationConfig::Ipv4Subnet24,
                max_active_per_source: 4,
                max_tracked_sources: 64,
            }),
            handshake_guard: Some(HandshakeGuardConfig { max_inflight: 2, timeout_ms: 250 }),
        },
    )];
    let listener = &mut config.listeners[0];
    listener.policies.overload_response = some("busy");
    listener.policies.hostile_edge_protection = some("edge");

    let overload = compile_listener_overload_policy(&config, &config.listeners[0])
        .expect("known")
        .expect("there");
    assert_eq!(overload.signal_window_ms, 500);
    assert_eq!(overload.brownout_features[0].name, "mirroring");
    assert_eq!(overload.brownout_features[0].priority, TrafficClass::BestEffort);
    let edge = compile_listener_abuse_protection_policy(&config, &config.listeners[0])
        .expect("known")
        .expect("there");
    let quota = edge.source_quota.expect("quota");
    assert_eq!(quota.aggregation, SourceAggregation::Ipv4Subnet24);
    assert_eq!(edge.handshake_guard.expect("guard").timeout_ms, 250);

    config.policies.overload_responses.clear();
    config.policies.hostile_edge_protections.clear();
    let error = compile_listener_overload_policy(&config, &config.listeners[0]);
    assert_eq!(
        error.expect_err("unknown").message,
        "listener public references unknown overload response policy busy"
    );
    let error = compile_listener_abuse_protection_policy(&config, &config.listeners[0]);
    assert_eq!(
        error.expect_err("unknown").message,
        "listener public references unknown hostile-edge protection policy edge"
    );
}
