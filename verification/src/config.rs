//! The configuration of a workspace, as far as serving it depends on it. Parts that are only
//! handed on to the proxy engine are kept as the text that the configuration document holds.

use crate::addr::SocketAddress;
use crate::error::ServeError;
use crate::proxy_protocol::ProxyProtocolModeConfig;
use crate::text::str_eq;
use vstd::prelude::*;

verus! {

/// Whether a listener serves clients or operators.
#[derive(Debug, Clone, Copy, PartialEq, Eq, Structural)]
pub enum ListenerClassConfig {
    Public,
    Admin,
}

/// The protocol that a listener speaks.
#[derive(Debug, Clone, Copy, PartialEq, Eq, Structural)]
pub enum ListenerProtocolConfig {
    Tcp,
    Http1,
    Https,
    Http2,
    Http3,
    Auto,
}

/// Which address families a listener's socket accepts.
#[derive(Debug, Clone, Copy, PartialEq, Eq, Structural)]
pub enum ListenerBindMode {
    SingleStack,
    DualStack,
    Ipv6Only,
}

/// The policies that a resource refers to by name.
#[derive(Debug)]
pub struct PolicyBindingConfig {
    pub retry_budget: Option<String>,
    pub timeout_hierarchy: Option<String>,
    pub circuit_breaker: Option<String>,
    pub jwt_auth_policy: Option<String>,
    pub external_auth_policy: Option<String>,
    pub authorization_policy: Option<String>,
    pub upstream_identity_policy: Option<String>,
    pub transform_policy: Option<String>,
    pub traffic_mirror: Option<String>,
    pub fault_injection: Option<String>,
    pub cache_policy: Option<String>,
    pub overload_response: Option<String>,
    pub hostile_edge_protection: Option<String>,
    pub local_rate_limits: Vec<String>,
    pub local_concurrency_limits: Vec<String>,
}

impl Default for PolicyBindingConfig {
    fn default() -> (r: Self)
        ensures
            r.retry_budget is None,
            r.timeout_hierarchy is None,
            r.circuit_breaker is None,
            r.jwt_auth_policy is None,
            r.external_auth_policy is None,
            r.authorization_policy is None,
            r.upstream_identity_policy is None,
            r.transform_policy is None,
            r.traffic_mirror is None,
            r.fault_injection is None,
            r.cache_policy is None,
            r.overload_response is None,
            r.hostile_edge_protection is None,
            r.local_rate_limits@.len() == 0,
            r.local_concurrency_limits@.len() == 0,
    {
        PolicyBindingConfig {
            retry_budget: None,
            timeout_hierarchy: None,
            circuit_breaker: None,
            jwt_auth_policy: None,
            external_auth_policy: None,
            authorization_policy: None,
            upstream_identity_policy: None,
            transform_policy: None,
            traffic_mirror: None,
            fault_injection: None,
            cache_policy: None,
            overload_response: None,
            hostile_edge_protection: None,
            local_rate_limits: Vec::new(),
            local_concurrency_limits: Vec::new(),
        }
    }
}

/// What an operator may do through the administration interface.
#[derive(Debug, Clone, Copy, PartialEq, Eq, Structural)]
pub enum AdminAuthorizationScopeConfig {
    Read,
    Audit,
    Write,
}

/// An operator who signs requests.
#[derive(Debug)]
pub struct AdminOperatorConfig {
    pub id: String,
    pub secret_env: String,
    pub permissions: Vec<AdminAuthorizationScopeConfig>,
}

/// How requests to the administration interface are authenticated.
#[derive(Debug)]
pub enum AdminAuthPolicyConfig {
    Bearer { secret_env: String, permissions: Vec<AdminAuthorizationScopeConfig> },
    SignedHeaders {
        operators: Vec<AdminOperatorConfig>,
        max_clock_skew_secs: u64,
        nonce_ttl_secs: u64,
    },
}

/// How often one source may ask.
#[derive(Debug, Clone, Copy, PartialEq, Eq, Structural)]
pub struct AdminRateLimitConfig {
    pub requests_per_minute: u32,
    pub burst: u32,
}

/// The administration settings of a listener.
#[derive(Debug)]
pub struct AdminListenerConfig {
    pub auth: AdminAuthPolicyConfig,
    pub allowed_source_cidrs: Vec<String>,
    pub rate_limit: AdminRateLimitConfig,
    pub max_retained_audit_events: usize,
}

/// A listener.
#[derive(Debug)]
pub struct ListenerResourceConfig {
    pub name: String,
    pub class: ListenerClassConfig,
    pub protocol: ListenerProtocolConfig,
    pub proxy_protocol: ProxyProtocolModeConfig,
    pub routes: Vec<String>,
    pub policies: PolicyBindingConfig,
    pub upgrade_protocols: Vec<String>,
    pub admin: AdminListenerConfig,
    /// How the listener ends TLS connections.
    pub tls_termination: Option<String>,
}

/// The socket settings of a listener, with the defaults filled in.
#[derive(Debug, Clone, Copy, PartialEq, Eq, Structural)]
pub struct ListenerSocketConfig {
    pub bind_address: SocketAddress,
    pub bind_mode: ListenerBindMode,
    pub max_connections: usize,
    pub drain_timeout_ms: u128,
    pub ends_tls: bool,
}

/// A part of a route's traffic.
#[derive(Debug)]
pub struct RouteDestinationConfig {
    pub upstream_cluster: String,
    pub weight: u32,
    pub policies: PolicyBindingConfig,
}

/// A route with all its destinations written out.
#[derive(Debug)]
pub struct RouteConfig {
    pub name: String,
    pub policies: PolicyBindingConfig,
    pub upgrade_protocols: Vec<String>,
    pub destinations: Vec<RouteDestinationConfig>,
}

/// The rule by which requests are matched to the route `label`.
#[derive(Debug)]
pub struct RoutePrefixRule {
    pub label: String,
    pub rule: String,
}

/// Whether an endpoint takes traffic.
#[derive(Debug, Clone, Copy, PartialEq, Eq, Structural)]
pub enum EndpointStateConfig {
    Ready,
    Draining,
    Unavailable,
}

/// A server behind the load balancer.
#[derive(Debug)]
pub struct UpstreamEndpointConfig {
    pub id: String,
    pub address: SocketAddress,
    pub state: EndpointStateConfig,
    pub zone: Option<String>,
    pub locality: Option<String>,
    pub weight: u32,
}

/// How an endpoint is chosen.
#[derive(Debug, Clone, Copy, PartialEq, Eq, Structural)]
pub enum LoadBalancingAlgorithmConfig {
    RoundRobin,
    WeightedRoundRobin,
    PowerOfTwoChoices,
}

/// Which endpoints are preferred by where they stand.
#[derive(Debug, Clone, Copy, PartialEq, Eq, Structural)]
pub enum LocalityRoutingConfig {
    Disabled,
    PreferLocality,
    PreferZone,
    PreferLocalityThenZone,
}

/// What happens when no endpoint is healthy.
#[derive(Debug, Clone, Copy, PartialEq, Eq, Structural)]
pub enum NoHealthyFallbackConfig {
    Fail,
    IncludeUnhealthy,
}

/// What happens when the endpoint that a client belongs to is not healthy.
#[derive(Debug, Clone, Copy, PartialEq, Eq, Structural)]
pub enum AffinityFallbackConfig {
    BalanceHealthy,
}

/// How a client is kept on one endpoint.
#[derive(Debug)]
pub enum AffinityPolicyConfig {
    HeaderHash { header_name: String, fallback: AffinityFallbackConfig },
    CookieHash { cookie_name: String, fallback: AffinityFallbackConfig },
}

/// How the traffic of a cluster is spread.
#[derive(Debug)]
pub struct UpstreamTrafficPolicyConfig {
    pub algorithm: LoadBalancingAlgorithmConfig,
    pub locality: LocalityRoutingConfig,
    pub no_healthy_fallback: NoHealthyFallbackConfig,
    pub affinity: Option<AffinityPolicyConfig>,
}

/// Servers that stand in for each other.
#[derive(Debug)]
pub struct UpstreamClusterConfig {
    pub name: String,
    pub endpoints: Vec<UpstreamEndpointConfig>,
    pub traffic_policy: UpstreamTrafficPolicyConfig,
    pub policies: PolicyBindingConfig,
}

/// What is changed in a request.
#[derive(Debug)]
pub struct RequestTransformConfig {
    pub path_rewrite: Option<String>,
    pub host_rewrite: Option<String>,
    pub header_mutations: Vec<String>,
}

/// What is changed in a response.
#[derive(Debug)]
pub struct ResponseTransformConfig {
    pub header_mutations: Vec<String>,
}

/// What is changed in requests and in responses.
#[derive(Debug)]
pub struct TransformPolicyConfig {
    pub request: RequestTransformConfig,
    pub response: ResponseTransformConfig,
}

/// What a local limit applies to.
#[derive(Debug)]
pub enum LocalLimitScopeConfig {
    Listener { name: String },
    Route { name: String },
    RouteDestination { route: String, upstream_cluster: String },
    UpstreamCluster { name: String },
}

/// What a local limit counts by.
#[derive(Debug, Clone, Copy, PartialEq, Eq, Structural)]
pub enum LocalLimitKeyKindConfig {
    Global,
    SourceIp,
    RouteName,
    UpstreamCluster,
}

/// How many requests are let through in a window of time.
#[derive(Debug)]
pub struct LocalRateLimitPolicyConfig {
    pub scope: LocalLimitScopeConfig,
    pub key_kind: LocalLimitKeyKindConfig,
    pub requests_per_window: u64,
    pub window_ms: u64,
    pub max_tracked_keys: usize,
}

/// How many requests are let through at once.
#[derive(Debug)]
pub struct LocalConcurrencyLimitPolicyConfig {
    pub scope: LocalLimitScopeConfig,
    pub key_kind: LocalLimitKeyKindConfig,
    pub max_concurrent: usize,
    pub max_tracked_keys: usize,
}

/// How many retries are allowed.
#[derive(Debug, Clone, Copy, PartialEq, Eq, Structural)]
pub struct RetryBudgetPolicyConfig {
    pub min_retry_tokens: u64,
    pub retry_percent: u64,
    pub window_ms: u64,
}

/// How long a request and its parts may take.
#[derive(Debug, Clone, Copy, PartialEq, Eq, Structural)]
pub struct TimeoutHierarchyPolicyConfig {
    pub request_timeout_ms: u64,
    pub attempt_timeout_ms: u64,
    pub per_try_timeout_ms: Option<u64>,
    pub connect_timeout_ms: u64,
    pub idle_timeout_ms: u64,
}

/// When a failing cluster is left alone.
#[derive(Debug, Clone, Copy, PartialEq, Eq, Structural)]
pub struct CircuitBreakerPolicyConfig {
    pub open_failure_threshold: u64,
    pub open_duration_ms: u64,
    pub half_open_success_threshold: u64,
}

/// A response cache in memory.
#[derive(Debug)]
pub struct HttpCachePolicyConfig {
    pub purge_enabled: bool,
    pub max_entries: usize,
    pub max_bytes: u64,
    pub max_object_bytes: u64,
    /// The rest of the policy.
    pub rules: String,
}

/// How important traffic is.
#[derive(Debug, Clone, Copy, PartialEq, Eq, Structural)]
pub enum TrafficClassConfig {
    Critical,
    Default,
    BestEffort,
}

/// A feature that is switched off under load.
#[derive(Debug)]
pub struct BrownoutFeatureConfig {
    pub name: String,
    pub priority: TrafficClassConfig,
}

/// When a listener counts as overloaded.
#[derive(Debug)]
pub struct OverloadResponsePolicyConfig {
    pub signal_window_ms: u64,
    pub constrained_signal_threshold: u64,
    pub shedding_signal_threshold: u64,
    pub brownout_signal_threshold: u64,
    pub brownout_features: Vec<BrownoutFeatureConfig>,
}

/// Which sources are counted together.
#[derive(Debug, Clone, Copy, PartialEq, Eq, Structural)]
pub enum HostileEdgeSourceAggregationConfig {
    ExactIp,
    Ipv4Subnet24,
    Ipv6Subnet64,
}

/// How many connections one source may hold.
#[derive(Debug, Clone, Copy, PartialEq, Eq, Structural)]
pub struct SourceQuotaConfig {
    pub aggregation: HostileEdgeSourceAggregationConfig,
    pub max_active_per_source: usize,
    pub max_tracked_sources: usize,
}

/// How many handshakes may be under way.
#[derive(Debug, Clone, Copy, PartialEq, Eq, Structural)]
pub struct HandshakeGuardConfig {
    pub max_inflight: usize,
    pub timeout_ms: u64,
}

/// How a listener defends itself against hostile sources.
#[derive(Debug, Clone, Copy, PartialEq, Eq, Structural)]
pub struct HostileEdgeProtectionPolicyConfig {
    pub source_quota: Option<SourceQuotaConfig>,
    pub handshake_guard: Option<HandshakeGuardConfig>,
}

/// A policy with the name that resources refer to it by.
#[derive(Debug)]
pub struct NamedPolicy<S> {
    pub name: String,
    pub spec: S,
}

/// The policies of a workspace.
#[derive(Debug)]
pub struct PolicyCatalogConfig {
    pub transforms: Vec<NamedPolicy<TransformPolicyConfig>>,
    pub traffic_mirrors: Vec<NamedPolicy<String>>,
    pub fault_injections: Vec<NamedPolicy<String>>,
    pub jwt_auth_policies: Vec<NamedPolicy<String>>,
    pub external_auth_policies: Vec<NamedPolicy<String>>,
    pub authorization_policies: Vec<NamedPolicy<String>>,
    pub upstream_identity_policies: Vec<NamedPolicy<String>>,
    pub local_rate_limits: Vec<NamedPolicy<LocalRateLimitPolicyConfig>>,
    pub local_concurrency_limits: Vec<NamedPolicy<LocalConcurrencyLimitPolicyConfig>>,
    pub retry_budgets: Vec<NamedPolicy<RetryBudgetPolicyConfig>>,
    pub timeout_hierarchies: Vec<NamedPolicy<TimeoutHierarchyPolicyConfig>>,
    pub circuit_breakers: Vec<NamedPolicy<CircuitBreakerPolicyConfig>>,
    pub http_caches: Vec<NamedPolicy<HttpCachePolicyConfig>>,
    pub overload_responses: Vec<NamedPolicy<OverloadResponsePolicyConfig>>,
    pub hostile_edge_protections: Vec<NamedPolicy<HostileEdgeProtectionPolicyConfig>>,
}

/// A workspace.
#[derive(Debug)]
pub struct WorkspaceConfig {
    pub listeners: Vec<ListenerResourceConfig>,
    pub routes: Vec<RouteConfig>,
    pub upstream_clusters: Vec<UpstreamClusterConfig>,
    pub policies: PolicyCatalogConfig,
}

/// The first policy with a name.
pub open spec fn policy_named<S>(list: Seq<NamedPolicy<S>>, name: Seq<char>) -> Option<S>
    decreases list.len(),
{
    if list.len() == 0 {
        None
    } else if list[0].name@ == name {
        Some(list[0].spec)
    } else {
        policy_named(list.drop_first(), name)
    }
}

/// The first policy with a name.
pub fn find_policy<'a, S>(list: &'a Vec<NamedPolicy<S>>, name: &str) -> (r: Option<&'a S>)
    ensures
        match policy_named(list@, name@) {
            Some(spec) => r matches Some(found) && *found == spec,
            None => r is None,
        },
{
    let mut i: usize = 0;
    proof {
        assert(list@.skip(0) =~= list@);
    }
    while i < list.len()
        invariant
            i <= list@.len(),
            policy_named(list@, name@) == policy_named(list@.skip(i as int), name@),
        decreases list@.len() - i,
    {
        if str_eq(list[i].name.as_str(), name) {
            return Some(&list[i].spec);
        }
        proof {
            assert(list@.skip(i as int).drop_first() =~= list@.skip(i + 1));
        }
        i = i + 1;
    }
    None
}

/// The first route with a name.
pub open spec fn route_named(list: Seq<RouteConfig>, name: Seq<char>) -> Option<RouteConfig>
    decreases list.len(),
{
    if list.len() == 0 {
        None
    } else if list[0].name@ == name {
        Some(list[0])
    } else {
        route_named(list.drop_first(), name)
    }
}

/// The first route with a name.
pub fn find_route<'a>(list: &'a Vec<RouteConfig>, name: &str) -> (r: Option<&'a RouteConfig>)
    ensures
        match route_named(list@, name@) {
            Some(route) => r matches Some(found) && *found == route,
            None => r is None,
        },
{
    let mut i: usize = 0;
    proof {
        assert(list@.skip(0) =~= list@);
    }
    while i < list.len()
        invariant
            i <= list@.len(),
            route_named(list@, name@) == route_named(list@.skip(i as int), name@),
        decreases list@.len() - i,
    {
        if str_eq(list[i].name.as_str(), name) {
            return Some(&list[i]);
        }
        proof {
            assert(list@.skip(i as int).drop_first() =~= list@.skip(i + 1));
        }
        i = i + 1;
    }
    None
}

/// The first matching rule with a label.
pub open spec fn rule_labelled(list: Seq<RoutePrefixRule>, label: Seq<char>) -> Option<
    RoutePrefixRule,
>
    decreases list.len(),
{
    if list.len() == 0 {
        None
    } else if list[0].label@ == label {
        Some(list[0])
    } else {
        rule_labelled(list.drop_first(), label)
    }
}

/// The first matching rule with a label.
pub fn find_rule<'a>(list: &'a Vec<RoutePrefixRule>, label: &str) -> (r: Option<
    &'a RoutePrefixRule,
>)
    ensures
        match rule_labelled(list@, label@) {
            Some(rule) => r matches Some(found) && *found == rule,
            None => r is None,
        },
{
    let mut i: usize = 0;
    proof {
        assert(list@.skip(0) =~= list@);
    }
    while i < list.len()
        invariant
            i <= list@.len(),
            rule_labelled(list@, label@) == rule_labelled(list@.skip(i as int), label@),
        decreases list@.len() - i,
    {
        if str_eq(list[i].label.as_str(), label) {
            return Some(&list[i]);
        }
        proof {
            assert(list@.skip(i as int).drop_first() =~= list@.skip(i + 1));
        }
        i = i + 1;
    }
    None
}

/// The first cluster with a name.
pub open spec fn cluster_named(list: Seq<UpstreamClusterConfig>, name: Seq<char>) -> Option<
    UpstreamClusterConfig,
>
    decreases list.len(),
{
    if list.len() == 0 {
        None
    } else if list[0].name@ == name {
        Some(list[0])
    } else {
        cluster_named(list.drop_first(), name)
    }
}

/// The first cluster with a name.
pub fn find_cluster<'a>(list: &'a Vec<UpstreamClusterConfig>, name: &str) -> (r: Option<
    &'a UpstreamClusterConfig,
>)
    ensures
        match cluster_named(list@, name@) {
            Some(cluster) => r matches Some(found) && *found == cluster && found.name@ == name@,
            None => r is None,
        },
{
    let mut i: usize = 0;
    proof {
        assert(list@.skip(0) =~= list@);
    }
    while i < list.len()
        invariant
            i <= list@.len(),
            cluster_named(list@, name@) == cluster_named(list@.skip(i as int), name@),
        decreases list@.len() - i,
    {
        if str_eq(list[i].name.as_str(), name) {
            return Some(&list[i]);
        }
        proof {
            assert(list@.skip(i as int).drop_first() =~= list@.skip(i + 1));
        }
        i = i + 1;
    }
    None
}

/// Whether an outcome is the given value or the failure with the given words.
pub open spec fn agrees<T: DeepView>(r: Result<T, ServeError>, s: Result<T::V, Seq<char>>) -> bool {
    match (r, s) {
        (Ok(value), Ok(model)) => value.deep_view() == model,
        (Err(error), Err(message)) => error.message@ == message,
        _ => false,
    }
}

} // verus!
