//! Everything that serving a workspace needs, worked out of its configuration.

use crate::addr::SocketAddress;
use crate::admin_audit::SnapshotMetadata;
use crate::admin_policy::{
    compile_admin_policy, compiles_admin, first_bad_cidr, CompiledAdminPolicy,
};
use crate::compile_policies::{
    compile_listener_abuse_protection_policy, compile_listener_overload_policy, listener_abuse,
    listener_overload, listener_request_transforms, listener_response_transforms,
    resolve_listener_request_transforms, resolve_listener_response_transforms,
    resolve_listener_upgrade_policies, route_upgrades, CompiledListenerAbuseProtectionPolicy,
    CompiledListenerOverloadPolicy,
};
use crate::compile_routes::{
    compile_mirror_backend_pools, compile_route_backends, default_route_enumeration_policy,
    enumeration_defaults, planned_pool, route_backends, PoolView, RouteBackendPoolPlan, RouteBackends,
    RouteBackendsView, RouteEnumerationProtectionPolicy,
};
use crate::config::{
    agrees, HttpCachePolicyConfig, ListenerBindMode, ListenerClassConfig, ListenerProtocolConfig,
    ListenerResourceConfig, ListenerSocketConfig, RequestTransformConfig, ResponseTransformConfig,
    RoutePrefixRule, UpstreamClusterConfig, WorkspaceConfig,
};
use crate::destination_policies::{
    check_lookups, compile_route_destination_policy_runtime, destination_plans, lookups_resolve,
    DestinationPlansView, DestinationPolicyPlans, EngineDefaults,
};
use crate::effective_policies::{
    copy_text, effective_policies, resolve_effective_route_backend_policy_diagnostics,
    EffectivePolicyView, EffectiveRouteDestinationPolicy, RequestTransformView,
    ResponseTransformView,
};
use crate::error::ServeError;
use crate::http_cache_scopes::{
    copy_cache_policy, http_cache_store_config, listener_cache_policy,
    resolve_listener_http_cache_policy,
};
use crate::named_map::NamedMap;
use crate::proxy_protocol::ProxyProtocolModeConfig;
use crate::text::text;
use vstd::prelude::*;
use vstd::string::*;

verus! {

/// What is the same for every protocol of a listener.
#[verifier::ext_equal]
pub struct ProxyCoreView {
    pub backends: RouteBackendsView,
    pub request_transform: Option<RequestTransformView>,
    pub route_request_transforms: Seq<(Seq<char>, RequestTransformView)>,
    pub response_transform: Option<ResponseTransformView>,
    pub route_response_transforms: Seq<(Seq<char>, ResponseTransformView)>,
    pub diagnostics: Map<Seq<char>, Seq<EffectivePolicyView>>,
    pub destination_policies: DestinationPlansView,
}

/// What is the same for every protocol of a listener.
pub open spec fn proxy_core(
    config: WorkspaceConfig,
    defaults: EngineDefaults,
    listener: ListenerResourceConfig,
    compiled_routes: Seq<RoutePrefixRule>,
) -> Result<ProxyCoreView, Seq<char>> {
    match route_backends(config, listener, compiled_routes) {
        Err(e) => Err(e),
        Ok(backends) => match listener_request_transforms(config, listener) {
            Err(e) => Err(e),
            Ok(request) => match listener_response_transforms(config, listener) {
                Err(e) => Err(e),
                Ok(response) => match effective_policies(config, listener) {
                    Err(e) => Err(e),
                    Ok(diagnostics) => match destination_plans(config, defaults, diagnostics) {
                        Err(e) => Err(e),
                        Ok(destination_policies) => Ok(
                            ProxyCoreView {
                                backends,
                                request_transform: request.0,
                                route_request_transforms: request.1,
                                response_transform: response.0,
                                route_response_transforms: response.1,
                                diagnostics,
                                destination_policies,
                            },
                        ),
                    },
                },
            },
        },
    }
}

/// Whether the mirroring and fault policies of a listener's destinations are there, as far as they
/// are looked up: once its backends, its transforms and its effective policies are known.
pub open spec fn proxy_lookups_resolve(
    config: WorkspaceConfig,
    defaults: EngineDefaults,
    listener: ListenerResourceConfig,
    compiled_routes: Seq<RoutePrefixRule>,
) -> bool {
    route_backends(config, listener, compiled_routes) is Ok && listener_request_transforms(
        config,
        listener,
    ) is Ok && listener_response_transforms(config, listener) is Ok ==> match effective_policies(
        config,
        listener,
    ) {
        Ok(diagnostics) => lookups_resolve(config, defaults, diagnostics),
        Err(_) => true,
    }
}

fn check_proxy_lookups(
    config: &WorkspaceConfig,
    defaults: &EngineDefaults,
    listener: &ListenerResourceConfig,
    compiled_routes: &Vec<RoutePrefixRule>,
) -> (r: bool)
    ensures
        r == proxy_lookups_resolve(*config, *defaults, *listener, compiled_routes@),
{
    if compile_route_backends(config, listener, compiled_routes).is_err() {
        return true;
    }
    if resolve_listener_request_transforms(config, listener).is_err() {
        return true;
    }
    if resolve_listener_response_transforms(config, listener).is_err() {
        return true;
    }
    match resolve_effective_route_backend_policy_diagnostics(config, listener) {
        Ok(diagnostics) => check_lookups(config, defaults, &diagnostics),
        Err(_) => true,
    }
}

/// How a listener's requests are proxied.
#[derive(Debug)]
pub struct ProxyPlan {
    pub backends: RouteBackends,
    pub mirror_pools: Vec<RouteBackendPoolPlan>,
    pub request_transform: Option<RequestTransformConfig>,
    pub route_request_transforms: Vec<(String, RequestTransformConfig)>,
    pub response_transform: Option<ResponseTransformConfig>,
    pub route_response_transforms: Vec<(String, ResponseTransformConfig)>,
    pub diagnostics: NamedMap<Vec<EffectiveRouteDestinationPolicy>>,
    pub destination_policies: DestinationPolicyPlans,
    /// The upgrade protocols of the listener and of its routes.
    pub upgrades: Option<(Vec<String>, Vec<(String, Vec<String>)>)>,
    /// The name under which upgrades are counted.
    pub upgrade_telemetry: Option<String>,
    pub response_cache: Option<HttpCachePolicyConfig>,
    pub route_enumeration: RouteEnumerationProtectionPolicy,
}

/// How a listener's requests are proxied.
#[verifier::ext_equal]
pub struct ProxyPlanView {
    pub core: ProxyCoreView,
    pub mirror_pools: Seq<PoolView>,
    pub upgrades: Option<(Seq<Seq<char>>, Seq<(Seq<char>, Seq<Seq<char>>)>)>,
    pub upgrade_telemetry: Option<Seq<char>>,
    pub response_cache: Option<HttpCachePolicyConfig>,
    pub route_enumeration: RouteEnumerationProtectionPolicy,
}

impl DeepView for ProxyPlan {
    type V = ProxyPlanView;

    open spec fn deep_view(&self) -> ProxyPlanView {
        ProxyPlanView {
            core: ProxyCoreView {
                backends: self.backends.deep_view(),
                request_transform: self.request_transform.deep_view(),
                route_request_transforms: self.route_request_transforms.deep_view(),
                response_transform: self.response_transform.deep_view(),
                route_response_transforms: self.route_response_transforms.deep_view(),
                diagnostics: self.diagnostics.deep_view(),
                destination_policies: self.destination_policies.deep_view(),
            },
            mirror_pools: self.mirror_pools.deep_view(),
            upgrades: self.upgrades.deep_view(),
            upgrade_telemetry: self.upgrade_telemetry.deep_view(),
            response_cache: self.response_cache,
            route_enumeration: self.route_enumeration,
        }
    }
}

/// The plan of a listener: upgrades and the cache are there only for the first version of HTTP.
pub open spec fn proxy_plan(
    config: WorkspaceConfig,
    defaults: EngineDefaults,
    listener: ListenerResourceConfig,
    compiled_routes: Seq<RoutePrefixRule>,
    upgrades: bool,
    telemetry: bool,
    response_cache: Option<HttpCachePolicyConfig>,
) -> Result<ProxyPlanView, Seq<char>> {
    match proxy_core(config, defaults, listener, compiled_routes) {
        Err(e) => Err(e),
        Ok(core) => Ok(
            ProxyPlanView {
                core,
                mirror_pools: config.upstream_clusters@.map_values(
                    |c: UpstreamClusterConfig| planned_pool(c),
                ),
                upgrades: if upgrades {
                    Some(
                        (
                            listener.upgrade_protocols.deep_view(),
                            route_upgrades(config, listener, listener.routes@.len()),
                        ),
                    )
                } else {
                    None
                },
                upgrade_telemetry: if telemetry {
                    Some(listener.name@)
                } else {
                    None
                },
                response_cache,
                route_enumeration: enumeration_defaults(),
            },
        ),
    }
}

fn compile_proxy_plan(
    config: &WorkspaceConfig,
    defaults: &EngineDefaults,
    listener: &ListenerResourceConfig,
    compiled_routes: &Vec<RoutePrefixRule>,
    with_upgrades: bool,
    with_telemetry: bool,
    response_cache: Option<HttpCachePolicyConfig>,
) -> (r: Result<ProxyPlan, ServeError>)
    requires
        proxy_lookups_resolve(*config, *defaults, *listener, compiled_routes@),
    ensures
        agrees(
            r,
            proxy_plan(
                *config,
                *defaults,
                *listener,
                compiled_routes@,
                with_upgrades,
                with_telemetry,
                response_cache,
            ),
        ),
{
    let backends = match compile_route_backends(config, listener, compiled_routes) {
        Ok(backends) => backends,
        Err(e) => {
            return Err(e);
        },
    };
    let mirror_pools = compile_mirror_backend_pools(config);
    let (request_transform, route_request_transforms) = match resolve_listener_request_transforms(
        config,
        listener,
    ) {
        Ok(transforms) => transforms,
        Err(e) => {
            return Err(e);
        },
    };
    let (response_transform, route_response_transforms) =
        match resolve_listener_response_transforms(config, listener) {
        Ok(transforms) => transforms,
        Err(e) => {
            return Err(e);
        },
    };
    let diagnostics = match resolve_effective_route_backend_policy_diagnostics(config, listener) {
        Ok(diagnostics) => diagnostics,
        Err(e) => {
            return Err(e);
        },
    };
    let destination_policies = match compile_route_destination_policy_runtime(
        config,
        defaults,
        &diagnostics,
    ) {
        Ok(plans) => plans,
        Err(e) => {
            return Err(e);
        },
    };
    let upgrades = if with_upgrades {
        let (own, routes) = resolve_listener_upgrade_policies(config, listener);
        proof {
            assert(own.deep_view() =~= listener.upgrade_protocols.deep_view());
        }
        Some((own, routes))
    } else {
        None
    };
    let upgrade_telemetry = if with_telemetry {
        Some(listener.name.clone())
    } else {
        None
    };
    let plan = ProxyPlan {
        backends,
        mirror_pools,
        request_transform,
        route_request_transforms,
        response_transform,
        route_response_transforms,
        diagnostics,
        destination_policies,
        upgrades,
        upgrade_telemetry,
        response_cache,
        route_enumeration: default_route_enumeration_policy(),
    };
    proof {
        let model = proxy_plan(
            *config,
            *defaults,
            *listener,
            compiled_routes@,
            with_upgrades,
            with_telemetry,
            response_cache,
        );
        assert(plan.deep_view() == model->Ok_0);
    }
    Ok(plan)
}

/// How the requests of a public listener are proxied. The first and the second version of HTTP
/// share the plan of a listener that speaks both; the second knows neither its upgrades nor its
/// cache.
#[derive(Debug)]
pub enum ManagedProxyConfig {
    Http1(ProxyPlan),
    Http2(ProxyPlan),
    Https { plan: ProxyPlan, tls: String },
    Http3 { plan: ProxyPlan, tls: String },
}

/// What a listener does with its requests.
#[derive(Debug)]
pub enum ListenerService {
    Public(ManagedProxyConfig),
    Admin { policy: CompiledAdminPolicy, tls: Option<String> },
}

/// A listener that can be started.
#[derive(Debug)]
pub struct CompiledServeListener {
    pub class: ListenerClassConfig,
    pub protocol: ListenerProtocolConfig,
    pub proxy_protocol: ProxyProtocolModeConfig,
    pub bind_address: SocketAddress,
    pub bind_mode: ListenerBindMode,
    pub max_connections: usize,
    pub drain_timeout_ms: u128,
    pub overload_policy: Option<CompiledListenerOverloadPolicy>,
    pub abuse_protection_policy: Option<CompiledListenerAbuseProtectionPolicy>,
    pub service: ListenerService,
}

/// A protocol as it is named in failures.
pub open spec fn protocol_word(protocol: ListenerProtocolConfig) -> Seq<char> {
    match protocol {
        ListenerProtocolConfig::Tcp => "Tcp"@,
        ListenerProtocolConfig::Http1 => "Http1"@,
        ListenerProtocolConfig::Https => "Https"@,
        ListenerProtocolConfig::Http2 => "Http2"@,
        ListenerProtocolConfig::Http3 => "Http3"@,
        ListenerProtocolConfig::Auto => "Auto"@,
    }
}

/// The failure of a listener whose protocol its class cannot speak.
pub open spec fn unsupported_protocol(listener: ListenerResourceConfig) -> Seq<char> {
    "listener "@ + listener.name@ + " uses unsupported "@ + (match listener.class {
        ListenerClassConfig::Public => "public"@,
        ListenerClassConfig::Admin => "admin"@,
    }) + " protocol "@ + protocol_word(listener.protocol) + " in serve mode"@
}

/// The failure of a listener that needs certificates and has none.
pub open spec fn missing_tls(listener: ListenerResourceConfig) -> Seq<char> {
    "listener "@ + listener.name@ + " is missing tls_termination"@
}

/// Whether a listener may have a response cache.
pub open spec fn may_cache(listener: ListenerResourceConfig) -> bool {
    listener.class is Public && (listener.protocol is Http1 || listener.protocol is Https)
}

/// The response cache of a listener.
pub open spec fn cache_scope(config: WorkspaceConfig, listener: ListenerResourceConfig) -> Result<
    Option<HttpCachePolicyConfig>,
    Seq<char>,
> {
    if !may_cache(listener) {
        Ok(None)
    } else {
        match listener_cache_policy(config, listener) {
            Err(e) => Err(e),
            Ok(None) => Ok(None),
            Ok(Some((name, policy))) => if policy.max_bytes > usize::MAX
                || policy.max_object_bytes > usize::MAX {
                Err("out of range integral type conversion attempted"@)
            } else {
                Ok(Some(policy))
            },
        }
    }
}

/// The plan of a public listener.
pub open spec fn public_plan(
    config: WorkspaceConfig,
    defaults: EngineDefaults,
    listener: ListenerResourceConfig,
    compiled_routes: Seq<RoutePrefixRule>,
    telemetry: bool,
    cache: Option<HttpCachePolicyConfig>,
) -> Result<ProxyPlanView, Seq<char>> {
    proxy_plan(
        config,
        defaults,
        listener,
        compiled_routes,
        !(listener.protocol is Http2),
        telemetry && (listener.protocol is Http1 || listener.protocol is Https),
        cache,
    )
}

/// Whether a listener's class can speak its protocol.
pub open spec fn supported_protocol(listener: ListenerResourceConfig) -> bool {
    let p = listener.protocol;
    match listener.class {
        ListenerClassConfig::Public => p is Http1 || p is Http2 || p is Https || p is Http3,
        ListenerClassConfig::Admin => p is Http1 || p is Https,
    }
}

/// Whether a public listener needs certificates that it does not have.
pub open spec fn lacks_tls(listener: ListenerResourceConfig, socket: ListenerSocketConfig) -> bool {
    let p = listener.protocol;
    ||| (p is Https || p is Http3) && listener.tls_termination is None
    ||| p is Https && !socket.ends_tls
}

/// Why a listener cannot be compiled, where it cannot.
pub open spec fn listener_fault(
    config: WorkspaceConfig,
    defaults: EngineDefaults,
    listener: ListenerResourceConfig,
    socket: ListenerSocketConfig,
    compiled_routes: Seq<RoutePrefixRule>,
) -> Option<Seq<char>> {
    match cache_scope(config, listener) {
        Err(e) => Some(e),
        Ok(_) => if !supported_protocol(listener) {
            Some(unsupported_protocol(listener))
        } else if listener_overload(config, listener) is Err {
            Some(listener_overload(config, listener)->Err_0)
        } else if listener_abuse(config, listener) is Err {
            Some(listener_abuse(config, listener)->Err_0)
        } else {
            match listener.class {
                ListenerClassConfig::Public => if lacks_tls(listener, socket) {
                    Some(missing_tls(listener))
                } else {
                    match proxy_core(config, defaults, listener, compiled_routes) {
                        Err(e) => Some(e),
                        Ok(_) => None,
                    }
                },
                ListenerClassConfig::Admin => if first_bad_cidr(
                    listener.admin.allowed_source_cidrs@,
                ) is Some {
                    Some("invalid IP address syntax"@)
                } else if listener.protocol is Https && listener.tls_termination is None {
                    Some(missing_tls(listener))
                } else {
                    None
                },
            }
        },
    }
}

/// Whether the mirroring and fault policies of a listener's destinations are there, as far as they
/// are looked up: only for a public listener with nothing else amiss before.
pub open spec fn listener_lookups_resolve(
    config: WorkspaceConfig,
    defaults: EngineDefaults,
    listener: ListenerResourceConfig,
    socket: ListenerSocketConfig,
    compiled_routes: Seq<RoutePrefixRule>,
) -> bool {
    listener.class is Public && cache_scope(config, listener) is Ok && supported_protocol(listener)
        && listener_overload(config, listener) is Ok && listener_abuse(config, listener) is Ok
        && !lacks_tls(listener, socket) ==> proxy_lookups_resolve(
        config,
        defaults,
        listener,
        compiled_routes,
    )
}

/// Whether a service is what a listener's configuration says.
pub open spec fn compiles_service(
    config: WorkspaceConfig,
    defaults: EngineDefaults,
    listener: ListenerResourceConfig,
    compiled_routes: Seq<RoutePrefixRule>,
    telemetry: bool,
    service: ListenerService,
) -> bool {
    let plan = public_plan(
        config,
        defaults,
        listener,
        compiled_routes,
        telemetry,
        cache_scope(config, listener)->Ok_0,
    );
    match listener.class {
        ListenerClassConfig::Public => {
            &&& service matches ListenerService::Public(proxy)
            &&& match listener.protocol {
                ListenerProtocolConfig::Http1 => proxy matches ManagedProxyConfig::Http1(p)
                    && p.deep_view() == plan->Ok_0,
                ListenerProtocolConfig::Http2 => proxy matches ManagedProxyConfig::Http2(p)
                    && p.deep_view() == plan->Ok_0,
                ListenerProtocolConfig::Https => {
                    &&& proxy matches ManagedProxyConfig::Https { plan: p, tls }
                    &&& p.deep_view() == plan->Ok_0
                    &&& listener.tls_termination == Some(tls)
                },
                ListenerProtocolConfig::Http3 => {
                    &&& proxy matches ManagedProxyConfig::Http3 { plan: p, tls }
                    &&& p.deep_view() == plan->Ok_0
                    &&& listener.tls_termination == Some(tls)
                },
                _ => false,
            }
        },
        ListenerClassConfig::Admin => {
            &&& service matches ListenerService::Admin { policy, tls }
            &&& compiles_admin(listener, policy)
            &&& tls == (if listener.protocol is Https {
                listener.tls_termination
            } else {
                None
            })
        },
    }
}

/// Whether a compiled listener is what its configuration says.
pub open spec fn compiles_listener(
    config: WorkspaceConfig,
    defaults: EngineDefaults,
    listener: ListenerResourceConfig,
    socket: ListenerSocketConfig,
    compiled_routes: Seq<RoutePrefixRule>,
    telemetry: bool,
    compiled: CompiledServeListener,
) -> bool {
    &&& compiled.class == listener.class
    &&& compiled.protocol == listener.protocol
    &&& compiled.proxy_protocol == listener.proxy_protocol
    &&& compiled.bind_address == socket.bind_address
    &&& compiled.bind_mode == socket.bind_mode
    &&& compiled.max_connections == socket.max_connections
    &&& compiled.drain_timeout_ms == socket.drain_timeout_ms
    &&& compiled.overload_policy.deep_view() == listener_overload(config, listener)->Ok_0
    &&& compiled.abuse_protection_policy == listener_abuse(config, listener)->Ok_0
    &&& compiles_service(
        config,
        defaults,
        listener,
        compiled_routes,
        telemetry,
        compiled.service,
    )
}

fn protocol_in_words(protocol: ListenerProtocolConfig) -> (r: &'static str)
    ensures
        r@ == protocol_word(protocol),
{
    match protocol {
        ListenerProtocolConfig::Tcp => "Tcp",
        ListenerProtocolConfig::Http1 => "Http1",
        ListenerProtocolConfig::Https => "Https",
        ListenerProtocolConfig::Http2 => "Http2",
        ListenerProtocolConfig::Http3 => "Http3",
        ListenerProtocolConfig::Auto => "Auto",
    }
}

fn check_protocol(listener: &ListenerResourceConfig) -> (r: bool)
    ensures
        r == supported_protocol(*listener),
{
    match (listener.class, listener.protocol) {
        (ListenerClassConfig::Public, ListenerProtocolConfig::Http1) => true,
        (ListenerClassConfig::Public, ListenerProtocolConfig::Http2) => true,
        (ListenerClassConfig::Public, ListenerProtocolConfig::Https) => true,
        (ListenerClassConfig::Public, ListenerProtocolConfig::Http3) => true,
        (ListenerClassConfig::Admin, ListenerProtocolConfig::Http1) => true,
        (ListenerClassConfig::Admin, ListenerProtocolConfig::Https) => true,
        _ => false,
    }
}

fn check_tls_is_lacking(
    listener: &ListenerResourceConfig,
    socket: &ListenerSocketConfig,
) -> (r: bool)
    ensures
        r == lacks_tls(*listener, *socket),
{
    match listener.protocol {
        ListenerProtocolConfig::Https => listener.tls_termination.is_none() || !socket.ends_tls,
        ListenerProtocolConfig::Http3 => listener.tls_termination.is_none(),
        _ => false,
    }
}

fn unsupported_protocol_error(listener: &ListenerResourceConfig) -> (r: ServeError)
    ensures
        r.message@ == unsupported_protocol(*listener),
{
    let mut message = text("listener ");
    message.append(listener.name.as_str());
    message.append(" uses unsupported ");
    match listener.class {
        ListenerClassConfig::Public => {
            message.append("public");
        },
        ListenerClassConfig::Admin => {
            message.append("admin");
        },
    }
    message.append(" protocol ");
    message.append(protocol_in_words(listener.protocol));
    message.append(" in serve mode");
    ServeError { message }
}

fn missing_tls_error(listener: &ListenerResourceConfig) -> (r: ServeError)
    ensures
        r.message@ == missing_tls(*listener),
{
    let mut message = text("listener ");
    message.append(listener.name.as_str());
    message.append(" is missing tls_termination");
    ServeError { message }
}

fn resolve_cache_scope(config: &WorkspaceConfig, listener: &ListenerResourceConfig) -> (r: Result<
    Option<HttpCachePolicyConfig>,
    ServeError,
>)
    ensures
        agrees(r, cache_scope(*config, *listener)),
{
    let may = match (listener.class, listener.protocol) {
        (ListenerClassConfig::Public, ListenerProtocolConfig::Http1) => true,
        (ListenerClassConfig::Public, ListenerProtocolConfig::Https) => true,
        _ => false,
    };
    if !may {
        return Ok(None);
    }
    match resolve_listener_http_cache_policy(config, listener) {
        Err(e) => Err(e),
        Ok(None) => Ok(None),
        Ok(Some((_, policy))) => match http_cache_store_config(&policy) {
            Ok(_) => Ok(Some(policy)),
            Err(e) => Err(e),
        },
    }
}

fn check_listener_lookups(
    config: &WorkspaceConfig,
    defaults: &EngineDefaults,
    listener: &ListenerResourceConfig,
    socket: &ListenerSocketConfig,
    compiled_routes: &Vec<RoutePrefixRule>,
) -> (r: bool)
    ensures
        r == listener_lookups_resolve(*config, *defaults, *listener, *socket, compiled_routes@),
{
    match listener.class {
        ListenerClassConfig::Public => {},
        ListenerClassConfig::Admin => {
            return true;
        },
    }
    if resolve_cache_scope(config, listener).is_err() || !check_protocol(listener) {
        return true;
    }
    if compile_listener_overload_policy(config, listener).is_err() {
        return true;
    }
    if compile_listener_abuse_protection_policy(config, listener).is_err() {
        return true;
    }
    if check_tls_is_lacking(listener, socket) {
        return true;
    }
    check_proxy_lookups(config, defaults, listener, compiled_routes)
}

fn copy_cache(cache: &Option<HttpCachePolicyConfig>) -> (r: Option<HttpCachePolicyConfig>)
    ensures
        r == *cache,
{
    match cache {
        Some(policy) => Some(copy_cache_policy(policy)),
        None => None,
    }
}

fn compile_public_service(
    config: &WorkspaceConfig,
    defaults: &EngineDefaults,
    listener: &ListenerResourceConfig,
    socket: &ListenerSocketConfig,
    compiled_routes: &Vec<RoutePrefixRule>,
    telemetry: bool,
    cache: &Option<HttpCachePolicyConfig>,
) -> (r: Result<ListenerService, ServeError>)
    requires
        listener_lookups_resolve(*config, *defaults, *listener, *socket, compiled_routes@),
        listener.class is Public,
        cache_scope(*config, *listener) == Ok::<Option<HttpCachePolicyConfig>, Seq<char>>(*cache),
        listener_overload(*config, *listener) is Ok,
        listener_abuse(*config, *listener) is Ok,
        listener.protocol is Http1 || listener.protocol is Http2 || listener.protocol is Https
            || listener.protocol is Http3,
    ensures
        match listener_fault(*config, *defaults, *listener, *socket, compiled_routes@) {
            None => r matches Ok(service) && compiles_service(
                *config,
                *defaults,
                *listener,
                compiled_routes@,
                telemetry,
                service,
            ),
            Some(message) => r matches Err(e) && e.message@ == message,
        },
{
    if check_tls_is_lacking(listener, socket) {
        return Err(missing_tls_error(listener));
    }
    let upgrades = match listener.protocol {
        ListenerProtocolConfig::Http2 => false,
        _ => true,
    };
    let counted = match listener.protocol {
        ListenerProtocolConfig::Http1 => telemetry,
        ListenerProtocolConfig::Https => telemetry,
        _ => false,
    };
    let plan = match compile_proxy_plan(
        config,
        defaults,
        listener,
        compiled_routes,
        upgrades,
        counted,
        copy_cache(cache),
    ) {
        Ok(plan) => plan,
        Err(e) => {
            return Err(e);
        },
    };
    match (listener.protocol, &listener.tls_termination) {
        (ListenerProtocolConfig::Http1, _) => Ok(
            ListenerService::Public(ManagedProxyConfig::Http1(plan)),
        ),
        (ListenerProtocolConfig::Http2, _) => Ok(
            ListenerService::Public(ManagedProxyConfig::Http2(plan)),
        ),
        (ListenerProtocolConfig::Https, Some(tls)) => Ok(
            ListenerService::Public(ManagedProxyConfig::Https { plan, tls: tls.clone() }),
        ),
        (ListenerProtocolConfig::Http3, Some(tls)) => Ok(
            ListenerService::Public(ManagedProxyConfig::Http3 { plan, tls: tls.clone() }),
        ),
        _ => Err(missing_tls_error(listener)),
    }
}

fn compile_admin_service(listener: &ListenerResourceConfig) -> (r: Result<
    ListenerService,
    ServeError,
>)
    requires
        listener.class is Admin,
        listener.protocol is Http1 || listener.protocol is Https,
    ensures
        match r {
            Ok(service) => {
                &&& first_bad_cidr(listener.admin.allowed_source_cidrs@) is None
                &&& !(listener.protocol is Https && listener.tls_termination is None)
                &&& service matches ListenerService::Admin { policy, tls }
                &&& compiles_admin(*listener, policy)
                &&& tls == (if listener.protocol is Https {
                    listener.tls_termination
                } else {
                    None
                })
            },
            Err(e) => if first_bad_cidr(listener.admin.allowed_source_cidrs@) is Some {
                e.message@ == "invalid IP address syntax"@
            } else {
                &&& listener.protocol is Https && listener.tls_termination is None
                &&& e.message@ == missing_tls(*listener)
            },
        },
{
    let policy = match compile_admin_policy(listener) {
        Ok(policy) => policy,
        Err(e) => {
            return Err(e);
        },
    };
    match listener.protocol {
        ListenerProtocolConfig::Https => {
            if listener.tls_termination.is_none() {
                return Err(missing_tls_error(listener));
            }
            Ok(ListenerService::Admin { policy, tls: copy_text(&listener.tls_termination) })
        },
        _ => Ok(ListenerService::Admin { policy, tls: None }),
    }
}

fn compile_listener(
    config: &WorkspaceConfig,
    defaults: &EngineDefaults,
    listener: &ListenerResourceConfig,
    socket: &ListenerSocketConfig,
    compiled_routes: &Vec<RoutePrefixRule>,
    telemetry: bool,
) -> (r: Result<(CompiledServeListener, Option<HttpCachePolicyConfig>), ServeError>)
    requires
        listener_lookups_resolve(*config, *defaults, *listener, *socket, compiled_routes@),
    ensures
        match listener_fault(*config, *defaults, *listener, *socket, compiled_routes@) {
            None => {
                &&& r matches Ok((compiled, cache))
                &&& compiles_listener(
                    *config,
                    *defaults,
                    *listener,
                    *socket,
                    compiled_routes@,
                    telemetry,
                    compiled,
                )
                &&& cache_scope(*config, *listener) == Ok::<
                    Option<HttpCachePolicyConfig>,
                    Seq<char>,
                >(cache)
            },
            Some(message) => r matches Err(e) && e.message@ == message,
        },
{
    let cache = match resolve_cache_scope(config, listener) {
        Ok(cache) => cache,
        Err(e) => {
            return Err(e);
        },
    };
    if !check_protocol(listener) {
        return Err(unsupported_protocol_error(listener));
    }
    let overload_policy = match compile_listener_overload_policy(config, listener) {
        Ok(policy) => policy,
        Err(e) => {
            return Err(e);
        },
    };
    let abuse_protection_policy = match compile_listener_abuse_protection_policy(config, listener) {
        Ok(policy) => policy,
        Err(e) => {
            return Err(e);
        },
    };
    proof {
        assert(abuse_protection_policy.deep_view() == abuse_protection_policy);
    }
    let compiled_service = match listener.class {
        ListenerClassConfig::Public => compile_public_service(
            config,
            defaults,
            listener,
            socket,
            compiled_routes,
            telemetry,
            &cache,
        ),
        ListenerClassConfig::Admin => compile_admin_service(listener),
    };
    let service = match compiled_service {
        Ok(service) => service,
        Err(e) => {
            return Err(e);
        },
    };
    let compiled = CompiledServeListener {
        class: listener.class,
        protocol: listener.protocol,
        proxy_protocol: listener.proxy_protocol,
        bind_address: socket.bind_address,
        bind_mode: socket.bind_mode,
        max_connections: socket.max_connections,
        drain_timeout_ms: socket.drain_timeout_ms,
        overload_policy,
        abuse_protection_policy,
        service,
    };
    Ok((compiled, cache))
}

/// A workspace that can be served.
#[derive(Debug)]
pub struct CompiledWorkspaceRuntime {
    pub source_label: String,
    pub snapshot: SnapshotMetadata,
    pub listeners: NamedMap<CompiledServeListener>,
    pub http_cache_scopes: NamedMap<HttpCachePolicyConfig>,
}

/// The last of the first `n` listeners with a name.
pub open spec fn last_listener(
    listeners: Seq<ListenerResourceConfig>,
    n: nat,
    name: Seq<char>,
) -> Option<int>
    decreases n,
{
    if n == 0 {
        None
    } else if listeners[n - 1].name@ == name {
        Some(n - 1)
    } else {
        last_listener(listeners, (n - 1) as nat, name)
    }
}

/// The last of the first `n` listeners with a name and a response cache.
pub open spec fn last_cached_listener(config: WorkspaceConfig, n: nat, name: Seq<char>) -> Option<
    int,
>
    decreases n,
{
    if n == 0 {
        None
    } else if config.listeners@[n - 1].name@ == name && cache_scope(
        config,
        config.listeners@[n - 1],
    ) matches Ok(Some(policy)) {
        Some(n - 1)
    } else {
        last_cached_listener(config, (n - 1) as nat, name)
    }
}

/// Why the first `n` listeners of a workspace cannot be compiled, where they cannot: the fault of
/// the first of them that has one.
pub open spec fn workspace_fault(
    config: WorkspaceConfig,
    defaults: EngineDefaults,
    sockets: Seq<ListenerSocketConfig>,
    compiled_routes: Seq<RoutePrefixRule>,
    n: nat,
) -> Option<Seq<char>>
    decreases n,
{
    if n == 0 {
        None
    } else {
        match workspace_fault(config, defaults, sockets, compiled_routes, (n - 1) as nat) {
            Some(message) => Some(message),
            None => listener_fault(
                config,
                defaults,
                config.listeners@[n - 1],
                sockets[n - 1],
                compiled_routes,
            ),
        }
    }
}

/// Whether a map holds the last of the first `n` listeners with a name, compiled.
pub open spec fn holds_listener(
    config: WorkspaceConfig,
    defaults: EngineDefaults,
    sockets: Seq<ListenerSocketConfig>,
    compiled_routes: Seq<RoutePrefixRule>,
    telemetry: bool,
    n: nat,
    listeners: Map<Seq<char>, CompiledServeListener>,
    name: Seq<char>,
) -> bool {
    match last_listener(config.listeners@, n, name) {
        Some(i) => listeners.contains_key(name) && compiles_listener(
            config,
            defaults,
            config.listeners@[i],
            sockets[i],
            compiled_routes,
            telemetry,
            listeners[name],
        ),
        None => !listeners.contains_key(name),
    }
}

/// Whether a map holds the cache of the last of the first `n` listeners with a name and a cache.
pub open spec fn holds_cache(
    config: WorkspaceConfig,
    n: nat,
    caches: Map<Seq<char>, HttpCachePolicyConfig>,
    name: Seq<char>,
) -> bool {
    match last_cached_listener(config, n, name) {
        Some(i) => {
            &&& caches.contains_key(name)
            &&& cache_scope(config, config.listeners@[i]) == Ok::<
                Option<HttpCachePolicyConfig>,
                Seq<char>,
            >(Some(caches[name]))
        },
        None => !caches.contains_key(name),
    }
}

/// Whether maps hold the compiled listeners and the caches of the first `n` listeners by their
/// names.
pub open spec fn holds_listeners(
    config: WorkspaceConfig,
    defaults: EngineDefaults,
    sockets: Seq<ListenerSocketConfig>,
    compiled_routes: Seq<RoutePrefixRule>,
    telemetry: bool,
    n: nat,
    listeners: Map<Seq<char>, CompiledServeListener>,
    caches: Map<Seq<char>, HttpCachePolicyConfig>,
) -> bool {
    &&& forall|name: Seq<char>| #[trigger]
        holds_listener(
            config,
            defaults,
            sockets,
            compiled_routes,
            telemetry,
            n,
            listeners,
            name,
        )
    &&& forall|name: Seq<char>| #[trigger] holds_cache(config, n, caches, name)
}

proof fn lemma_workspace_faults_early(
    config: WorkspaceConfig,
    defaults: EngineDefaults,
    sockets: Seq<ListenerSocketConfig>,
    compiled_routes: Seq<RoutePrefixRule>,
    n: nat,
    m: nat,
)
    requires
        n <= m,
        workspace_fault(config, defaults, sockets, compiled_routes, n) is Some,
    ensures
        workspace_fault(config, defaults, sockets, compiled_routes, m) == workspace_fault(
            config,
            defaults,
            sockets,
            compiled_routes,
            n,
        ),
    decreases m,
{
    if n < m {
        lemma_workspace_faults_early(
            config,
            defaults,
            sockets,
            compiled_routes,
            n,
            (m - 1) as nat,
        );
    }
}

proof fn lemma_one_listener_more(
    config: WorkspaceConfig,
    defaults: EngineDefaults,
    sockets: Seq<ListenerSocketConfig>,
    compiled_routes: Seq<RoutePrefixRule>,
    telemetry: bool,
    i: nat,
    before: Map<Seq<char>, CompiledServeListener>,
    cached: Map<Seq<char>, HttpCachePolicyConfig>,
    compiled: CompiledServeListener,
    cache: Option<HttpCachePolicyConfig>,
)
    requires
        holds_listeners(
            config,
            defaults,
            sockets,
            compiled_routes,
            telemetry,
            i,
            before,
            cached,
        ),
        compiles_listener(
            config,
            defaults,
            config.listeners@[i as int],
            sockets[i as int],
            compiled_routes,
            telemetry,
            compiled,
        ),
        cache_scope(config, config.listeners@[i as int]) == Ok::<
            Option<HttpCachePolicyConfig>,
            Seq<char>,
        >(cache),
    ensures
        holds_listeners(
            config,
            defaults,
            sockets,
            compiled_routes,
            telemetry,
            (i + 1) as nat,
            before.insert(config.listeners@[i as int].name@, compiled),
            match cache {
                Some(policy) => cached.insert(config.listeners@[i as int].name@, policy),
                None => cached,
            },
        ),
{
    let key = config.listeners@[i as int].name@;
    let after = before.insert(key, compiled);
    let scopes = match cache {
        Some(policy) => cached.insert(key, policy),
        None => cached,
    };
    assert forall|name: Seq<char>| #[trigger]
        holds_listener(
            config,
            defaults,
            sockets,
            compiled_routes,
            telemetry,
            (i + 1) as nat,
            after,
            name,
        ) by {
        assert(holds_listener(
            config,
            defaults,
            sockets,
            compiled_routes,
            telemetry,
            i,
            before,
            name,
        ));
    }
    assert forall|name: Seq<char>| #[trigger]
        holds_cache(config, (i + 1) as nat, scopes, name) by {
        assert(holds_cache(config, i, cached, name));
    }
}

/// How many listeners of a workspace have their socket settings.
pub open spec fn paired(config: WorkspaceConfig, sockets: Seq<ListenerSocketConfig>) -> nat {
    if config.listeners@.len() <= sockets.len() {
        config.listeners@.len()
    } else {
        sockets.len()
    }
}

/// Whether the mirroring and fault policies of a workspace's destinations are there, as far as
/// compiling it looks them up: those of a listener, when the listeners before it are compiled.
pub open spec fn references_resolve(
    config: WorkspaceConfig,
    defaults: EngineDefaults,
    sockets: Seq<ListenerSocketConfig>,
    compiled_routes: Seq<RoutePrefixRule>,
) -> bool {
    forall|i: int|
        0 <= i < paired(config, sockets) && workspace_fault(
            config,
            defaults,
            sockets,
            compiled_routes,
            i as nat,
        ) is None ==> listener_lookups_resolve(
            config,
            defaults,
            #[trigger] config.listeners@[i],
            sockets[i],
            compiled_routes,
        )
}

/// Checks that the mirroring and fault policies of a workspace's destinations are there, as far as
/// compiling it looks them up.
pub fn check_references(
    config: &WorkspaceConfig,
    sockets: &Vec<ListenerSocketConfig>,
    compiled_routes: &Vec<RoutePrefixRule>,
    defaults: &EngineDefaults,
) -> (r: bool)
    ensures
        r == references_resolve(*config, *defaults, sockets@, compiled_routes@),
{
    let ghost total = paired(*config, sockets@);
    let mut i: usize = 0;
    while i < config.listeners.len() && i < sockets.len()
        invariant
            total == paired(*config, sockets@),
            i <= total,
            workspace_fault(*config, *defaults, sockets@, compiled_routes@, i as nat) is None,
            forall|j: int|
                0 <= j < i ==> listener_lookups_resolve(
                    *config,
                    *defaults,
                    #[trigger] config.listeners@[j],
                    sockets@[j],
                    compiled_routes@,
                ),
        decreases total - i,
    {
        let listener = &config.listeners[i];
        if !check_listener_lookups(config, defaults, listener, &sockets[i], compiled_routes) {
            return false;
        }
        if compile_listener(
            config,
            defaults,
            listener,
            &sockets[i],
            compiled_routes,
            false,
        ).is_err() {
            proof {
                assert forall|j: int|
                    0 <= j < total && workspace_fault(
                        *config,
                        *defaults,
                        sockets@,
                        compiled_routes@,
                        j as nat,
                    ) is None implies listener_lookups_resolve(
                    *config,
                    *defaults,
                    #[trigger] config.listeners@[j],
                    sockets@[j],
                    compiled_routes@,
                ) by {
                    if i < j {
                        lemma_workspace_faults_early(
                            *config,
                            *defaults,
                            sockets@,
                            compiled_routes@,
                            (i + 1) as nat,
                            j as nat,
                        );
                    }
                }
            }
            return true;
        }
        i = i + 1;
    }
    true
}

/// Whether an outcome is what compiling a workspace gives.
pub open spec fn compiles_workspace(
    config_path: Seq<char>,
    snapshot: SnapshotMetadata,
    config: WorkspaceConfig,
    sockets: Seq<ListenerSocketConfig>,
    compiled_routes: Seq<RoutePrefixRule>,
    defaults: EngineDefaults,
    telemetry: bool,
    outcome: Result<CompiledWorkspaceRuntime, ServeError>,
) -> bool {
    let n = paired(config, sockets);
    match workspace_fault(config, defaults, sockets, compiled_routes, n) {
        Some(message) => outcome matches Err(e) && e.message@ == message,
        None => {
            &&& outcome matches Ok(compiled)
            &&& compiled.source_label@ == "config_path="@ + config_path
            &&& compiled.snapshot == snapshot
            &&& holds_listeners(
                config,
                defaults,
                sockets,
                compiled_routes,
                telemetry,
                n,
                compiled.listeners@,
                compiled.http_cache_scopes@,
            )
        },
    }
}

/// Works out what serving a workspace needs. `sockets` are the socket settings of its listeners
/// and `compiled_routes` the matching rules of its routes; with `telemetry`, upgrades are counted
/// under the listeners' names.
pub fn compile_workspace_runtime_with_telemetry(
    config_path: &str,
    snapshot: SnapshotMetadata,
    config: &WorkspaceConfig,
    sockets: &Vec<ListenerSocketConfig>,
    compiled_routes: &Vec<RoutePrefixRule>,
    defaults: &EngineDefaults,
    telemetry: bool,
) -> (r: Result<CompiledWorkspaceRuntime, ServeError>)
    requires
        references_resolve(*config, *defaults, sockets@, compiled_routes@),
    ensures
        compiles_workspace(
            config_path@,
            snapshot,
            *config,
            sockets@,
            compiled_routes@,
            *defaults,
            telemetry,
            r,
        ),
{
    let mut listeners: NamedMap<CompiledServeListener> = NamedMap::new();
    let mut http_cache_scopes: NamedMap<HttpCachePolicyConfig> = NamedMap::new();
    let ghost total = paired(*config, sockets@);
    let mut i: usize = 0;
    while i < config.listeners.len() && i < sockets.len()
        invariant
            references_resolve(*config, *defaults, sockets@, compiled_routes@),
            total == paired(*config, sockets@),
            i <= total,
            workspace_fault(*config, *defaults, sockets@, compiled_routes@, i as nat) is None,
            holds_listeners(
                *config,
                *defaults,
                sockets@,
                compiled_routes@,
                telemetry,
                i as nat,
                listeners@,
                http_cache_scopes@,
            ),
        decreases total - i,
    {
        let listener = &config.listeners[i];
        let ghost before = listeners@;
        let ghost cached = http_cache_scopes@;
        match compile_listener(
            config,
            defaults,
            listener,
            &sockets[i],
            compiled_routes,
            telemetry,
        ) {
            Ok((compiled, cache)) => {
                let ghost scope = cache;
                match cache {
                    Some(policy) => {
                        http_cache_scopes.insert(listener.name.clone(), policy);
                    },
                    None => {},
                }
                listeners.insert(listener.name.clone(), compiled);
                proof {
                    lemma_one_listener_more(
                        *config,
                        *defaults,
                        sockets@,
                        compiled_routes@,
                        telemetry,
                        i as nat,
                        before,
                        cached,
                        compiled,
                        scope,
                    );
                }
            },
            Err(e) => {
                proof {
                    lemma_workspace_faults_early(
                        *config,
                        *defaults,
                        sockets@,
                        compiled_routes@,
                        (i + 1) as nat,
                        total,
                    );
                }
                return Err(e);
            },
        }
        i = i + 1;
    }
    let mut source_label = text("config_path=");
    source_label.append(config_path);
    Ok(CompiledWorkspaceRuntime { source_label, snapshot, listeners, http_cache_scopes })
}

/// Works out what serving a workspace needs, without counting upgrades.
pub fn compile_workspace_runtime(
    config_path: &str,
    snapshot: SnapshotMetadata,
    config: &WorkspaceConfig,
    sockets: &Vec<ListenerSocketConfig>,
    compiled_routes: &Vec<RoutePrefixRule>,
    defaults: &EngineDefaults,
) -> (r: Result<CompiledWorkspaceRuntime, ServeError>)
    requires
        references_resolve(*config, *defaults, sockets@, compiled_routes@),
    ensures
        compiles_workspace(
            config_path@,
            snapshot,
            *config,
            sockets@,
            compiled_routes@,
            *defaults,
            false,
            r,
        ),
{
    compile_workspace_runtime_with_telemetry(
        config_path,
        snapshot,
        config,
        sockets,
        compiled_routes,
        defaults,
        false,
    )
}

/// Works out what serving a workspace needs, or gives nothing where that comes to look up a
/// mirroring or fault policy that is not there.
pub fn compile_resolved_workspace_runtime(
    config_path: &str,
    snapshot: SnapshotMetadata,
    config: &WorkspaceConfig,
    sockets: &Vec<ListenerSocketConfig>,
    compiled_routes: &Vec<RoutePrefixRule>,
    defaults: &EngineDefaults,
    telemetry: bool,
) -> (r: Option<Result<CompiledWorkspaceRuntime, ServeError>>)
    ensures
        match r {
            Some(outcome) => {
                &&& references_resolve(*config, *defaults, sockets@, compiled_routes@)
                &&& compiles_workspace(
                    config_path@,
                    snapshot,
                    *config,
                    sockets@,
                    compiled_routes@,
                    *defaults,
                    telemetry,
                    outcome,
                )
            },
            None => !references_resolve(*config, *defaults, sockets@, compiled_routes@),
        },
{
    if !check_references(config, sockets, compiled_routes, defaults) {
        return None;
    }
    if telemetry {
        Some(
            compile_workspace_runtime_with_telemetry(
                config_path,
                snapshot,
                config,
                sockets,
                compiled_routes,
                defaults,
                true,
            ),
        )
    } else {
        Some(
            compile_workspace_runtime(
                config_path,
                snapshot,
                config,
                sockets,
                compiled_routes,
                defaults,
            ),
        )
    }
}

} // verus!
