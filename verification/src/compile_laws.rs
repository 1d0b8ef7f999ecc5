//! What holds of every compiled workspace: each listener serves what its configuration says.

use crate::admin_audit::SnapshotMetadata;
use crate::admin_policy::{
    first_bad_cidr, grants, holds_operators, last_operator, AdminPermission,
    CompiledAdminAuthPolicy, CompiledAdminOperator, PermissionSet,
};
use crate::backend_laws::{
    backends_are_refused_only_for_a_reason, pool_follows, pools_are_as_configured,
    requests_are_shared_as_configured, route_is_served,
};
use crate::cidr::cidr_named;
use crate::compile_policies::{
    listener_abuse, listener_overload, listener_request_transforms, listener_response_transforms,
    route_request_transforms, route_response_transforms, route_upgrades,
    CompiledListenerAbuseProtectionPolicy, OverloadPolicyView,
};
use crate::compile_routes::route_backends;
use crate::compile_runtime::{
    cache_scope, compiles_listener, compiles_workspace, holds_cache, holds_listener,
    last_cached_listener, last_listener, listener_fault, paired, proxy_core, workspace_fault,
    CompiledWorkspaceRuntime, ListenerService, ManagedProxyConfig, ProxyPlan,
};
use crate::config::{
    policy_named, route_named, AdminAuthPolicyConfig, AdminAuthorizationScopeConfig,
    AdminOperatorConfig, HostileEdgeProtectionPolicyConfig, HttpCachePolicyConfig,
    ListenerResourceConfig, ListenerSocketConfig, OverloadResponsePolicyConfig, RoutePrefixRule,
    WorkspaceConfig,
};
use crate::destination_laws::{
    destinations_are_refused_only_for_a_reason, destinations_are_treated_by_their_policies,
    route_is_served_by, route_limits_are_there, route_plans_follow, shared_follows,
};
use crate::destination_policies::{destination_plans, EngineDefaults};
use crate::effective_policies::{effective_policies, RequestTransformView, ResponseTransformView};
use crate::error::ServeError;
use crate::http_cache_scopes::route_cache_names;
use crate::layer_laws::{
    policies_are_in_force_for_named_routes, policies_are_refused_only_for_a_reason,
    policies_in_force_are_the_innermost, policy_follows, request_changes, response_changes,
    route_is_complete, transform_is_there,
};
use crate::lookups::{found_route_is_first, is_first_cluster, is_first_route};
use vstd::prelude::*;

verus! {

/// All that a workspace is compiled from.
pub struct WorkspaceInput {
    pub config_path: Seq<char>,
    pub snapshot: SnapshotMetadata,
    pub config: WorkspaceConfig,
    pub sockets: Seq<ListenerSocketConfig>,
    pub compiled_routes: Seq<RoutePrefixRule>,
    pub defaults: EngineDefaults,
    pub telemetry: bool,
}

impl WorkspaceInput {
    /// Whether an outcome is that of compiling the workspace.
    pub open spec fn gives(self, outcome: Result<CompiledWorkspaceRuntime, ServeError>) -> bool {
        compiles_workspace(
            self.config_path,
            self.snapshot,
            self.config,
            self.sockets,
            self.compiled_routes,
            self.defaults,
            self.telemetry,
            outcome,
        )
    }

    /// Whether the listener at a place has socket settings and is the last with its name.
    pub open spec fn decides(self, i: int) -> bool {
        &&& 0 <= i < self.config.listeners@.len()
        &&& i < self.sockets.len()
        &&& forall|k: int|
            i < k < self.config.listeners@.len() && k < self.sockets.len() ==> (
            #[trigger] self.config.listeners@[k]).name@ != self.config.listeners@[i].name@
    }
}

proof fn lemma_last_listener(listeners: Seq<ListenerResourceConfig>, n: nat, i: int)
    requires
        0 <= i < n <= listeners.len(),
        forall|k: int| i < k < n ==> (#[trigger] listeners[k]).name@ != listeners[i].name@,
    ensures
        last_listener(listeners, n, listeners[i].name@) == Some(i),
    decreases n,
{
    if i < n - 1 {
        assert(listeners[n - 1].name@ != listeners[i].name@);
        lemma_last_listener(listeners, (n - 1) as nat, i);
    }
}

proof fn lemma_no_listener(listeners: Seq<ListenerResourceConfig>, n: nat, name: Seq<char>)
    requires
        n <= listeners.len(),
    ensures
        last_listener(listeners, n, name) is None <==> forall|k: int|
            0 <= k < n ==> (#[trigger] listeners[k]).name@ != name,
    decreases n,
{
    if n > 0 {
        lemma_no_listener(listeners, (n - 1) as nat, name);
        if listeners[n - 1].name@ == name {
            assert(!(forall|k: int| 0 <= k < n ==> (#[trigger] listeners[k]).name@ != name));
        }
    }
}

#[verifier::rlimit(40)]
proof fn lemma_faultless(
    config: WorkspaceConfig,
    defaults: EngineDefaults,
    sockets: Seq<ListenerSocketConfig>,
    compiled_routes: Seq<RoutePrefixRule>,
    n: nat,
)
    ensures
        workspace_fault(config, defaults, sockets, compiled_routes, n) is None <==> forall|i: int|
            0 <= i < n ==> listener_fault(
                config,
                defaults,
                #[trigger] config.listeners@[i],
                sockets[i],
                compiled_routes,
            ) is None,
    decreases n,
{
    if n > 0 {
        lemma_faultless(config, defaults, sockets, compiled_routes, (n - 1) as nat);
        if workspace_fault(config, defaults, sockets, compiled_routes, n) is None {
        } else if forall|i: int|
            0 <= i < n ==> listener_fault(
                config,
                defaults,
                #[trigger] config.listeners@[i],
                sockets[i],
                compiled_routes,
            ) is None {
            assert(listener_fault(
                config,
                defaults,
                config.listeners@[n - 1],
                sockets[n - 1],
                compiled_routes,
            ) is None);
        }
    }
}

#[verifier::rlimit(40)]
proof fn lemma_compiled(input: WorkspaceInput, compiled: CompiledWorkspaceRuntime, i: int)
    requires
        input.gives(Ok(compiled)),
        input.decides(i),
    ensures
        ({
            let listener = input.config.listeners@[i];
            &&& compiled.listeners@.contains_key(listener.name@)
            &&& compiles_listener(
                input.config,
                input.defaults,
                listener,
                input.sockets[i],
                input.compiled_routes,
                input.telemetry,
                compiled.listeners@[listener.name@],
            )
            &&& listener_fault(
                input.config,
                input.defaults,
                listener,
                input.sockets[i],
                input.compiled_routes,
            ) is None
        }),
{
    let n = paired(input.config, input.sockets);
    let listener = input.config.listeners@[i];
    lemma_last_listener(input.config.listeners@, n, i);
    lemma_faultless(input.config, input.defaults, input.sockets, input.compiled_routes, n);
    assert(holds_listener(
        input.config,
        input.defaults,
        input.sockets,
        input.compiled_routes,
        input.telemetry,
        n,
        compiled.listeners@,
        listener.name@,
    ));
}

/// A compiled workspace has the listeners of its configuration that have socket settings, and no
/// others. It bears the name of its file and the identity of its configuration.
#[verifier::rlimit(40)]
pub proof fn compiled_workspaces_have_their_listeners(
    input: WorkspaceInput,
    compiled: CompiledWorkspaceRuntime,
    name: Seq<char>,
)
    requires
        input.gives(Ok(compiled)),
    ensures
        compiled.listeners@.contains_key(name) <==> exists|i: int|
            0 <= i < input.config.listeners@.len() && i < input.sockets.len() && (
            #[trigger] input.config.listeners@[i]).name@ == name,
        compiled.snapshot == input.snapshot,
        compiled.source_label@ == "config_path="@ + input.config_path,
{
    let n = paired(input.config, input.sockets);
    lemma_no_listener(input.config.listeners@, n, name);
    assert(holds_listener(
        input.config,
        input.defaults,
        input.sockets,
        input.compiled_routes,
        input.telemetry,
        n,
        compiled.listeners@,
        name,
    ));
}

/// A compiled listener keeps the class, the protocol and the PROXY protocol of its configuration,
/// and its own socket settings.
pub proof fn compiled_listeners_keep_their_settings(
    input: WorkspaceInput,
    compiled: CompiledWorkspaceRuntime,
    i: int,
)
    requires
        input.gives(Ok(compiled)),
        input.decides(i),
    ensures
        ({
            let listener = input.config.listeners@[i];
            let socket = input.sockets[i];
            let made = compiled.listeners@[listener.name@];
            &&& compiled.listeners@.contains_key(listener.name@)
            &&& made.class == listener.class
            &&& made.protocol == listener.protocol
            &&& made.proxy_protocol == listener.proxy_protocol
            &&& made.bind_address == socket.bind_address
            &&& made.bind_mode == socket.bind_mode
            &&& made.max_connections == socket.max_connections
            &&& made.drain_timeout_ms == socket.drain_timeout_ms
        }),
{
    lemma_compiled(input, compiled, i);
}

/// The plan by which the requests of a public listener are proxied.
pub open spec fn plan_of(service: ListenerService) -> Option<ProxyPlan> {
    match service {
        ListenerService::Public(ManagedProxyConfig::Http1(plan)) => Some(plan),
        ListenerService::Public(ManagedProxyConfig::Http2(plan)) => Some(plan),
        ListenerService::Public(ManagedProxyConfig::Https { plan, .. }) => Some(plan),
        ListenerService::Public(ManagedProxyConfig::Http3 { plan, .. }) => Some(plan),
        ListenerService::Admin { .. } => None,
    }
}

/// The certificates that a service ends TLS connections with.
pub open spec fn certificates_of(service: ListenerService) -> Option<String> {
    match service {
        ListenerService::Public(ManagedProxyConfig::Https { tls, .. }) => Some(tls),
        ListenerService::Public(ManagedProxyConfig::Http3 { tls, .. }) => Some(tls),
        ListenerService::Admin { tls, .. } => tls,
        _ => None,
    }
}

/// A public listener proxies in the protocol that it speaks, an administration listener serves
/// operators, and exactly the listeners whose protocol is encrypted have certificates, their own.
pub proof fn compiled_listeners_speak_their_protocols(
    input: WorkspaceInput,
    compiled: CompiledWorkspaceRuntime,
    i: int,
)
    requires
        input.gives(Ok(compiled)),
        input.decides(i),
    ensures
        ({
            let listener = input.config.listeners@[i];
            let service = compiled.listeners@[listener.name@].service;
            let p = listener.protocol;
            &&& listener.class is Admin <==> service is Admin
            &&& p is Http1 || p is Http2 || p is Https || p is Http3
            &&& listener.class is Admin ==> p is Http1 || p is Https
            &&& service matches ListenerService::Public(proxy) ==> {
                &&& (proxy is Http1 <==> p is Http1)
                &&& (proxy is Http2 <==> p is Http2)
                &&& (proxy is Https <==> p is Https)
                &&& (proxy is Http3 <==> p is Http3)
            }
            &&& p is Https || p is Http3 ==> certificates_of(service) is Some && certificates_of(
                service,
            ) == listener.tls_termination
            &&& !(p is Https || p is Http3) ==> certificates_of(service) is None
        }),
{
    lemma_compiled(input, compiled, i);
}

proof fn lemma_plan(input: WorkspaceInput, compiled: CompiledWorkspaceRuntime, i: int)
    requires
        input.gives(Ok(compiled)),
        input.decides(i),
        input.config.listeners@[i].class is Public,
    ensures
        ({
            let listener = input.config.listeners@[i];
            let made = compiled.listeners@[listener.name@];
            let p = listener.protocol;
            &&& plan_of(made.service) matches Some(plan)
            &&& proxy_core(input.config, input.defaults, listener, input.compiled_routes) == Ok::<
                crate::compile_runtime::ProxyCoreView,
                Seq<char>,
            >(plan.deep_view().core)
            &&& plan.deep_view().mirror_pools == input.config.upstream_clusters@.map_values(
                |c: crate::config::UpstreamClusterConfig| crate::compile_routes::planned_pool(c),
            )
            &&& plan.upgrades.deep_view() == (if p is Http2 {
                None::<(Seq<Seq<char>>, Seq<(Seq<char>, Seq<Seq<char>>)>)>
            } else {
                Some(
                    (
                        listener.upgrade_protocols.deep_view(),
                        route_upgrades(input.config, listener, listener.routes@.len()),
                    ),
                )
            })
            &&& plan.upgrade_telemetry.deep_view() == (if input.telemetry && (p is Http1
                || p is Https) {
                Some(listener.name@)
            } else {
                None
            })
            &&& cache_scope(input.config, listener) == Ok::<
                Option<HttpCachePolicyConfig>,
                Seq<char>,
            >(plan.response_cache)
            &&& plan.route_enumeration == crate::compile_routes::enumeration_defaults()
        }),
{
    lemma_compiled(input, compiled, i);
}

/// How many of the first `n` routes of a listener allow upgrades.
pub open spec fn upgrading_routes(
    config: WorkspaceConfig,
    listener: ListenerResourceConfig,
    n: nat,
) -> nat
    decreases n,
{
    if n == 0 {
        0
    } else {
        let before = upgrading_routes(config, listener, (n - 1) as nat);
        match route_named(config.routes@, listener.routes@[n - 1]@) {
            Some(route) => if route.upgrade_protocols@.len() > 0 {
                before + 1
            } else {
                before
            },
            None => before,
        }
    }
}

proof fn lemma_upgrades(
    config: WorkspaceConfig,
    listener: ListenerResourceConfig,
    n: nat,
    i: int,
    r: int,
)
    requires
        n <= listener.routes@.len(),
        0 <= i < n,
        is_first_route(config.routes@, r, listener.routes@[i]@),
        config.routes@[r].upgrade_protocols@.len() > 0,
    ensures
        upgrading_routes(config, listener, i as nat) < upgrading_routes(config, listener, n),
        route_upgrades(config, listener, n).len() == upgrading_routes(config, listener, n),
        route_upgrades(config, listener, n)[upgrading_routes(config, listener, i as nat) as int]
            == (listener.routes@[i]@, config.routes@[r].upgrade_protocols.deep_view()),
    decreases n,
{
    lemma_upgrade_count(config, listener, (n - 1) as nat);
    if i < n - 1 {
        lemma_upgrades(config, listener, (n - 1) as nat, i, r);
    } else {
        crate::lookups::first_route_is_found(config.routes@, r, listener.routes@[i]@);
    }
}

proof fn lemma_upgrade_count(config: WorkspaceConfig, listener: ListenerResourceConfig, n: nat)
    ensures
        route_upgrades(config, listener, n).len() == upgrading_routes(config, listener, n),
    decreases n,
{
    if n > 0 {
        lemma_upgrade_count(config, listener, (n - 1) as nat);
    }
}

/// A public listener that speaks the first version of HTTP, in the open, encrypted or bridged from
/// the third, allows exactly the upgrades that its configuration lists: its own, and for each of
/// its routes that lists some, in the order of its routes, those of the route. One that speaks the
/// second version alone allows none.
#[verifier::rlimit(40)]
pub proof fn configured_upgrades_are_allowed(
    input: WorkspaceInput,
    compiled: CompiledWorkspaceRuntime,
    i: int,
)
    requires
        input.gives(Ok(compiled)),
        input.decides(i),
        input.config.listeners@[i].class is Public,
    ensures
        ({
            let config = input.config;
            let listener = config.listeners@[i];
            let service = compiled.listeners@[listener.name@].service;
            &&& plan_of(service) matches Some(plan)
            &&& listener.protocol is Http2 ==> plan.upgrades is None
            &&& !(listener.protocol is Http2) ==> {
                &&& plan.upgrades matches Some((own, routes))
                &&& own.deep_view() == listener.upgrade_protocols.deep_view()
                &&& routes@.len() == upgrading_routes(config, listener, listener.routes@.len())
                &&& forall|k: int, r: int|
                    0 <= k < listener.routes@.len() && #[trigger] is_first_route(
                        config.routes@,
                        r,
                        listener.routes@[k]@,
                    ) && config.routes@[r].upgrade_protocols@.len() > 0 ==> {
                        let at = upgrading_routes(config, listener, k as nat) as int;
                        &&& 0 <= at < routes@.len()
                        &&& routes@[at].0@ == config.routes@[r].name@
                        &&& routes@[at].1.deep_view()
                            == config.routes@[r].upgrade_protocols.deep_view()
                    }
            }
        }),
{
    lemma_plan(input, compiled, i);
    let config = input.config;
    let listener = config.listeners@[i];
    let n = listener.routes@.len();
    let plan = plan_of(compiled.listeners@[listener.name@].service)->0;
    if !(listener.protocol is Http2) {
        let (own, routes) = plan.upgrades->0;
        lemma_upgrade_count(config, listener, n);
        assert(routes.deep_view() == route_upgrades(config, listener, n));
        assert(routes@.len() == routes.deep_view().len());
        assert forall|k: int, r: int|
            0 <= k < listener.routes@.len() && #[trigger] is_first_route(
                config.routes@,
                r,
                listener.routes@[k]@,
            ) && config.routes@[r].upgrade_protocols@.len() > 0 implies {
            let at = upgrading_routes(config, listener, k as nat) as int;
            &&& 0 <= at < routes@.len()
            &&& routes@[at].0@ == config.routes@[r].name@
            &&& routes@[at].1.deep_view() == config.routes@[r].upgrade_protocols.deep_view()
        } by {
            lemma_upgrades(config, listener, n, k, r);
            let at = upgrading_routes(config, listener, k as nat) as int;
            assert(routes.deep_view()[at] == routes@[at].deep_view());
        }
    }
}

/// Upgrades are counted under the listener's name where that is asked for and the listener speaks
/// the first version of HTTP over streams, and nowhere else.
pub proof fn upgrades_are_counted_under_the_listener(
    input: WorkspaceInput,
    compiled: CompiledWorkspaceRuntime,
    i: int,
)
    requires
        input.gives(Ok(compiled)),
        input.decides(i),
        input.config.listeners@[i].class is Public,
    ensures
        ({
            let listener = input.config.listeners@[i];
            let service = compiled.listeners@[listener.name@].service;
            let counted = input.telemetry && (listener.protocol is Http1
                || listener.protocol is Https);
            &&& plan_of(service) matches Some(plan)
            &&& plan.upgrade_telemetry is Some <==> counted
            &&& counted ==> plan.upgrade_telemetry->0@ == listener.name@
        }),
{
    lemma_plan(input, compiled, i);
}

/// A compiled listener shares out the requests of each of its routes among the destinations of the
/// route's configuration, with their weights and in their order, and has a pool for mirrored
/// requests for every cluster of the workspace.
#[verifier::rlimit(40)]
pub proof fn compiled_listeners_share_requests_as_configured(
    input: WorkspaceInput,
    compiled: CompiledWorkspaceRuntime,
    i: int,
    k: int,
    r: int,
)
    requires
        input.gives(Ok(compiled)),
        input.decides(i),
        input.config.listeners@[i].class is Public,
        0 <= k < input.config.listeners@[i].routes@.len(),
        is_first_route(input.config.routes@, r, input.config.listeners@[i].routes@[k]@),
    ensures
        ({
            let config = input.config;
            let listener = config.listeners@[i];
            let route = config.routes@[r];
            let service = compiled.listeners@[listener.name@].service;
            &&& plan_of(service) matches Some(plan)
            &&& plan.backends.route_pools@.len() == listener.routes@.len()
            &&& plan.backends.route_pools@[k].route@ == route.name@
            &&& plan.backends.route_pools@[k].destinations@.len() == route.destinations@.len()
            &&& forall|j: int|
                0 <= j < route.destinations@.len() ==> {
                    let share = #[trigger] plan.backends.route_pools@[k].destinations@[j];
                    &&& share.weight == route.destinations@[j].weight
                    &&& share.cluster@ == route.destinations@[j].upstream_cluster@
                }
            &&& plan.mirror_pools@.len() == config.upstream_clusters@.len()
            &&& forall|c: int|
                0 <= c < config.upstream_clusters@.len() ==> pool_follows(
                    #[trigger] config.upstream_clusters@[c],
                    plan.mirror_pools@[c].deep_view(),
                )
        }),
{
    lemma_plan(input, compiled, i);
    let config = input.config;
    let listener = config.listeners@[i];
    let plan = plan_of(compiled.listeners@[listener.name@].service)->0;
    requests_are_shared_as_configured(config, listener, input.compiled_routes, k, r);
    let model = (route_backends(config, listener, input.compiled_routes)->Ok_0).route_pools;
    assert(plan.backends.route_pools.deep_view() == model);
    assert(plan.backends.route_pools.deep_view()[k] == plan.backends.route_pools@[k].deep_view());
    let list = plan.backends.route_pools@[k].destinations;
    assert(list.deep_view() == model[k].1);
    assert(list.deep_view().len() == list@.len());
    assert forall|j: int| 0 <= j < config.routes@[r].destinations@.len() implies {
        let share = #[trigger] list@[j];
        &&& share.weight == config.routes@[r].destinations@[j].weight
        &&& share.cluster@ == config.routes@[r].destinations@[j].upstream_cluster@
    } by {
        assert(list.deep_view()[j] == list@[j].deep_view());
        assert(model[k].1[j] == list.deep_view()[j]);
    }
    let pools = plan.mirror_pools;
    assert(pools.deep_view().len() == pools@.len());
    assert forall|c: int| 0 <= c < config.upstream_clusters@.len() implies pool_follows(
        #[trigger] config.upstream_clusters@[c],
        pools@[c].deep_view(),
    ) by {
        assert(pools.deep_view()[c] == pools@[c].deep_view());
        pools_are_as_configured(config.upstream_clusters@[c]);
    }
}

/// The backends and the policies in force of a compiled listener are those of its configuration,
/// so all that holds of these holds of the listener.
pub proof fn compiled_listeners_have_their_parts(
    input: WorkspaceInput,
    compiled: CompiledWorkspaceRuntime,
    i: int,
)
    requires
        input.gives(Ok(compiled)),
        input.decides(i),
        input.config.listeners@[i].class is Public,
    ensures
        ({
            let listener = input.config.listeners@[i];
            let service = compiled.listeners@[listener.name@].service;
            let backends = route_backends(input.config, listener, input.compiled_routes);
            let policies = effective_policies(input.config, listener);
            &&& plan_of(service) matches Some(plan)
            &&& backends is Ok && plan.backends.deep_view() == backends->Ok_0
            &&& policies is Ok && plan.diagnostics.deep_view() == policies->Ok_0
        }),
{
    lemma_plan(input, compiled, i);
}

/// For each destination of each of its routes, a compiled listener has the innermost of the
/// policies that the listener, the route and the destination refer to.
#[verifier::rlimit(40)]
pub proof fn compiled_listeners_apply_the_innermost_policies(
    input: WorkspaceInput,
    compiled: CompiledWorkspaceRuntime,
    i: int,
    k: int,
    r: int,
    j: int,
    c: int,
)
    requires
        input.gives(Ok(compiled)),
        input.decides(i),
        input.config.listeners@[i].class is Public,
        0 <= k < input.config.listeners@[i].routes@.len(),
        is_first_route(input.config.routes@, r, input.config.listeners@[i].routes@[k]@),
        0 <= j < input.config.routes@[r].destinations@.len(),
        is_first_cluster(
            input.config.upstream_clusters@,
            c,
            input.config.routes@[r].destinations@[j].upstream_cluster@,
        ),
    ensures
        ({
            let config = input.config;
            let listener = config.listeners@[i];
            let route = config.routes@[r];
            let service = compiled.listeners@[listener.name@].service;
            &&& plan_of(service) matches Some(plan)
            &&& plan.diagnostics@.contains_key(route.name@)
            &&& plan.diagnostics@[route.name@]@.len() == route.destinations@.len()
            &&& policy_follows(
                config,
                listener,
                route,
                route.destinations@[j],
                config.upstream_clusters@[c],
                plan.diagnostics@[route.name@]@[j].deep_view(),
            )
        }),
{
    compiled_listeners_have_their_parts(input, compiled, i);
    let config = input.config;
    let listener = config.listeners@[i];
    let route = config.routes@[r];
    let plan = plan_of(compiled.listeners@[listener.name@].service)->0;
    policies_in_force_are_the_innermost(config, listener, k, r, j, c);
    let map = plan.diagnostics.deep_view();
    assert(map.contains_key(route.name@));
    let list = plan.diagnostics@[route.name@];
    assert(map[route.name@] == list.deep_view());
    assert(list.deep_view().len() == list@.len());
    assert(list.deep_view()[j] == list@[j].deep_view());
}

/// A compiled listener treats the requests of each destination by the policies in force for it,
/// and its destinations share what they name in common.
pub proof fn compiled_listeners_treat_destinations_by_their_policies(
    input: WorkspaceInput,
    compiled: CompiledWorkspaceRuntime,
    i: int,
    route: Seq<char>,
)
    requires
        input.gives(Ok(compiled)),
        input.decides(i),
        input.config.listeners@[i].class is Public,
    ensures
        ({
            let listener = input.config.listeners@[i];
            let service = compiled.listeners@[listener.name@].service;
            &&& plan_of(service) matches Some(plan)
            &&& {
                let policies = plan.diagnostics.deep_view();
                let made = plan.destination_policies.deep_view();
                &&& shared_follows(input.config, input.defaults, made.shared)
                &&& made.routes.contains_key(route) <==> policies.contains_key(route)
                &&& policies.contains_key(route) ==> {
                    &&& route_plans_follow(
                        input.config,
                        policies[route],
                        policies[route].len(),
                        made.routes[route],
                    )
                    &&& route_is_served_by(policies[route], made.shared)
                }
            }
        }),
{
    lemma_plan(input, compiled, i);
    let listener = input.config.listeners@[i];
    policies_are_in_force_for_named_routes(input.config, listener, route);
    let policies = effective_policies(input.config, listener)->Ok_0;
    destinations_are_treated_by_their_policies(input.config, input.defaults, policies);
    let made = destination_plans(input.config, input.defaults, policies)->Ok_0;
    assert(made.routes.contains_key(route) <==> policies.contains_key(route));
}

/// How many of the first `n` routes of a listener are there and refer to a transformation.
pub open spec fn transforming_routes(
    config: WorkspaceConfig,
    listener: ListenerResourceConfig,
    n: nat,
) -> nat
    decreases n,
{
    if n == 0 {
        0
    } else {
        let before = transforming_routes(config, listener, (n - 1) as nat);
        match route_named(config.routes@, listener.routes@[n - 1]@) {
            Some(route) => if route.policies.transform_policy is Some {
                before + 1
            } else {
                before
            },
            None => before,
        }
    }
}

/// Whether the transformations of the first `n` routes of a listener are there, where the routes
/// are.
spec fn route_transforms_are_there(
    config: WorkspaceConfig,
    listener: ListenerResourceConfig,
    n: nat,
) -> bool {
    forall|k: int|
        0 <= k < n && route_named(config.routes@, (#[trigger] listener.routes@[k])@) is Some
            ==> transform_is_there(
            config,
            (route_named(config.routes@, listener.routes@[k]@)->0).policies,
        )
}

/// Whether an entry of a list is what the route at a place changes in requests.
spec fn request_entry_follows(
    config: WorkspaceConfig,
    listener: ListenerResourceConfig,
    k: int,
    list: Seq<(Seq<char>, RequestTransformView)>,
) -> bool {
    let found = route_named(config.routes@, listener.routes@[k]@);
    let at = transforming_routes(config, listener, k as nat) as int;
    found is Some && (found->0).policies.transform_policy is Some ==> {
        &&& at < list.len()
        &&& list[at].0 == listener.routes@[k]@
        &&& Some(list[at].1) == request_changes(config, (found->0).policies)
    }
}

#[verifier::rlimit(40)]
#[verifier::spinoff_prover]
proof fn lemma_request_transforms(
    config: WorkspaceConfig,
    listener: ListenerResourceConfig,
    n: nat,
)
    requires
        n <= listener.routes@.len(),
    ensures
        route_request_transforms(config, listener, n) is Ok <==> route_transforms_are_there(
            config,
            listener,
            n,
        ),
        route_request_transforms(config, listener, n) matches Ok(list) ==> {
            &&& list.len() == transforming_routes(config, listener, n)
            &&& forall|k: int|
                0 <= k < n ==> #[trigger] request_entry_follows(config, listener, k, list)
        },
    decreases n,
{
    if n > 0 {
        let m = (n - 1) as nat;
        lemma_request_transforms(config, listener, m);
        let name = listener.routes@[m as int]@;
        let found = route_named(config.routes@, name);
        if found is Some {
            let r = found_route_is_first(config.routes@, name);
        }
        if route_request_transforms(config, listener, n) is Ok {
            let list = route_request_transforms(config, listener, n)->Ok_0;
            let before = route_request_transforms(config, listener, m)->Ok_0;
            assert forall|k: int| 0 <= k < n implies #[trigger] request_entry_follows(
                config,
                listener,
                k,
                list,
            ) by {
                if k < m {
                    assert(request_entry_follows(config, listener, k, before));
                }
            }
            assert(route_transforms_are_there(config, listener, n));
        } else if route_transforms_are_there(config, listener, n) {
            assert(route_transforms_are_there(config, listener, m));
            assert(listener.routes@[m as int]@ == name);
        }
    }
}

/// Whether an entry of a list is what the route at a place changes in responses.
spec fn response_entry_follows(
    config: WorkspaceConfig,
    listener: ListenerResourceConfig,
    k: int,
    list: Seq<(Seq<char>, ResponseTransformView)>,
) -> bool {
    let found = route_named(config.routes@, listener.routes@[k]@);
    let at = transforming_routes(config, listener, k as nat) as int;
    found is Some && (found->0).policies.transform_policy is Some ==> {
        &&& at < list.len()
        &&& list[at].0 == listener.routes@[k]@
        &&& Some(list[at].1) == response_changes(config, (found->0).policies)
    }
}

#[verifier::rlimit(40)]
#[verifier::spinoff_prover]
proof fn lemma_response_transforms(
    config: WorkspaceConfig,
    listener: ListenerResourceConfig,
    n: nat,
)
    requires
        n <= listener.routes@.len(),
    ensures
        route_response_transforms(config, listener, n) is Ok <==> route_transforms_are_there(
            config,
            listener,
            n,
        ),
        route_response_transforms(config, listener, n) matches Ok(list) ==> {
            &&& list.len() == transforming_routes(config, listener, n)
            &&& forall|k: int|
                0 <= k < n ==> #[trigger] response_entry_follows(config, listener, k, list)
        },
    decreases n,
{
    if n > 0 {
        let m = (n - 1) as nat;
        lemma_response_transforms(config, listener, m);
        let name = listener.routes@[m as int]@;
        let found = route_named(config.routes@, name);
        if found is Some {
            let r = found_route_is_first(config.routes@, name);
        }
        if route_response_transforms(config, listener, n) is Ok {
            let list = route_response_transforms(config, listener, n)->Ok_0;
            let before = route_response_transforms(config, listener, m)->Ok_0;
            assert forall|k: int| 0 <= k < n implies #[trigger] response_entry_follows(
                config,
                listener,
                k,
                list,
            ) by {
                if k < m {
                    assert(response_entry_follows(config, listener, k, before));
                }
            }
            assert(route_transforms_are_there(config, listener, n));
        } else if route_transforms_are_there(config, listener, n) {
            assert(route_transforms_are_there(config, listener, m));
            assert(listener.routes@[m as int]@ == name);
        }
    }
}

/// The changes of a listener to requests and responses are those of its own transformation, and
/// each of its routes that refers to a transformation has that one's, in the order of the routes.
#[verifier::rlimit(40)]
pub proof fn listeners_change_requests_as_configured(
    config: WorkspaceConfig,
    listener: ListenerResourceConfig,
    k: int,
    r: int,
)
    requires
        listener_request_transforms(config, listener) is Ok,
        listener_response_transforms(config, listener) is Ok,
        0 <= k < listener.routes@.len(),
        is_first_route(config.routes@, r, listener.routes@[k]@),
    ensures
        ({
            let request = listener_request_transforms(config, listener)->Ok_0;
            let response = listener_response_transforms(config, listener)->Ok_0;
            let count = transforming_routes(config, listener, listener.routes@.len());
            let at = transforming_routes(config, listener, k as nat) as int;
            &&& request.0 == request_changes(config, listener.policies)
            &&& response.0 == response_changes(config, listener.policies)
            &&& request.1.len() == count
            &&& response.1.len() == count
            &&& config.routes@[r].policies.transform_policy is Some ==> {
                &&& 0 <= at < count
                &&& request.1[at].0 == config.routes@[r].name@
                &&& Some(request.1[at].1) == request_changes(config, config.routes@[r].policies)
                &&& response.1[at].0 == config.routes@[r].name@
                &&& Some(response.1[at].1) == response_changes(config, config.routes@[r].policies)
            }
        }),
{
    let n = listener.routes@.len();
    lemma_request_transforms(config, listener, n);
    lemma_response_transforms(config, listener, n);
    crate::lookups::first_route_is_found(config.routes@, r, listener.routes@[k]@);
    assert(request_entry_follows(
        config,
        listener,
        k,
        (listener_request_transforms(config, listener)->Ok_0).1,
    ));
    assert(response_entry_follows(
        config,
        listener,
        k,
        (listener_response_transforms(config, listener)->Ok_0).1,
    ));
}

/// A compiled listener changes requests and responses by its own transformation, and those of
/// each of its routes by the route's.
pub proof fn compiled_listeners_change_requests_as_configured(
    input: WorkspaceInput,
    compiled: CompiledWorkspaceRuntime,
    i: int,
)
    requires
        input.gives(Ok(compiled)),
        input.decides(i),
        input.config.listeners@[i].class is Public,
    ensures
        ({
            let listener = input.config.listeners@[i];
            let service = compiled.listeners@[listener.name@].service;
            let request = listener_request_transforms(input.config, listener);
            let response = listener_response_transforms(input.config, listener);
            &&& plan_of(service) matches Some(plan)
            &&& request is Ok && response is Ok
            &&& plan.request_transform.deep_view() == (request->Ok_0).0
            &&& plan.route_request_transforms.deep_view() == (request->Ok_0).1
            &&& plan.response_transform.deep_view() == (response->Ok_0).0
            &&& plan.route_response_transforms.deep_view() == (response->Ok_0).1
        }),
{
    lemma_plan(input, compiled, i);
}

/// Clients that look for routes are counted by their exact address on every public listener; a few
/// stray requests are enough for a ban, and bans do not outlast a quarter of an hour.
pub proof fn probing_clients_are_banned(
    input: WorkspaceInput,
    compiled: CompiledWorkspaceRuntime,
    i: int,
)
    requires
        input.gives(Ok(compiled)),
        input.decides(i),
        input.config.listeners@[i].class is Public,
    ensures
        ({
            let listener = input.config.listeners@[i];
            let service = compiled.listeners@[listener.name@].service;
            &&& plan_of(service) matches Some(plan)
            &&& plan.route_enumeration.source_aggregation is ExactIp
            &&& plan.route_enumeration.max_unmatched_route_events == 3
            &&& plan.route_enumeration.max_distinct_query_signatures_per_route
                == 2 * plan.route_enumeration.max_unmatched_route_events
            &&& plan.route_enumeration.base_ban_duration_secs
                == 2 * plan.route_enumeration.evaluation_window_secs
            &&& plan.route_enumeration.base_ban_duration_secs == 60
            &&& plan.route_enumeration.max_ban_duration_secs
                == 15 * plan.route_enumeration.base_ban_duration_secs
            &&& plan.route_enumeration.max_tracked_sources == 4096
        }),
{
    lemma_plan(input, compiled, i);
}

/// Whether the route at a place among a listener's names a cache.
pub open spec fn route_names_cache(
    config: WorkspaceConfig,
    listener: ListenerResourceConfig,
    k: int,
    name: Seq<char>,
) -> bool {
    &&& 0 <= k < listener.routes@.len()
    &&& route_named(config.routes@, listener.routes@[k]@) matches Some(route)
    &&& route.policies.cache_policy matches Some(cache)
    &&& cache@ == name
}

#[verifier::rlimit(40)]
proof fn lemma_cache_names(config: WorkspaceConfig, listener: ListenerResourceConfig, n: nat)
    requires
        n <= listener.routes@.len(),
    ensures
        route_cache_names(config, listener, n).no_duplicates(),
        forall|name: Seq<char>| #[trigger]
            route_cache_names(config, listener, n).contains(name) <==> exists|k: int|
                k < n && #[trigger] route_names_cache(config, listener, k, name),
    decreases n,
{
    if n > 0 {
        let m = (n - 1) as nat;
        lemma_cache_names(config, listener, m);
        let before = route_cache_names(config, listener, m);
        let names = route_cache_names(config, listener, n);
        assert forall|name: Seq<char>| #[trigger] names.contains(name) <==> exists|k: int|
            k < n && #[trigger] route_names_cache(config, listener, k, name) by {
            assert(before.contains(name) <==> exists|k: int|
                k < m && #[trigger] route_names_cache(config, listener, k, name));
            if before.contains(name) {
                let at = choose|at: int| 0 <= at < before.len() && before[at] == name;
                assert(names[at] == name);
            }
            if route_names_cache(config, listener, m as int, name) {
                if !before.contains(name) {
                    assert(names[before.len() as int] == name);
                }
            }
            if names.contains(name) && !before.contains(name) {
                let at = choose|at: int| 0 <= at < names.len() && names[at] == name;
                assert(at == before.len());
                assert(route_names_cache(config, listener, m as int, name));
            }
        }
    }
}

/// Whether the cache policy with a name is there and fits the machine.
pub open spec fn cache_is_there(config: WorkspaceConfig, name: Seq<char>) -> bool {
    &&& policy_named(config.policies.http_caches@, name) matches Some(policy)
    &&& policy.max_bytes <= usize::MAX
    &&& policy.max_object_bytes <= usize::MAX
}

/// Whether the cache policies that a listener depends on are there, and no two of its routes
/// disagree where it names none itself.
pub open spec fn caches_agree(config: WorkspaceConfig, listener: ListenerResourceConfig) -> bool {
    match listener.policies.cache_policy {
        Some(name) => cache_is_there(config, name@),
        None => {
            &&& forall|k: int, name: Seq<char>| #[trigger]
                route_names_cache(config, listener, k, name) ==> cache_is_there(config, name)
            &&& forall|k: int, l: int, name: Seq<char>, other: Seq<char>|
                #[trigger] route_names_cache(config, listener, k, name)
                    && #[trigger] route_names_cache(config, listener, l, other) ==> name == other
        },
    }
}

/// The response cache of a listener is the one that the listener names, or else the one that its
/// routes agree on; only public listeners that speak the first version of HTTP over streams have
/// one. It is refused only where a named cache is not there or does not fit the machine, or where
/// two routes disagree.
#[verifier::rlimit(40)]
pub proof fn listeners_have_the_cache_they_name(
    config: WorkspaceConfig,
    listener: ListenerResourceConfig,
)
    ensures
        ({
            let may = listener.class is Public && (listener.protocol is Http1
                || listener.protocol is Https);
            let scope = cache_scope(config, listener);
            &&& !may ==> scope == Ok::<Option<HttpCachePolicyConfig>, Seq<char>>(None)
            &&& may ==> (scope is Ok <==> caches_agree(config, listener))
            &&& may && scope is Ok ==> match listener.policies.cache_policy {
                Some(name) => scope->Ok_0 == policy_named(config.policies.http_caches@, name@),
                None => {
                    &&& scope->Ok_0 is None <==> forall|k: int, name: Seq<char>|
                        !(#[trigger] route_names_cache(config, listener, k, name))
                    &&& forall|k: int, name: Seq<char>| #[trigger]
                        route_names_cache(config, listener, k, name) ==> scope->Ok_0
                            == policy_named(config.policies.http_caches@, name)
                },
            }
        }),
{
    let n = listener.routes@.len();
    lemma_cache_names(config, listener, n);
    let names = route_cache_names(config, listener, n);
    let may = listener.class is Public && (listener.protocol is Http1
        || listener.protocol is Https);
    let scope = cache_scope(config, listener);
    if may && listener.policies.cache_policy is None {
        if names.len() == 0 {
            assert forall|k: int, name: Seq<char>| !(#[trigger] route_names_cache(
                config,
                listener,
                k,
                name,
            )) by {
                assert(!names.contains(name));
            }
        } else if names.len() == 1 {
            assert(names.contains(names[0]));
            assert forall|k: int, name: Seq<char>| #[trigger]
                route_names_cache(config, listener, k, name) implies name == names[0] by {
                assert(names.contains(name));
            }
            let k = choose|k: int| k < n && #[trigger]
                route_names_cache(config, listener, k, names[0]);
            assert(route_names_cache(config, listener, k, names[0]));
        } else {
            assert(names.contains(names[0]));
            assert(names.contains(names[1]));
            let k = choose|k: int| k < n && #[trigger]
                route_names_cache(config, listener, k, names[0]);
            let l = choose|l: int| l < n && #[trigger]
                route_names_cache(config, listener, l, names[1]);
            assert(names[0] != names[1]);
            assert(route_names_cache(config, listener, k, names[0]));
            assert(route_names_cache(config, listener, l, names[1]));
        }
    }
}

/// A compiled public listener has exactly the response cache that its configuration gives it.
pub proof fn compiled_listeners_have_their_caches(
    input: WorkspaceInput,
    compiled: CompiledWorkspaceRuntime,
    i: int,
)
    requires
        input.gives(Ok(compiled)),
        input.decides(i),
        input.config.listeners@[i].class is Public,
    ensures
        ({
            let listener = input.config.listeners@[i];
            let service = compiled.listeners@[listener.name@].service;
            &&& plan_of(service) matches Some(plan)
            &&& cache_scope(input.config, listener) == Ok::<
                Option<HttpCachePolicyConfig>,
                Seq<char>,
            >(plan.response_cache)
            &&& plan.response_cache is Some ==> compiled.http_cache_scopes@.contains_key(
                listener.name@,
            ) && compiled.http_cache_scopes@[listener.name@] == plan.response_cache->0
        }),
{
    lemma_plan(input, compiled, i);
    let n = paired(input.config, input.sockets);
    let listener = input.config.listeners@[i];
    let plan = plan_of(compiled.listeners@[listener.name@].service)->0;
    assert(holds_cache(input.config, n, compiled.http_cache_scopes@, listener.name@));
    if plan.response_cache is Some {
        lemma_last_cached(input.config, n, i);
    }
}

proof fn lemma_last_cached(config: WorkspaceConfig, n: nat, i: int)
    requires
        0 <= i < n <= config.listeners@.len(),
        forall|k: int|
            i < k < n ==> (#[trigger] config.listeners@[k]).name@ != config.listeners@[i].name@,
        cache_scope(config, config.listeners@[i]) matches Ok(Some(policy)),
    ensures
        last_cached_listener(config, n, config.listeners@[i].name@) == Some(i),
    decreases n,
{
    if i < n - 1 {
        assert(config.listeners@[n - 1].name@ != config.listeners@[i].name@);
        lemma_last_cached(config, (n - 1) as nat, i);
    }
}

/// There is a response cache under a name only if some listener with that name has one.
pub proof fn caches_belong_to_listeners(
    input: WorkspaceInput,
    compiled: CompiledWorkspaceRuntime,
    name: Seq<char>,
)
    requires
        input.gives(Ok(compiled)),
        compiled.http_cache_scopes@.contains_key(name),
    ensures
        exists|i: int|
            0 <= i < input.config.listeners@.len() && (
            #[trigger] input.config.listeners@[i]).name@ == name && cache_scope(
                input.config,
                input.config.listeners@[i],
            ) == Ok::<Option<HttpCachePolicyConfig>, Seq<char>>(
                Some(compiled.http_cache_scopes@[name]),
            ),
{
    let n = paired(input.config, input.sockets);
    assert(holds_cache(input.config, n, compiled.http_cache_scopes@, name));
    lemma_cached_place(input.config, n, name);
    let i = last_cached_listener(input.config, n, name)->0;
    assert(input.config.listeners@[i].name@ == name);
}

proof fn lemma_cached_place(config: WorkspaceConfig, n: nat, name: Seq<char>)
    requires
        n <= config.listeners@.len(),
    ensures
        last_cached_listener(config, n, name) matches Some(i) ==> 0 <= i < n
            && config.listeners@[i].name@ == name,
    decreases n,
{
    if n > 0 {
        lemma_cached_place(config, (n - 1) as nat, name);
    }
}

/// Whether a listener counts as overloaded by what a policy says.
pub open spec fn overload_follows(
    policy: OverloadResponsePolicyConfig,
    made: OverloadPolicyView,
) -> bool {
    &&& made.signal_window_ms == policy.signal_window_ms
    &&& made.constrained_signal_threshold == policy.constrained_signal_threshold
    &&& made.shedding_signal_threshold == policy.shedding_signal_threshold
    &&& made.brownout_signal_threshold == policy.brownout_signal_threshold
    &&& made.brownout_features.len() == policy.brownout_features@.len()
    &&& forall|k: int|
        0 <= k < made.brownout_features.len() ==> {
            let feature = #[trigger] made.brownout_features[k];
            let source = policy.brownout_features@[k];
            &&& feature.name@ == source.name@
            &&& (feature.priority is Critical <==> source.priority is Critical)
            &&& (feature.priority is Default <==> source.priority is Default)
            &&& (feature.priority is BestEffort <==> source.priority is BestEffort)
        }
}

/// Whether a listener defends itself by what a policy says.
pub open spec fn defence_follows(
    policy: HostileEdgeProtectionPolicyConfig,
    made: CompiledListenerAbuseProtectionPolicy,
) -> bool {
    &&& made.source_quota is Some <==> policy.source_quota is Some
    &&& made.source_quota is Some ==> {
        let quota = made.source_quota->0;
        let source = policy.source_quota->0;
        &&& quota.max_active_per_source == source.max_active_per_source
        &&& quota.max_tracked_sources == source.max_tracked_sources
        &&& (quota.aggregation is ExactIp <==> source.aggregation is ExactIp)
        &&& (quota.aggregation is Ipv4Subnet24 <==> source.aggregation is Ipv4Subnet24)
        &&& (quota.aggregation is Ipv6Subnet64 <==> source.aggregation is Ipv6Subnet64)
    }
    &&& made.handshake_guard is Some <==> policy.handshake_guard is Some
    &&& made.handshake_guard is Some ==> {
        &&& made.handshake_guard->0.max_inflight == policy.handshake_guard->0.max_inflight
        &&& made.handshake_guard->0.timeout_ms == policy.handshake_guard->0.timeout_ms
    }
}

/// A compiled listener, public or not, watches for overload and defends itself by the policies
/// that it names, and not at all where it names none.
pub proof fn compiled_listeners_defend_themselves_as_configured(
    input: WorkspaceInput,
    compiled: CompiledWorkspaceRuntime,
    i: int,
)
    requires
        input.gives(Ok(compiled)),
        input.decides(i),
    ensures
        ({
            let config = input.config;
            let listener = config.listeners@[i];
            let made = compiled.listeners@[listener.name@];
            let overload = listener.policies.overload_response;
            let defence = listener.policies.hostile_edge_protection;
            &&& made.overload_policy is Some <==> overload is Some
            &&& overload is Some ==> {
                &&& policy_named(config.policies.overload_responses@, overload->0@) matches Some(
                    policy,
                )
                &&& overload_follows(policy, made.overload_policy->0.deep_view())
            }
            &&& made.abuse_protection_policy is Some <==> defence is Some
            &&& defence is Some ==> {
                &&& policy_named(
                    config.policies.hostile_edge_protections@,
                    defence->0@,
                ) matches Some(policy)
                &&& defence_follows(policy, made.abuse_protection_policy->0)
            }
        }),
{
    lemma_compiled(input, compiled, i);
}

/// Whether permissions are exactly those that the scopes of a configuration grant.
pub open spec fn permissions_follow(
    scopes: Seq<AdminAuthorizationScopeConfig>,
    permissions: PermissionSet,
) -> bool {
    &&& permissions.read <==> scopes.contains(AdminAuthorizationScopeConfig::Read)
    &&& permissions.audit <==> scopes.contains(AdminAuthorizationScopeConfig::Audit)
    &&& permissions.write <==> scopes.contains(AdminAuthorizationScopeConfig::Write)
}

#[verifier::rlimit(40)]
proof fn lemma_permissions(
    scopes: Seq<AdminAuthorizationScopeConfig>,
    permissions: PermissionSet,
)
    requires
        grants(scopes, permissions),
    ensures
        permissions_follow(scopes, permissions),
{
    assert(permissions.has(AdminPermission::Read) == permissions.read);
    assert(permissions.has(AdminPermission::Audit) == permissions.audit);
    assert(permissions.has(AdminPermission::Write) == permissions.write);
    if scopes.contains(AdminAuthorizationScopeConfig::Read) {
        let i = choose|i: int|
            0 <= i < scopes.len() && scopes[i] == AdminAuthorizationScopeConfig::Read;
        assert(crate::admin_policy::scope_permission(scopes[i]) is Read);
    }
    if scopes.contains(AdminAuthorizationScopeConfig::Audit) {
        let i = choose|i: int|
            0 <= i < scopes.len() && scopes[i] == AdminAuthorizationScopeConfig::Audit;
        assert(crate::admin_policy::scope_permission(scopes[i]) is Audit);
    }
    if scopes.contains(AdminAuthorizationScopeConfig::Write) {
        let i = choose|i: int|
            0 <= i < scopes.len() && scopes[i] == AdminAuthorizationScopeConfig::Write;
        assert(crate::admin_policy::scope_permission(scopes[i]) is Write);
    }
    if permissions.read {
        let i = choose|i: int|
            0 <= i < scopes.len() && crate::admin_policy::scope_permission(#[trigger] scopes[i])
                == AdminPermission::Read;
        assert(scopes[i] == AdminAuthorizationScopeConfig::Read);
    }
    if permissions.audit {
        let i = choose|i: int|
            0 <= i < scopes.len() && crate::admin_policy::scope_permission(#[trigger] scopes[i])
                == AdminPermission::Audit;
        assert(scopes[i] == AdminAuthorizationScopeConfig::Audit);
    }
    if permissions.write {
        let i = choose|i: int|
            0 <= i < scopes.len() && crate::admin_policy::scope_permission(#[trigger] scopes[i])
                == AdminPermission::Write;
        assert(scopes[i] == AdminAuthorizationScopeConfig::Write);
    }
}

/// Whether the operator at a place is the last in a list with an identity.
pub open spec fn is_last_operator(list: Seq<AdminOperatorConfig>, k: int, id: Seq<char>) -> bool {
    &&& 0 <= k < list.len()
    &&& list[k].id@ == id
    &&& forall|l: int| k < l < list.len() ==> (#[trigger] list[l]).id@ != id
}

#[verifier::rlimit(40)]
proof fn lemma_last_operator(list: Seq<AdminOperatorConfig>, id: Seq<char>)
    ensures
        last_operator(list, id) is None <==> forall|l: int|
            0 <= l < list.len() ==> (#[trigger] list[l]).id@ != id,
        forall|k: int| #[trigger]
            is_last_operator(list, k, id) ==> last_operator(list, id) == Some(list[k]),
    decreases list.len(),
{
    if list.len() > 0 {
        let front = list.drop_last();
        lemma_last_operator(front, id);
        if list.last().id@ == id {
            assert(list[list.len() - 1].id@ == id);
            assert forall|k: int| #[trigger] is_last_operator(list, k, id) implies last_operator(
                list,
                id,
            ) == Some(list[k]) by {
                if k < list.len() - 1 {
                    assert(list[list.len() - 1].id@ != id);
                }
            }
        } else {
            assert forall|k: int| #[trigger] is_last_operator(list, k, id) implies last_operator(
                list,
                id,
            ) == Some(list[k]) by {
                assert(front[k] == list[k]);
                assert forall|l: int| k < l < front.len() implies (#[trigger] front[l]).id@ != id
                    by {
                    assert(list[l].id@ != id);
                }
                assert(is_last_operator(front, k, id));
            }
            if last_operator(list, id) is None {
                assert forall|l: int| 0 <= l < list.len() implies (#[trigger] list[l]).id@ != id by {
                    if l < front.len() {
                        assert(front[l].id@ != id);
                    }
                }
            } else {
                let l = choose|l: int| 0 <= l < front.len() && (#[trigger] front[l]).id@ == id;
                assert(list[l].id@ == id);
            }
        }
    }
}

#[verifier::rlimit(40)]
proof fn lemma_operators(
    list: Seq<AdminOperatorConfig>,
    made: Map<Seq<char>, CompiledAdminOperator>,
    id: Seq<char>,
)
    requires
        holds_operators(list, made),
    ensures
        made.contains_key(id) <==> exists|k: int|
            0 <= k < list.len() && (#[trigger] list[k]).id@ == id,
        forall|k: int| #[trigger]
            is_last_operator(list, k, id) ==> {
                &&& made[id].secret_env@ == list[k].secret_env@
                &&& permissions_follow(list[k].permissions@, made[id].permissions)
            },
{
    lemma_last_operator(list, id);
    assert(match last_operator(list, id) {
        Some(operator) => {
            &&& made.contains_key(id)
            &&& made[id].secret_env == operator.secret_env
            &&& grants(operator.permissions@, made[id].permissions)
        },
        None => !made.contains_key(id),
    });
    assert forall|k: int| #[trigger] is_last_operator(list, k, id) implies {
        &&& made[id].secret_env@ == list[k].secret_env@
        &&& permissions_follow(list[k].permissions@, made[id].permissions)
    } by {
        assert(last_operator(list, id) == Some(list[k]));
        assert(grants(list[k].permissions@, made[id].permissions));
        lemma_permissions(list[k].permissions@, made[id].permissions);
    }
}

/// A compiled administration listener admits whom its configuration names: the shared secret or
/// the operators, each with exactly the permissions of the configuration, from the named networks,
/// at the configured rate, and keeps as many events as it says.
#[verifier::rlimit(40)]
pub proof fn compiled_administration_is_as_configured(
    input: WorkspaceInput,
    compiled: CompiledWorkspaceRuntime,
    i: int,
    id: Seq<char>,
)
    requires
        input.gives(Ok(compiled)),
        input.decides(i),
        input.config.listeners@[i].class is Admin,
    ensures
        ({
            let listener = input.config.listeners@[i];
            let settings = listener.admin;
            &&& compiled.listeners@[listener.name@].service matches ListenerService::Admin {
                policy,
                ..
            }
            &&& policy.rate_limit.requests_per_minute == settings.rate_limit.requests_per_minute
            &&& policy.rate_limit.burst == settings.rate_limit.burst
            &&& policy.audit_capacity == settings.max_retained_audit_events
            &&& policy.allowed_source_cidrs@.len() == settings.allowed_source_cidrs@.len()
            &&& forall|k: int|
                0 <= k < settings.allowed_source_cidrs@.len() ==> cidr_named(
                    (#[trigger] settings.allowed_source_cidrs@[k])@,
                ) == Some(policy.allowed_source_cidrs@[k])
            &&& match settings.auth {
                AdminAuthPolicyConfig::Bearer { secret_env, permissions } => {
                    &&& policy.auth matches CompiledAdminAuthPolicy::Bearer {
                        secret_env: env,
                        permissions: made,
                    }
                    &&& env@ == secret_env@
                    &&& permissions_follow(permissions@, made)
                },
                AdminAuthPolicyConfig::SignedHeaders {
                    operators,
                    max_clock_skew_secs,
                    nonce_ttl_secs,
                } => {
                    &&& policy.auth matches CompiledAdminAuthPolicy::SignedHeaders {
                        operators: made,
                        max_clock_skew_secs: skew,
                        nonce_ttl_secs: ttl,
                    }
                    &&& skew == max_clock_skew_secs
                    &&& ttl == nonce_ttl_secs
                    &&& made@.contains_key(id) <==> exists|k: int|
                        0 <= k < operators@.len() && (#[trigger] operators@[k]).id@ == id
                    &&& forall|k: int| #[trigger]
                        is_last_operator(operators@, k, id) ==> {
                            &&& made@[id].secret_env@ == operators@[k].secret_env@
                            &&& permissions_follow(
                                operators@[k].permissions@,
                                made@[id].permissions,
                            )
                        }
                },
            }
        }),
{
    lemma_compiled(input, compiled, i);
    let listener = input.config.listeners@[i];
    let policy = compiled.listeners@[listener.name@].service->Admin_policy;
    match listener.admin.auth {
        AdminAuthPolicyConfig::Bearer { secret_env, permissions } => {
            lemma_permissions(permissions@, policy.auth->Bearer_permissions);
        },
        AdminAuthPolicyConfig::SignedHeaders { operators, .. } => {
            lemma_operators(operators@, (policy.auth->operators)@, id);
        },
    }
    assert forall|k: int| 0 <= k < listener.admin.allowed_source_cidrs@.len() implies cidr_named(
        (#[trigger] listener.admin.allowed_source_cidrs@[k])@,
    ) == Some(policy.allowed_source_cidrs@[k]) by {
        assert(policy.allowed_source_cidrs@[k] == policy.allowed_source_cidrs@[k]);
    }
}

#[verifier::rlimit(40)]
proof fn lemma_cidrs(list: Seq<String>)
    ensures
        first_bad_cidr(list) is None <==> forall|k: int|
            0 <= k < list.len() ==> cidr_named((#[trigger] list[k])@) is Some,
    decreases list.len(),
{
    if list.len() > 0 {
        let front = list.drop_last();
        lemma_cidrs(front);
        if first_bad_cidr(list) is None {
            assert forall|k: int| 0 <= k < list.len() implies cidr_named((#[trigger] list[k])@)
                is Some by {
                if k < front.len() {
                    assert(cidr_named(front[k]@) is Some);
                }
            }
        } else if forall|k: int| 0 <= k < list.len() ==> cidr_named((#[trigger] list[k])@) is Some {
            assert forall|k: int| 0 <= k < front.len() implies cidr_named((#[trigger] front[k])@)
                is Some by {
                assert(cidr_named(list[k]@) is Some);
            }
            assert(cidr_named(list[list.len() - 1]@) is Some);
        }
    }
}

/// Whether the policy of a list that a resource refers to, where it refers to one, is there.
pub open spec fn reference_is_there<S>(
    list: Seq<crate::config::NamedPolicy<S>>,
    name: Option<String>,
) -> bool {
    name matches Some(n) ==> policy_named(list, n@) is Some
}

/// Whether a listener can be served: its class can speak its protocol, it has the certificates
/// that it needs, and all that it refers to is there and readable.
pub open spec fn is_servable(
    config: WorkspaceConfig,
    listener: ListenerResourceConfig,
    socket: ListenerSocketConfig,
    compiled_routes: Seq<RoutePrefixRule>,
) -> bool {
    let p = listener.protocol;
    &&& reference_is_there(
        config.policies.overload_responses@,
        listener.policies.overload_response,
    )
    &&& reference_is_there(
        config.policies.hostile_edge_protections@,
        listener.policies.hostile_edge_protection,
    )
    &&& p is Https || (listener.class is Public && p is Http3) ==> listener.tls_termination is Some
    &&& match listener.class {
        crate::config::ListenerClassConfig::Admin => {
            &&& p is Http1 || p is Https
            &&& forall|k: int|
                0 <= k < listener.admin.allowed_source_cidrs@.len() ==> cidr_named(
                    (#[trigger] listener.admin.allowed_source_cidrs@[k])@,
                ) is Some
        },
        crate::config::ListenerClassConfig::Public => {
            &&& p is Http1 || p is Http2 || p is Https || p is Http3
            &&& p is Https ==> socket.ends_tls
            &&& p is Http1 || p is Https ==> caches_agree(config, listener)
            &&& transform_is_there(config, listener.policies)
            &&& forall|k: int|
                0 <= k < listener.routes@.len() ==> route_is_served(
                    config,
                    compiled_routes,
                    (#[trigger] listener.routes@[k])@,
                ) && route_is_complete(config, listener.routes@[k]@)
            &&& exists|k: int|
                0 <= k < listener.routes@.len() && (route_named(
                    config.routes@,
                    (#[trigger] listener.routes@[k])@,
                )->0).destinations@.len() > 0
            &&& forall|route: Seq<char>| #[trigger]
                (effective_policies(config, listener)->Ok_0).contains_key(route)
                    ==> route_limits_are_there(
                    config,
                    (effective_policies(config, listener)->Ok_0)[route],
                )
        },
    }
}

#[verifier::rlimit(40)]
proof fn lemma_servable(
    config: WorkspaceConfig,
    defaults: EngineDefaults,
    listener: ListenerResourceConfig,
    socket: ListenerSocketConfig,
    compiled_routes: Seq<RoutePrefixRule>,
)
    ensures
        listener_fault(config, defaults, listener, socket, compiled_routes) is None
            <==> is_servable(config, listener, socket, compiled_routes),
{
    listeners_have_the_cache_they_name(config, listener);
    lemma_cidrs(listener.admin.allowed_source_cidrs@);
    assert(listener_overload(config, listener) is Ok <==> reference_is_there(
        config.policies.overload_responses@,
        listener.policies.overload_response,
    ));
    assert(listener_abuse(config, listener) is Ok <==> reference_is_there(
        config.policies.hostile_edge_protections@,
        listener.policies.hostile_edge_protection,
    ));
    if listener.class is Public {
        backends_are_refused_only_for_a_reason(config, listener, compiled_routes);
        policies_are_refused_only_for_a_reason(config, listener);
        lemma_request_transforms(config, listener, listener.routes@.len());
        lemma_response_transforms(config, listener, listener.routes@.len());
        if effective_policies(config, listener) is Ok {
            let policies = effective_policies(config, listener)->Ok_0;
            policies_are_in_force_for_named_routes(config, listener, Seq::empty());
            destinations_are_refused_only_for_a_reason(config, defaults, policies);
            assert(route_transforms_are_there(config, listener, listener.routes@.len())) by {
                assert forall|k: int|
                    0 <= k < listener.routes@.len() && route_named(
                        config.routes@,
                        (#[trigger] listener.routes@[k])@,
                    ) is Some implies transform_is_there(
                    config,
                    (route_named(config.routes@, listener.routes@[k]@)->0).policies,
                ) by {
                    assert(route_is_complete(config, listener.routes@[k]@));
                }
            }
            assert(listener_request_transforms(config, listener) is Ok);
            assert(listener_response_transforms(config, listener) is Ok);
        }
    }
}

/// A workspace compiles exactly where every listener with socket settings can be served.
#[verifier::rlimit(40)]
pub proof fn workspaces_are_refused_only_for_a_reason(
    input: WorkspaceInput,
    outcome: Result<CompiledWorkspaceRuntime, ServeError>,
)
    requires
        input.gives(outcome),
    ensures
        outcome is Ok <==> forall|i: int|
            0 <= i < input.config.listeners@.len() && i < input.sockets.len() ==> is_servable(
                input.config,
                #[trigger] input.config.listeners@[i],
                input.sockets[i],
                input.compiled_routes,
            ),
{
    let n = paired(input.config, input.sockets);
    lemma_faultless(input.config, input.defaults, input.sockets, input.compiled_routes, n);
    assert forall|i: int| 0 <= i < n implies (listener_fault(
        input.config,
        input.defaults,
        #[trigger] input.config.listeners@[i],
        input.sockets[i],
        input.compiled_routes,
    ) is None <==> is_servable(
        input.config,
        input.config.listeners@[i],
        input.sockets[i],
        input.compiled_routes,
    )) by {
        lemma_servable(
            input.config,
            input.defaults,
            input.config.listeners@[i],
            input.sockets[i],
            input.compiled_routes,
        );
    }
}

} // verus!
