//! Where the requests of a listener's routes are sent.

use crate::addr::SocketAddress;
use crate::compile_policies::SourceAggregation;
use crate::config::{
    agrees, cluster_named, find_cluster, find_route, find_rule, route_named, rule_labelled,
    AffinityFallbackConfig, AffinityPolicyConfig, EndpointStateConfig, ListenerResourceConfig,
    LoadBalancingAlgorithmConfig, LocalityRoutingConfig, NoHealthyFallbackConfig, RouteConfig,
    RouteDestinationConfig, RoutePrefixRule, UpstreamClusterConfig, UpstreamEndpointConfig,
    WorkspaceConfig,
};
use crate::effective_policies::{
    copy_text, unknown_cluster, unknown_cluster_error, unknown_route, unknown_route_error,
};
use crate::error::ServeError;
use crate::named_map::NamedMap;
use crate::text::text;
use vstd::prelude::*;
use vstd::string::*;

verus! {

/// How long a new endpoint is warmed up before it takes its full share, in milliseconds.
pub const ROUTE_BACKEND_WARMUP_MS: u64 = 1000;

/// Whether an endpoint takes traffic.
#[derive(Debug, Clone, Copy, PartialEq, Eq, Structural)]
pub enum EndpointState {
    Ready,
    Draining,
    Unavailable,
}

/// How an endpoint is chosen.
#[derive(Debug, Clone, Copy, PartialEq, Eq, Structural)]
pub enum LoadBalancingAlgorithm {
    RoundRobin,
    WeightedRoundRobin,
    PowerOfTwoChoices,
}

/// Which endpoints are preferred by where they stand.
#[derive(Debug, Clone, Copy, PartialEq, Eq, Structural)]
pub enum LocalityRoutingPolicy {
    Disabled,
    PreferLocality,
    PreferZone,
    PreferLocalityThenZone,
}

/// What happens when no endpoint is healthy.
#[derive(Debug, Clone, Copy, PartialEq, Eq, Structural)]
pub enum NoHealthyFallback {
    Fail,
    IncludeUnhealthy,
}

/// What happens when the endpoint that a client belongs to is not healthy.
#[derive(Debug, Clone, Copy, PartialEq, Eq, Structural)]
pub enum AffinityFallbackPolicy {
    BalanceHealthy,
}

/// How a client is kept on one endpoint.
#[derive(Debug)]
pub enum AffinityPolicy {
    HeaderHash { header_name: String, fallback: AffinityFallbackPolicy },
    CookieHash { cookie_name: String, fallback: AffinityFallbackPolicy },
}

/// How endpoints are chosen.
#[derive(Debug)]
pub struct UpstreamSelectionPolicy {
    pub algorithm: LoadBalancingAlgorithm,
    pub locality: LocalityRoutingPolicy,
    pub no_healthy_fallback: NoHealthyFallback,
    pub affinity: Option<AffinityPolicy>,
}

/// An endpoint of a pool.
#[derive(Debug)]
pub struct EndpointPlan {
    pub id: String,
    pub address: SocketAddress,
    pub state: EndpointState,
    pub zone: Option<String>,
    pub locality: Option<String>,
    pub weight: u32,
}

/// The pool of a cluster.
#[derive(Debug)]
pub struct RouteBackendPoolPlan {
    pub cluster: String,
    pub endpoints: Vec<EndpointPlan>,
    pub warmup_ms: u64,
    pub selection: UpstreamSelectionPolicy,
}

/// The pool of a cluster.
#[verifier::ext_equal]
pub struct PoolView {
    pub cluster: Seq<char>,
    pub endpoints: Seq<EndpointPlan>,
    pub warmup_ms: u64,
    pub selection: UpstreamSelectionPolicy,
}

impl DeepView for RouteBackendPoolPlan {
    type V = PoolView;

    open spec fn deep_view(&self) -> PoolView {
        PoolView {
            cluster: self.cluster@,
            endpoints: self.endpoints@,
            warmup_ms: self.warmup_ms,
            selection: self.selection,
        }
    }
}

/// An endpoint as the pool of its cluster holds it.
pub open spec fn planned_endpoint(endpoint: UpstreamEndpointConfig) -> EndpointPlan {
    EndpointPlan {
        id: endpoint.id,
        address: endpoint.address,
        state: match endpoint.state {
            EndpointStateConfig::Ready => EndpointState::Ready,
            EndpointStateConfig::Draining => EndpointState::Draining,
            EndpointStateConfig::Unavailable => EndpointState::Unavailable,
        },
        zone: endpoint.zone,
        locality: endpoint.locality,
        weight: endpoint.weight,
    }
}

/// How a client is kept on one endpoint.
pub open spec fn planned_affinity(affinity: AffinityPolicyConfig) -> AffinityPolicy {
    match affinity {
        AffinityPolicyConfig::HeaderHash { header_name, fallback } => AffinityPolicy::HeaderHash {
            header_name,
            fallback: AffinityFallbackPolicy::BalanceHealthy,
        },
        AffinityPolicyConfig::CookieHash { cookie_name, fallback } => AffinityPolicy::CookieHash {
            cookie_name,
            fallback: AffinityFallbackPolicy::BalanceHealthy,
        },
    }
}

/// How the endpoints of a cluster are chosen.
pub open spec fn planned_selection(cluster: UpstreamClusterConfig) -> UpstreamSelectionPolicy {
    UpstreamSelectionPolicy {
        algorithm: match cluster.traffic_policy.algorithm {
            LoadBalancingAlgorithmConfig::RoundRobin => LoadBalancingAlgorithm::RoundRobin,
            LoadBalancingAlgorithmConfig::WeightedRoundRobin => {
                LoadBalancingAlgorithm::WeightedRoundRobin
            },
            LoadBalancingAlgorithmConfig::PowerOfTwoChoices => {
                LoadBalancingAlgorithm::PowerOfTwoChoices
            },
        },
        locality: match cluster.traffic_policy.locality {
            LocalityRoutingConfig::Disabled => LocalityRoutingPolicy::Disabled,
            LocalityRoutingConfig::PreferLocality => LocalityRoutingPolicy::PreferLocality,
            LocalityRoutingConfig::PreferZone => LocalityRoutingPolicy::PreferZone,
            LocalityRoutingConfig::PreferLocalityThenZone => {
                LocalityRoutingPolicy::PreferLocalityThenZone
            },
        },
        no_healthy_fallback: match cluster.traffic_policy.no_healthy_fallback {
            NoHealthyFallbackConfig::Fail => NoHealthyFallback::Fail,
            NoHealthyFallbackConfig::IncludeUnhealthy => NoHealthyFallback::IncludeUnhealthy,
        },
        affinity: match cluster.traffic_policy.affinity {
            Some(affinity) => Some(planned_affinity(affinity)),
            None => None,
        },
    }
}

/// The pool of a cluster.
pub open spec fn planned_pool(cluster: UpstreamClusterConfig) -> PoolView {
    PoolView {
        cluster: cluster.name@,
        endpoints: cluster.endpoints@.map_values(|e: UpstreamEndpointConfig| planned_endpoint(e)),
        warmup_ms: ROUTE_BACKEND_WARMUP_MS,
        selection: planned_selection(cluster),
    }
}

fn plan_selection(cluster: &UpstreamClusterConfig) -> (r: UpstreamSelectionPolicy)
    ensures
        r == planned_selection(*cluster),
{
    UpstreamSelectionPolicy {
        algorithm: match cluster.traffic_policy.algorithm {
            LoadBalancingAlgorithmConfig::RoundRobin => LoadBalancingAlgorithm::RoundRobin,
            LoadBalancingAlgorithmConfig::WeightedRoundRobin => {
                LoadBalancingAlgorithm::WeightedRoundRobin
            },
            LoadBalancingAlgorithmConfig::PowerOfTwoChoices => {
                LoadBalancingAlgorithm::PowerOfTwoChoices
            },
        },
        locality: match cluster.traffic_policy.locality {
            LocalityRoutingConfig::Disabled => LocalityRoutingPolicy::Disabled,
            LocalityRoutingConfig::PreferLocality => LocalityRoutingPolicy::PreferLocality,
            LocalityRoutingConfig::PreferZone => LocalityRoutingPolicy::PreferZone,
            LocalityRoutingConfig::PreferLocalityThenZone => {
                LocalityRoutingPolicy::PreferLocalityThenZone
            },
        },
        no_healthy_fallback: match cluster.traffic_policy.no_healthy_fallback {
            NoHealthyFallbackConfig::Fail => NoHealthyFallback::Fail,
            NoHealthyFallbackConfig::IncludeUnhealthy => NoHealthyFallback::IncludeUnhealthy,
        },
        affinity: match &cluster.traffic_policy.affinity {
            Some(AffinityPolicyConfig::HeaderHash { header_name, fallback }) => Some(
                AffinityPolicy::HeaderHash {
                    header_name: header_name.clone(),
                    fallback: match fallback {
                        AffinityFallbackConfig::BalanceHealthy => {
                            AffinityFallbackPolicy::BalanceHealthy
                        },
                    },
                },
            ),
            Some(AffinityPolicyConfig::CookieHash { cookie_name, fallback }) => Some(
                AffinityPolicy::CookieHash {
                    cookie_name: cookie_name.clone(),
                    fallback: match fallback {
                        AffinityFallbackConfig::BalanceHealthy => {
                            AffinityFallbackPolicy::BalanceHealthy
                        },
                    },
                },
            ),
            None => None,
        },
    }
}

/// Plans the pool of a cluster.
pub fn compile_route_backend_pool(cluster: &UpstreamClusterConfig) -> (r: RouteBackendPoolPlan)
    ensures
        r.deep_view() == planned_pool(*cluster),
{
    let mut endpoints: Vec<EndpointPlan> = Vec::new();
    let mut i: usize = 0;
    while i < cluster.endpoints.len()
        invariant
            i <= cluster.endpoints@.len(),
            endpoints@.len() == i,
            forall|j: int|
                0 <= j < i ==> #[trigger] endpoints@[j] == planned_endpoint(
                    cluster.endpoints@[j],
                ),
        decreases cluster.endpoints@.len() - i,
    {
        let endpoint = &cluster.endpoints[i];
        endpoints.push(
            EndpointPlan {
                id: endpoint.id.clone(),
                address: endpoint.address,
                state: match endpoint.state {
                    EndpointStateConfig::Ready => EndpointState::Ready,
                    EndpointStateConfig::Draining => EndpointState::Draining,
                    EndpointStateConfig::Unavailable => EndpointState::Unavailable,
                },
                zone: copy_text(&endpoint.zone),
                locality: copy_text(&endpoint.locality),
                weight: endpoint.weight,
            },
        );
        i = i + 1;
    }
    let pool = RouteBackendPoolPlan {
        cluster: cluster.name.clone(),
        endpoints,
        warmup_ms: ROUTE_BACKEND_WARMUP_MS,
        selection: plan_selection(cluster),
    };
    proof {
        assert(pool.deep_view() =~= planned_pool(*cluster));
    }
    pool
}

/// A server that a route's requests can be sent to.
#[derive(Debug)]
pub struct UpstreamTarget {
    pub name: String,
    pub address: SocketAddress,
}

/// A server that the requests of the route `route_label` can be sent to.
#[derive(Debug)]
pub struct RouteUpstream {
    pub route_label: String,
    pub upstream: UpstreamTarget,
}

/// A server that the requests of a route can be sent to.
pub struct UpstreamView {
    pub route_label: Seq<char>,
    pub name: Seq<char>,
    pub address: SocketAddress,
}

impl DeepView for RouteUpstream {
    type V = UpstreamView;

    open spec fn deep_view(&self) -> UpstreamView {
        UpstreamView {
            route_label: self.route_label@,
            name: self.upstream.name@,
            address: self.upstream.address,
        }
    }
}

/// A share of a route's requests.
#[derive(Debug)]
pub struct WeightedDestination {
    pub weight: u32,
    pub cluster: String,
}

impl DeepView for WeightedDestination {
    type V = (u32, Seq<char>);

    open spec fn deep_view(&self) -> (u32, Seq<char>) {
        (self.weight, self.cluster@)
    }
}

/// The pools of a route by their clusters: a single one is used as it is, several are used by
/// their weights.
#[derive(Debug)]
pub struct RoutePoolPlan {
    pub route: String,
    pub destinations: Vec<WeightedDestination>,
}

impl DeepView for RoutePoolPlan {
    type V = (Seq<char>, Seq<(u32, Seq<char>)>);

    open spec fn deep_view(&self) -> (Seq<char>, Seq<(u32, Seq<char>)>) {
        (self.route@, self.destinations.deep_view())
    }
}

/// Where the requests of a listener's routes are sent. Routes to the same cluster share its pool.
#[derive(Debug)]
pub struct RouteBackends {
    pub rules: Vec<RoutePrefixRule>,
    pub upstreams: Vec<RouteUpstream>,
    pub cluster_pools: NamedMap<RouteBackendPoolPlan>,
    pub route_pools: Vec<RoutePoolPlan>,
}

/// Where the requests of a listener's routes are sent.
#[verifier::ext_equal]
pub struct RouteBackendsView {
    pub rules: Seq<RoutePrefixRule>,
    pub upstreams: Seq<UpstreamView>,
    pub cluster_pools: Map<Seq<char>, PoolView>,
    pub route_pools: Seq<(Seq<char>, Seq<(u32, Seq<char>)>)>,
}

impl DeepView for RouteBackends {
    type V = RouteBackendsView;

    open spec fn deep_view(&self) -> RouteBackendsView {
        RouteBackendsView {
            rules: self.rules@,
            upstreams: self.upstreams.deep_view(),
            cluster_pools: self.cluster_pools.deep_view(),
            route_pools: self.route_pools.deep_view(),
        }
    }
}

/// The servers of a cluster as a route's requests can be sent to them.
pub open spec fn cluster_upstreams(route: RouteConfig, cluster: UpstreamClusterConfig) -> Seq<
    UpstreamView,
> {
    cluster.endpoints@.map_values(
        |e: UpstreamEndpointConfig|
            UpstreamView {
                route_label: route.name@,
                name: cluster.name@ + ":"@ + e.id@,
                address: e.address,
            },
    )
}

/// The backends after one destination more, with the destinations of its route so far.
pub open spec fn with_destination(
    config: WorkspaceConfig,
    route: RouteConfig,
    destination: RouteDestinationConfig,
    backends: RouteBackendsView,
    destinations: Seq<(u32, Seq<char>)>,
) -> Result<(RouteBackendsView, Seq<(u32, Seq<char>)>), Seq<char>> {
    match cluster_named(config.upstream_clusters@, destination.upstream_cluster@) {
        None => Err(unknown_cluster(route, destination)),
        Some(cluster) => if cluster.endpoints@.len() == 0 {
            Err(
                "upstream cluster "@ + cluster.name@ + " must declare at least one endpoint"@,
            )
        } else {
            Ok(
                (
                    RouteBackendsView {
                        upstreams: backends.upstreams + cluster_upstreams(route, cluster),
                        cluster_pools: if backends.cluster_pools.contains_key(cluster.name@) {
                            backends.cluster_pools
                        } else {
                            backends.cluster_pools.insert(cluster.name@, planned_pool(cluster))
                        },
                        ..backends
                    },
                    destinations.push((destination.weight, cluster.name@)),
                ),
            )
        },
    }
}

/// The backends after the first `n` destinations of a route.
pub open spec fn with_destinations(
    config: WorkspaceConfig,
    route: RouteConfig,
    backends: RouteBackendsView,
    n: nat,
) -> Result<(RouteBackendsView, Seq<(u32, Seq<char>)>), Seq<char>>
    decreases n,
{
    if n == 0 {
        Ok((backends, Seq::empty()))
    } else {
        match with_destinations(config, route, backends, (n - 1) as nat) {
            Err(e) => Err(e),
            Ok((before, destinations)) => with_destination(
                config,
                route,
                route.destinations@[n - 1],
                before,
                destinations,
            ),
        }
    }
}

/// The failure of a route without a matching rule.
pub open spec fn missing_rule(route: Seq<char>) -> Seq<char> {
    "compiled route "@ + route + " is missing"@
}

/// The backends after one route more.
pub open spec fn with_route(
    config: WorkspaceConfig,
    listener: ListenerResourceConfig,
    compiled_routes: Seq<RoutePrefixRule>,
    name: Seq<char>,
    backends: RouteBackendsView,
) -> Result<RouteBackendsView, Seq<char>> {
    match route_named(config.routes@, name) {
        None => Err(unknown_route(listener, name)),
        Some(route) => match rule_labelled(compiled_routes, name) {
            None => Err(missing_rule(name)),
            Some(rule) => match with_destinations(
                config,
                route,
                RouteBackendsView { rules: backends.rules.push(rule), ..backends },
                route.destinations@.len(),
            ) {
                Err(e) => Err(e),
                Ok((after, destinations)) => Ok(
                    RouteBackendsView {
                        route_pools: after.route_pools.push((route.name@, destinations)),
                        ..after
                    },
                ),
            },
        },
    }
}

/// No route yet.
pub open spec fn no_backends() -> RouteBackendsView {
    RouteBackendsView {
        rules: Seq::empty(),
        upstreams: Seq::empty(),
        cluster_pools: Map::empty(),
        route_pools: Seq::empty(),
    }
}

/// The backends of the first `n` routes of a listener.
pub open spec fn with_routes(
    config: WorkspaceConfig,
    listener: ListenerResourceConfig,
    compiled_routes: Seq<RoutePrefixRule>,
    n: nat,
) -> Result<RouteBackendsView, Seq<char>>
    decreases n,
{
    if n == 0 {
        Ok(no_backends())
    } else {
        match with_routes(config, listener, compiled_routes, (n - 1) as nat) {
            Err(e) => Err(e),
            Ok(before) => with_route(
                config,
                listener,
                compiled_routes,
                listener.routes@[n - 1]@,
                before,
            ),
        }
    }
}

/// The backends of a listener. A listener without any server to send requests to is refused.
pub open spec fn route_backends(
    config: WorkspaceConfig,
    listener: ListenerResourceConfig,
    compiled_routes: Seq<RoutePrefixRule>,
) -> Result<RouteBackendsView, Seq<char>> {
    match with_routes(config, listener, compiled_routes, listener.routes@.len()) {
        Err(e) => Err(e),
        Ok(backends) => if backends.upstreams.len() == 0 {
            Err(
                "public listener "@ + listener.name@ + " must reference at least one route"@,
            )
        } else {
            Ok(backends)
        },
    }
}

proof fn lemma_destinations_fail_early(
    config: WorkspaceConfig,
    route: RouteConfig,
    backends: RouteBackendsView,
    n: nat,
    m: nat,
)
    requires
        n <= m,
        with_destinations(config, route, backends, n) is Err,
    ensures
        with_destinations(config, route, backends, m) == with_destinations(
            config,
            route,
            backends,
            n,
        ),
    decreases m,
{
    if n < m {
        lemma_destinations_fail_early(config, route, backends, n, (m - 1) as nat);
    }
}

proof fn lemma_routes_fail_early(
    config: WorkspaceConfig,
    listener: ListenerResourceConfig,
    compiled_routes: Seq<RoutePrefixRule>,
    n: nat,
    m: nat,
)
    requires
        n <= m,
        with_routes(config, listener, compiled_routes, n) is Err,
    ensures
        with_routes(config, listener, compiled_routes, m) == with_routes(
            config,
            listener,
            compiled_routes,
            n,
        ),
    decreases m,
{
    if n < m {
        lemma_routes_fail_early(config, listener, compiled_routes, n, (m - 1) as nat);
    }
}

fn add_cluster_upstreams(
    upstreams: &mut Vec<RouteUpstream>,
    route: &RouteConfig,
    cluster: &UpstreamClusterConfig,
)
    ensures
        final(upstreams).deep_view() == old(upstreams).deep_view() + cluster_upstreams(
            *route,
            *cluster,
        ),
{
    let ghost before = upstreams.deep_view();
    let ghost all = cluster_upstreams(*route, *cluster);
    let mut i: usize = 0;
    proof {
        assert(before =~= before + all.take(0));
    }
    while i < cluster.endpoints.len()
        invariant
            i <= cluster.endpoints@.len(),
            all == cluster_upstreams(*route, *cluster),
            upstreams.deep_view() == before + all.take(i as int),
        decreases cluster.endpoints@.len() - i,
    {
        let mut name = text(cluster.name.as_str());
        name.append(":");
        name.append(cluster.endpoints[i].id.as_str());
        let ghost prior = upstreams.deep_view();
        let entry = RouteUpstream {
            route_label: route.name.clone(),
            upstream: UpstreamTarget { name, address: cluster.endpoints[i].address },
        };
        upstreams.push(entry);
        proof {
            assert(upstreams.deep_view() =~= prior.push(entry.deep_view()));
            assert(entry.deep_view() == all[i as int]);
            assert(all.take(i + 1) =~= all.take(i as int).push(all[i as int]));
        }
        i = i + 1;
        proof {
            assert(upstreams.deep_view() =~= before + all.take(i as int));
        }
    }
    proof {
        assert(all.take(all.len() as int) =~= all);
    }
}

fn add_destination(
    config: &WorkspaceConfig,
    route: &RouteConfig,
    destination: &RouteDestinationConfig,
    backends: &mut RouteBackends,
    destinations: &mut Vec<WeightedDestination>,
) -> (r: Result<(), ServeError>)
    ensures
        match with_destination(
            *config,
            *route,
            *destination,
            old(backends).deep_view(),
            old(destinations).deep_view(),
        ) {
            Ok((after, list)) => {
                &&& r is Ok
                &&& final(backends).deep_view() == after
                &&& final(destinations).deep_view() == list
            },
            Err(message) => r matches Err(e) && e.message@ == message,
        },
{
    let cluster = match find_cluster(
        &config.upstream_clusters,
        destination.upstream_cluster.as_str(),
    ) {
        Some(cluster) => cluster,
        None => {
            return Err(unknown_cluster_error(route, destination));
        },
    };
    if cluster.endpoints.len() == 0 {
        let mut message = text("upstream cluster ");
        message.append(cluster.name.as_str());
        message.append(" must declare at least one endpoint");
        return Err(ServeError { message });
    }
    let ghost before = backends.deep_view();
    let ghost list = destinations.deep_view();
    add_cluster_upstreams(&mut backends.upstreams, route, cluster);
    let ghost pools = backends.cluster_pools.deep_view();
    proof {
        assert(pools == before.cluster_pools);
        assert(pools.contains_key(cluster.name@) == backends.cluster_pools@.contains_key(
            cluster.name@,
        ));
    }
    if !backends.cluster_pools.contains_key(cluster.name.as_str()) {
        let pool = compile_route_backend_pool(cluster);
        let ghost plan = pool.deep_view();
        backends.cluster_pools.insert(cluster.name.clone(), pool);
        proof {
            assert(backends.cluster_pools.deep_view() =~= pools.insert(cluster.name@, plan));
        }
    }
    let entry = WeightedDestination {
        weight: destination.weight,
        cluster: cluster.name.clone(),
    };
    destinations.push(entry);
    proof {
        assert(destinations.deep_view() =~= list.push(entry.deep_view()));
    }
    Ok(())
}

fn copy_rule(rule: &RoutePrefixRule) -> (r: RoutePrefixRule)
    ensures
        r == *rule,
{
    RoutePrefixRule { label: rule.label.clone(), rule: rule.rule.clone() }
}

fn add_route(
    config: &WorkspaceConfig,
    listener: &ListenerResourceConfig,
    compiled_routes: &Vec<RoutePrefixRule>,
    name: &str,
    backends: &mut RouteBackends,
) -> (r: Result<(), ServeError>)
    ensures
        match with_route(*config, *listener, compiled_routes@, name@, old(backends).deep_view()) {
            Ok(after) => r is Ok && final(backends).deep_view() == after,
            Err(message) => r matches Err(e) && e.message@ == message,
        },
{
    let route = match find_route(&config.routes, name) {
        Some(route) => route,
        None => {
            return Err(unknown_route_error(listener, name));
        },
    };
    let rule = match find_rule(compiled_routes, name) {
        Some(rule) => rule,
        None => {
            let mut message = text("compiled route ");
            message.append(name);
            message.append(" is missing");
            return Err(ServeError { message });
        },
    };
    backends.rules.push(copy_rule(rule));
    let ghost start = backends.deep_view();
    let mut destinations: Vec<WeightedDestination> = Vec::new();
    let mut i: usize = 0;
    proof {
        assert(destinations.deep_view() =~= Seq::<(u32, Seq<char>)>::empty());
        assert(start == RouteBackendsView {
            rules: old(backends).deep_view().rules.push(*rule),
            ..old(backends).deep_view()
        });
    }
    while i < route.destinations.len()
        invariant
            i <= route.destinations@.len(),
            with_destinations(*config, *route, start, i as nat) == Ok::<
                (RouteBackendsView, Seq<(u32, Seq<char>)>),
                Seq<char>,
            >((backends.deep_view(), destinations.deep_view())),
            with_route(*config, *listener, compiled_routes@, name@, old(backends).deep_view())
                == match with_destinations(*config, *route, start, route.destinations@.len()) {
                Err(e) => Err::<RouteBackendsView, Seq<char>>(e),
                Ok((after, list)) => Ok(
                    RouteBackendsView {
                        route_pools: after.route_pools.push((route.name@, list)),
                        ..after
                    },
                ),
            },
        decreases route.destinations@.len() - i,
    {
        match add_destination(config, route, &route.destinations[i], backends, &mut destinations) {
            Ok(()) => {},
            Err(e) => {
                proof {
                    lemma_destinations_fail_early(
                        *config,
                        *route,
                        start,
                        (i + 1) as nat,
                        route.destinations@.len(),
                    );
                }
                return Err(e);
            },
        }
        i = i + 1;
    }
    let ghost pools = backends.route_pools.deep_view();
    let entry = RoutePoolPlan { route: route.name.clone(), destinations };
    backends.route_pools.push(entry);
    proof {
        assert(backends.route_pools.deep_view() =~= pools.push(entry.deep_view()));
    }
    Ok(())
}

/// Plans the backends of a listener.
pub fn compile_route_backends(
    config: &WorkspaceConfig,
    listener: &ListenerResourceConfig,
    compiled_routes: &Vec<RoutePrefixRule>,
) -> (r: Result<RouteBackends, ServeError>)
    ensures
        agrees(r, route_backends(*config, *listener, compiled_routes@)),
{
    let mut backends = RouteBackends {
        rules: Vec::new(),
        upstreams: Vec::new(),
        cluster_pools: NamedMap::new(),
        route_pools: Vec::new(),
    };
    let mut i: usize = 0;
    proof {
        assert(backends.deep_view() =~= no_backends());
    }
    while i < listener.routes.len()
        invariant
            i <= listener.routes@.len(),
            with_routes(*config, *listener, compiled_routes@, i as nat) == Ok::<
                RouteBackendsView,
                Seq<char>,
            >(backends.deep_view()),
        decreases listener.routes@.len() - i,
    {
        match add_route(
            config,
            listener,
            compiled_routes,
            listener.routes[i].as_str(),
            &mut backends,
        ) {
            Ok(()) => {},
            Err(e) => {
                proof {
                    lemma_routes_fail_early(
                        *config,
                        *listener,
                        compiled_routes@,
                        (i + 1) as nat,
                        listener.routes@.len(),
                    );
                }
                return Err(e);
            },
        }
        i = i + 1;
    }
    if backends.upstreams.len() == 0 {
        let mut message = text("public listener ");
        message.append(listener.name.as_str());
        message.append(" must reference at least one route");
        return Err(ServeError { message });
    }
    Ok(backends)
}

/// Plans a pool for every cluster of a workspace, for mirrored requests.
pub fn compile_mirror_backend_pools(config: &WorkspaceConfig) -> (r: Vec<RouteBackendPoolPlan>)
    ensures
        r.deep_view() == config.upstream_clusters@.map_values(
            |c: UpstreamClusterConfig| planned_pool(c),
        ),
{
    let mut out: Vec<RouteBackendPoolPlan> = Vec::new();
    let mut i: usize = 0;
    while i < config.upstream_clusters.len()
        invariant
            i <= config.upstream_clusters@.len(),
            out@.len() == i,
            forall|j: int|
                0 <= j < i ==> (#[trigger] out@[j]).deep_view() == planned_pool(
                    config.upstream_clusters@[j],
                ),
        decreases config.upstream_clusters@.len() - i,
    {
        out.push(compile_route_backend_pool(&config.upstream_clusters[i]));
        i = i + 1;
    }
    proof {
        assert(out.deep_view() =~= config.upstream_clusters@.map_values(
            |c: UpstreamClusterConfig| planned_pool(c),
        ));
    }
    out
}

/// How sources that probe for routes are banned.
#[derive(Debug, Clone, Copy, PartialEq, Eq, Structural)]
pub struct RouteEnumerationProtectionPolicy {
    pub source_aggregation: SourceAggregation,
    pub evaluation_window_secs: u64,
    pub max_unmatched_route_events: u64,
    pub max_distinct_query_signatures_per_route: u64,
    pub base_ban_duration_secs: u64,
    pub max_ban_duration_secs: u64,
    pub max_tracked_sources: usize,
}

/// How sources that probe for routes are banned on every listener: three requests of one address
/// that match no route, or six different queries for one route, within thirty seconds, are
/// answered with a ban of one minute that grows up to a quarter of an hour.
pub open spec fn enumeration_defaults() -> RouteEnumerationProtectionPolicy {
    RouteEnumerationProtectionPolicy {
        source_aggregation: SourceAggregation::ExactIp,
        evaluation_window_secs: 30,
        max_unmatched_route_events: 3,
        max_distinct_query_signatures_per_route: 6,
        base_ban_duration_secs: 60,
        max_ban_duration_secs: 900,
        max_tracked_sources: 4096,
    }
}

/// How sources that probe for routes are banned on every listener.
pub fn default_route_enumeration_policy() -> (r: RouteEnumerationProtectionPolicy)
    ensures
        r == enumeration_defaults(),
{
    RouteEnumerationProtectionPolicy {
        source_aggregation: SourceAggregation::ExactIp,
        evaluation_window_secs: 30,
        max_unmatched_route_events: 3,
        max_distinct_query_signatures_per_route: 6,
        base_ban_duration_secs: 60,
        max_ban_duration_secs: 900,
        max_tracked_sources: 4096,
    }
}

/// Whether every cluster that some destinations name has a pool.
pub open spec fn destinations_have_pools(
    pools: Map<Seq<char>, PoolView>,
    destinations: Seq<(u32, Seq<char>)>,
) -> bool {
    forall|i: int|
        0 <= i < destinations.len() ==> pools.contains_key((#[trigger] destinations[i]).1)
}

/// Whether every cluster that the routes of a listener send requests to has a pool.
pub open spec fn routes_have_pools(backends: RouteBackendsView) -> bool {
    forall|i: int|
        0 <= i < backends.route_pools.len() ==> destinations_have_pools(
            backends.cluster_pools,
            (#[trigger] backends.route_pools[i]).1,
        )
}

proof fn lemma_destinations_have_pools(
    config: WorkspaceConfig,
    route: RouteConfig,
    backends: RouteBackendsView,
    n: nat,
)
    requires
        with_destinations(config, route, backends, n) is Ok,
    ensures
        ({
            let (after, destinations) = with_destinations(config, route, backends, n)->Ok_0;
            &&& destinations_have_pools(after.cluster_pools, destinations)
            &&& after.route_pools == backends.route_pools
            &&& forall|k: Seq<char>| #[trigger]
                backends.cluster_pools.contains_key(k) ==> after.cluster_pools.contains_key(k)
        }),
    decreases n,
{
    if n > 0 {
        lemma_destinations_have_pools(config, route, backends, (n - 1) as nat);
    }
}

proof fn lemma_routes_have_pools(
    config: WorkspaceConfig,
    listener: ListenerResourceConfig,
    compiled_routes: Seq<RoutePrefixRule>,
    n: nat,
)
    requires
        n <= listener.routes@.len(),
        with_routes(config, listener, compiled_routes, n) is Ok,
    ensures
        routes_have_pools(with_routes(config, listener, compiled_routes, n)->Ok_0),
        with_routes(config, listener, compiled_routes, n)->Ok_0.route_pools.len() == n,
    decreases n,
{
    if n > 0 {
        lemma_routes_have_pools(config, listener, compiled_routes, (n - 1) as nat);
        let before = with_routes(config, listener, compiled_routes, (n - 1) as nat)->Ok_0;
        let name = listener.routes@[n - 1]@;
        let route = route_named(config.routes@, name)->0;
        let rule = rule_labelled(compiled_routes, name)->0;
        let start = RouteBackendsView { rules: before.rules.push(rule), ..before };
        lemma_destinations_have_pools(config, route, start, route.destinations@.len());
        let (after, destinations) = with_destinations(
            config,
            route,
            start,
            route.destinations@.len(),
        )->Ok_0;
        let now = with_routes(config, listener, compiled_routes, n)->Ok_0;
        assert forall|i: int| 0 <= i < now.route_pools.len() implies destinations_have_pools(
            now.cluster_pools,
            (#[trigger] now.route_pools[i]).1,
        ) by {
            if i < before.route_pools.len() {
                assert(now.route_pools[i] == before.route_pools[i]);
                let earlier = before.route_pools[i].1;
                assert(destinations_have_pools(before.cluster_pools, earlier));
                assert forall|j: int| 0 <= j < earlier.len() implies now.cluster_pools.contains_key(
                    (#[trigger] earlier[j]).1,
                ) by {
                    assert(start.cluster_pools.contains_key(earlier[j].1));
                }
            } else {
                assert(now.route_pools[i].1 == destinations);
            }
        }
    }
}

/// In the backends of a listener every route has its pools, and every cluster that a route sends
/// requests to has one.
pub proof fn every_destination_has_a_pool(
    config: WorkspaceConfig,
    listener: ListenerResourceConfig,
    compiled_routes: Seq<RoutePrefixRule>,
)
    requires
        route_backends(config, listener, compiled_routes) is Ok,
    ensures
        routes_have_pools(route_backends(config, listener, compiled_routes)->Ok_0),
        route_backends(config, listener, compiled_routes)->Ok_0.route_pools.len()
            == listener.routes@.len(),
{
    lemma_routes_have_pools(config, listener, compiled_routes, listener.routes@.len());
}

} // verus!
