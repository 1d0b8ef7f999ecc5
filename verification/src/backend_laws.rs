//! What holds of the backends of every listener: which servers its requests can be sent to, and in
//! which shares.

use crate::compile_routes::{
    planned_pool, route_backends, with_destinations, with_routes, AffinityPolicy, EndpointPlan,
    PoolView, RouteBackendsView, UpstreamSelectionPolicy, UpstreamView,
};
use crate::config::{
    cluster_named, route_named, rule_labelled, AffinityPolicyConfig, ListenerResourceConfig,
    RouteConfig, RoutePrefixRule, UpstreamClusterConfig, UpstreamEndpointConfig,
    UpstreamTrafficPolicyConfig, WorkspaceConfig,
};
use crate::lookups::{
    first_cluster_is_found, first_route_is_found, first_rule_is_found, found_cluster_is_first,
    found_route_is_first, is_first_cluster, is_first_route, is_first_rule,
};
use vstd::prelude::*;

verus! {

/// Whether a route's requests are shared out as the route says: each destination in its place,
/// with its own weight.
pub open spec fn shares_follow(route: RouteConfig, pool: (Seq<char>, Seq<(u32, Seq<char>)>)) -> bool {
    &&& pool.0 == route.name@
    &&& pool.1.len() == route.destinations@.len()
    &&& forall|j: int|
        0 <= j < pool.1.len() ==> (#[trigger] pool.1[j]).0 == route.destinations@[j].weight
            && pool.1[j].1 == route.destinations@[j].upstream_cluster@
}

/// Whether an endpoint of a pool is the configured one.
pub open spec fn endpoint_follows(endpoint: UpstreamEndpointConfig, plan: EndpointPlan) -> bool {
    &&& plan.id@ == endpoint.id@
    &&& plan.address == endpoint.address
    &&& plan.weight == endpoint.weight
    &&& plan.zone == endpoint.zone
    &&& plan.locality == endpoint.locality
    &&& (plan.state is Ready <==> endpoint.state is Ready)
    &&& (plan.state is Draining <==> endpoint.state is Draining)
    &&& (plan.state is Unavailable <==> endpoint.state is Unavailable)
}

/// Whether clients are kept on an endpoint by what a cluster says: by the named header or by the
/// named cookie, or not at all.
pub open spec fn affinity_follows(
    affinity: Option<AffinityPolicyConfig>,
    plan: Option<AffinityPolicy>,
) -> bool {
    match plan {
        None => affinity is None,
        Some(AffinityPolicy::HeaderHash { header_name, .. }) => affinity matches Some(
            AffinityPolicyConfig::HeaderHash { header_name: named, .. },
        ) && header_name@ == named@,
        Some(AffinityPolicy::CookieHash { cookie_name, .. }) => affinity matches Some(
            AffinityPolicyConfig::CookieHash { cookie_name: named, .. },
        ) && cookie_name@ == named@,
    }
}

/// Whether endpoints are chosen as a cluster says.
pub open spec fn selection_follows(
    policy: UpstreamTrafficPolicyConfig,
    plan: UpstreamSelectionPolicy,
) -> bool {
    &&& (plan.algorithm is RoundRobin <==> policy.algorithm is RoundRobin)
    &&& (plan.algorithm is WeightedRoundRobin <==> policy.algorithm is WeightedRoundRobin)
    &&& (plan.algorithm is PowerOfTwoChoices <==> policy.algorithm is PowerOfTwoChoices)
    &&& (plan.locality is Disabled <==> policy.locality is Disabled)
    &&& (plan.locality is PreferLocality <==> policy.locality is PreferLocality)
    &&& (plan.locality is PreferZone <==> policy.locality is PreferZone)
    &&& (plan.locality is PreferLocalityThenZone <==> policy.locality is PreferLocalityThenZone)
    &&& (plan.no_healthy_fallback is Fail <==> policy.no_healthy_fallback is Fail)
    &&& (plan.no_healthy_fallback is IncludeUnhealthy
        <==> policy.no_healthy_fallback is IncludeUnhealthy)
    &&& affinity_follows(policy.affinity, plan.affinity)
}

/// Whether a pool is that of a cluster: it has the cluster's name and its endpoints, each in its
/// place, chooses among them as the cluster says, and warms each of them up for a second.
pub open spec fn pool_follows(cluster: UpstreamClusterConfig, pool: PoolView) -> bool {
    &&& pool.cluster == cluster.name@
    &&& pool.endpoints.len() == cluster.endpoints@.len()
    &&& forall|e: int|
        0 <= e < pool.endpoints.len() ==> endpoint_follows(
            cluster.endpoints@[e],
            #[trigger] pool.endpoints[e],
        )
    &&& selection_follows(cluster.traffic_policy, pool.selection)
    &&& pool.warmup_ms == 1000
}

/// The pool of a cluster has all that the cluster's configuration says, and nothing else.
pub proof fn pools_are_as_configured(cluster: UpstreamClusterConfig)
    ensures
        pool_follows(cluster, planned_pool(cluster)),
{
}

/// How many endpoints the first `n` destinations of a route have.
pub open spec fn route_size(config: WorkspaceConfig, route: RouteConfig, n: nat) -> nat
    decreases n,
{
    if n == 0 {
        0
    } else {
        let name = route.destinations@[n - 1].upstream_cluster@;
        route_size(config, route, (n - 1) as nat) + (cluster_named(
            config.upstream_clusters@,
            name,
        )->0).endpoints@.len()
    }
}

/// How many endpoints the destinations of the first `n` routes of a listener have.
pub open spec fn listener_size(
    config: WorkspaceConfig,
    listener: ListenerResourceConfig,
    n: nat,
) -> nat
    decreases n,
{
    if n == 0 {
        0
    } else {
        let route = route_named(config.routes@, listener.routes@[n - 1]@)->0;
        listener_size(config, listener, (n - 1) as nat) + route_size(
            config,
            route,
            route.destinations@.len(),
        )
    }
}

proof fn lemma_route_size(config: WorkspaceConfig, route: RouteConfig, j: nat, n: nat)
    requires
        j <= n,
    ensures
        route_size(config, route, j) <= route_size(config, route, n),
    decreases n,
{
    if j < n {
        lemma_route_size(config, route, j, (n - 1) as nat);
    }
}

proof fn lemma_listener_size(
    config: WorkspaceConfig,
    listener: ListenerResourceConfig,
    i: nat,
    n: nat,
)
    requires
        i <= n,
    ensures
        listener_size(config, listener, i) <= listener_size(config, listener, n),
    decreases n,
{
    if i < n {
        lemma_listener_size(config, listener, i, (n - 1) as nat);
    }
}

/// Whether a server that requests can be sent to is the endpoint `e` of the destination `j` of a
/// route.
pub open spec fn reaches(
    config: WorkspaceConfig,
    route: RouteConfig,
    j: int,
    e: int,
    upstream: UpstreamView,
) -> bool {
    let name = route.destinations@[j].upstream_cluster@;
    let cluster = cluster_named(config.upstream_clusters@, name)->0;
    &&& upstream.route_label == route.name@
    &&& upstream.name == name + ":"@ + cluster.endpoints@[e].id@
    &&& upstream.address == cluster.endpoints@[e].address
}

/// How many endpoints the cluster of the destination `j` of a route has.
pub open spec fn cluster_size(config: WorkspaceConfig, route: RouteConfig, j: int) -> nat {
    (cluster_named(config.upstream_clusters@, route.destinations@[j].upstream_cluster@)->0)
        .endpoints@.len()
}

/// Whether the servers from `base` on are those of the first `n` destinations of a route, in order.
pub open spec fn reaches_destinations(
    config: WorkspaceConfig,
    route: RouteConfig,
    n: nat,
    upstreams: Seq<UpstreamView>,
    base: int,
) -> bool {
    forall|j: int, e: int|
        0 <= j < n && 0 <= e < cluster_size(config, route, j) ==> #[trigger] reaches(
            config,
            route,
            j,
            e,
            upstreams[base + route_size(config, route, j as nat) + e],
        )
}

/// Whether each of a map's pools is that of the cluster with its name.
pub open spec fn pools_of_clusters(config: WorkspaceConfig, pools: Map<Seq<char>, PoolView>) -> bool {
    forall|name: Seq<char>| #[trigger]
        pools.contains_key(name) ==> cluster_named(config.upstream_clusters@, name) is Some
            && pools[name] == planned_pool(cluster_named(config.upstream_clusters@, name)->0)
}

/// Whether the first `n` destinations of a route name a cluster.
pub open spec fn names_cluster(route: RouteConfig, n: nat, name: Seq<char>) -> bool {
    exists|j: int| 0 <= j < n && (#[trigger] route.destinations@[j]).upstream_cluster@ == name
}

#[verifier::rlimit(40)]
proof fn lemma_destinations(
    config: WorkspaceConfig,
    route: RouteConfig,
    start: RouteBackendsView,
    n: nat,
)
    requires
        n <= route.destinations@.len(),
        with_destinations(config, route, start, n) is Ok,
        pools_of_clusters(config, start.cluster_pools),
    ensures
        ({
            let (after, shares) = with_destinations(config, route, start, n)->Ok_0;
            &&& after.rules == start.rules
            &&& after.route_pools == start.route_pools
            &&& shares.len() == n
            &&& forall|j: int|
                0 <= j < n ==> (#[trigger] shares[j]).0 == route.destinations@[j].weight
                    && shares[j].1 == route.destinations@[j].upstream_cluster@
            &&& forall|j: int|
                0 <= j < n ==> cluster_named(
                    config.upstream_clusters@,
                    (#[trigger] route.destinations@[j]).upstream_cluster@,
                ) is Some && cluster_size(config, route, j) > 0
            &&& pools_of_clusters(config, after.cluster_pools)
            &&& forall|name: Seq<char>| #[trigger]
                after.cluster_pools.contains_key(name) <==> start.cluster_pools.contains_key(name)
                    || names_cluster(route, n, name)
            &&& after.upstreams.len() == start.upstreams.len() + route_size(config, route, n)
            &&& forall|k: int|
                0 <= k < start.upstreams.len() ==> #[trigger] after.upstreams[k]
                    == start.upstreams[k]
            &&& reaches_destinations(
                config,
                route,
                n,
                after.upstreams,
                start.upstreams.len() as int,
            )
        }),
    decreases n,
{
    if n > 0 {
        let m = (n - 1) as nat;
        lemma_destinations(config, route, start, m);
        let (before, _) = with_destinations(config, route, start, m)->Ok_0;
        let (after, shares) = with_destinations(config, route, start, n)->Ok_0;
        let target = route.destinations@[m as int].upstream_cluster@;
        let c = found_cluster_is_first(config.upstream_clusters@, target);
        let cluster = config.upstream_clusters@[c];
        assert(cluster.name@ == target);
        assert forall|name: Seq<char>| #[trigger]
            after.cluster_pools.contains_key(name) <==> start.cluster_pools.contains_key(name)
                || names_cluster(route, n, name) by {
            assert(before.cluster_pools.contains_key(name) <==> start.cluster_pools.contains_key(
                name,
            ) || names_cluster(route, m, name));
            if names_cluster(route, m, name) {
                let j = choose|j: int|
                    0 <= j < m && (#[trigger] route.destinations@[j]).upstream_cluster@ == name;
                assert(names_cluster(route, n, name));
            }
            if name == target {
                assert(route.destinations@[m as int].upstream_cluster@ == name);
                assert(names_cluster(route, n, name));
            } else if names_cluster(route, n, name) {
                let j = choose|j: int|
                    0 <= j < n && (#[trigger] route.destinations@[j]).upstream_cluster@ == name;
                assert(j < m);
                assert(names_cluster(route, m, name));
            }
        }
        let base = start.upstreams.len() as int;
        assert forall|j: int, e: int|
            0 <= j < n && 0 <= e < cluster_size(config, route, j) implies #[trigger] reaches(
            config,
            route,
            j,
            e,
            after.upstreams[base + route_size(config, route, j as nat) + e],
        ) by {
            if j < m {
                lemma_route_size(config, route, (j + 1) as nat, m);
                let at = base + route_size(config, route, j as nat) + e;
                assert(reaches(config, route, j, e, before.upstreams[at]));
                assert(after.upstreams[at] == before.upstreams[at]);
            } else {
                let at = base + route_size(config, route, m) + e;
                assert(at == before.upstreams.len() + e);
            }
        }
    }
}

/// Whether the backends are those of the first `n` routes of a listener.
spec fn follows_routes(
    config: WorkspaceConfig,
    listener: ListenerResourceConfig,
    compiled_routes: Seq<RoutePrefixRule>,
    n: nat,
    b: RouteBackendsView,
) -> bool {
    &&& b.rules.len() == n
    &&& b.route_pools.len() == n
    &&& forall|i: int|
        0 <= i < n ==> {
            let name = (#[trigger] listener.routes@[i])@;
            let route = route_named(config.routes@, name)->0;
            &&& route_named(config.routes@, name) is Some
            &&& rule_labelled(compiled_routes, name) == Some(b.rules[i])
            &&& shares_follow(route, b.route_pools[i])
            &&& forall|j: int|
                0 <= j < route.destinations@.len() ==> cluster_named(
                    config.upstream_clusters@,
                    (#[trigger] route.destinations@[j]).upstream_cluster@,
                ) is Some && cluster_size(config, route, j) > 0
            &&& reaches_destinations(
                config,
                route,
                route.destinations@.len(),
                b.upstreams,
                listener_size(config, listener, i as nat) as int,
            )
        }
    &&& b.upstreams.len() == listener_size(config, listener, n)
    &&& pools_of_clusters(config, b.cluster_pools)
    &&& forall|name: Seq<char>| #[trigger]
        b.cluster_pools.contains_key(name) <==> exists|i: int|
            0 <= i < n && names_in_route(config, #[trigger] listener.routes@[i], name)
}

/// Whether some destination of the route that a name stands for names a cluster.
pub open spec fn names_in_route(config: WorkspaceConfig, route: String, name: Seq<char>) -> bool {
    let found = route_named(config.routes@, route@)->0;
    names_cluster(found, found.destinations@.len(), name)
}

#[verifier::rlimit(40)]
proof fn lemma_routes(
    config: WorkspaceConfig,
    listener: ListenerResourceConfig,
    compiled_routes: Seq<RoutePrefixRule>,
    n: nat,
)
    requires
        n <= listener.routes@.len(),
        with_routes(config, listener, compiled_routes, n) is Ok,
    ensures
        follows_routes(
            config,
            listener,
            compiled_routes,
            n,
            with_routes(config, listener, compiled_routes, n)->Ok_0,
        ),
    decreases n,
{
    if n > 0 {
        let m = (n - 1) as nat;
        lemma_routes(config, listener, compiled_routes, m);
        let before = with_routes(config, listener, compiled_routes, m)->Ok_0;
        let now = with_routes(config, listener, compiled_routes, n)->Ok_0;
        let name = listener.routes@[m as int]@;
        let route = route_named(config.routes@, name)->0;
        let rule = rule_labelled(compiled_routes, name)->0;
        let start = RouteBackendsView { rules: before.rules.push(rule), ..before };
        lemma_destinations(config, route, start, route.destinations@.len());
        let (after, shares) = with_destinations(
            config,
            route,
            start,
            route.destinations@.len(),
        )->Ok_0;
        assert(now.route_pools == before.route_pools.push((route.name@, shares)));
        assert forall|i: int| 0 <= i < n implies {
            let name = (#[trigger] listener.routes@[i])@;
            let route = route_named(config.routes@, name)->0;
            &&& route_named(config.routes@, name) is Some
            &&& rule_labelled(compiled_routes, name) == Some(now.rules[i])
            &&& shares_follow(route, now.route_pools[i])
            &&& forall|j: int|
                0 <= j < route.destinations@.len() ==> cluster_named(
                    config.upstream_clusters@,
                    (#[trigger] route.destinations@[j]).upstream_cluster@,
                ) is Some && cluster_size(config, route, j) > 0
            &&& reaches_destinations(
                config,
                route,
                route.destinations@.len(),
                now.upstreams,
                listener_size(config, listener, i as nat) as int,
            )
        } by {
            if i < m {
                let other = route_named(config.routes@, listener.routes@[i]@)->0;
                let base = listener_size(config, listener, i as nat) as int;
                lemma_listener_size(config, listener, (i + 1) as nat, m);
                assert forall|j: int, e: int|
                    0 <= j < other.destinations@.len() && 0 <= e < cluster_size(
                        config,
                        other,
                        j,
                    ) implies #[trigger] reaches(
                    config,
                    other,
                    j,
                    e,
                    now.upstreams[base + route_size(config, other, j as nat) + e],
                ) by {
                    let at = base + route_size(config, other, j as nat) + e;
                    lemma_route_size(
                        config,
                        other,
                        (j + 1) as nat,
                        other.destinations@.len(),
                    );
                    assert(reaches(config, other, j, e, before.upstreams[at]));
                    assert(now.upstreams[at] == start.upstreams[at]);
                }
            }
        }
        assert forall|cluster: Seq<char>| #[trigger]
            now.cluster_pools.contains_key(cluster) <==> exists|i: int|
                0 <= i < n && names_in_route(config, #[trigger] listener.routes@[i], cluster) by {
            assert(after.cluster_pools.contains_key(cluster)
                <==> start.cluster_pools.contains_key(cluster) || names_cluster(
                route,
                route.destinations@.len(),
                cluster,
            ));
            assert(before.cluster_pools.contains_key(cluster) <==> exists|i: int|
                0 <= i < m && names_in_route(config, #[trigger] listener.routes@[i], cluster));
            if names_cluster(route, route.destinations@.len(), cluster) {
                assert(names_in_route(config, listener.routes@[m as int], cluster));
            }
        }
    }
}

/// The requests of each route of a listener are shared out among the destinations of the route's
/// configuration: as many as it has, in its order, each with its own weight and cluster.
pub proof fn requests_are_shared_as_configured(
    config: WorkspaceConfig,
    listener: ListenerResourceConfig,
    compiled_routes: Seq<RoutePrefixRule>,
    i: int,
    r: int,
)
    requires
        route_backends(config, listener, compiled_routes) is Ok,
        0 <= i < listener.routes@.len(),
        is_first_route(config.routes@, r, listener.routes@[i]@),
    ensures
        ({
            let pools = (route_backends(config, listener, compiled_routes)->Ok_0).route_pools;
            let route = config.routes@[r];
            &&& pools.len() == listener.routes@.len()
            &&& pools[i].0 == listener.routes@[i]@
            &&& pools[i].1.len() == route.destinations@.len()
            &&& forall|j: int|
                0 <= j < route.destinations@.len() ==> #[trigger] pools[i].1[j] == (
                    route.destinations@[j].weight,
                    route.destinations@[j].upstream_cluster@,
                )
        }),
{
    lemma_routes(config, listener, compiled_routes, listener.routes@.len());
    first_route_is_found(config.routes@, r, listener.routes@[i]@);
    let b = route_backends(config, listener, compiled_routes)->Ok_0;
    assert(shares_follow(config.routes@[r], b.route_pools[i]));
}

/// Each route of a listener is matched by its own rule: the first with the route's name.
pub proof fn routes_are_matched_by_their_rules(
    config: WorkspaceConfig,
    listener: ListenerResourceConfig,
    compiled_routes: Seq<RoutePrefixRule>,
    i: int,
    k: int,
)
    requires
        route_backends(config, listener, compiled_routes) is Ok,
        0 <= i < listener.routes@.len(),
        is_first_rule(compiled_routes, k, listener.routes@[i]@),
    ensures
        (route_backends(config, listener, compiled_routes)->Ok_0).rules.len()
            == listener.routes@.len(),
        (route_backends(config, listener, compiled_routes)->Ok_0).rules[i] == compiled_routes[k],
{
    lemma_routes(config, listener, compiled_routes, listener.routes@.len());
    first_rule_is_found(compiled_routes, k, listener.routes@[i]@);
    assert(listener.routes@[i]@ == listener.routes@[i]@);
}

/// A listener has the pool of a cluster exactly where a destination of one of its routes names
/// the cluster, and it is the pool of the first cluster with that name.
#[verifier::rlimit(40)]
pub proof fn clusters_in_use_have_their_pools(
    config: WorkspaceConfig,
    listener: ListenerResourceConfig,
    compiled_routes: Seq<RoutePrefixRule>,
    name: Seq<char>,
)
    requires
        route_backends(config, listener, compiled_routes) is Ok,
    ensures
        ({
            let pools = (route_backends(config, listener, compiled_routes)->Ok_0).cluster_pools;
            &&& pools.contains_key(name) <==> exists|i: int, r: int, j: int|
                0 <= i < listener.routes@.len() && #[trigger] is_first_route(
                    config.routes@,
                    r,
                    listener.routes@[i]@,
                ) && 0 <= j < config.routes@[r].destinations@.len() && (
                #[trigger] config.routes@[r].destinations@[j]).upstream_cluster@ == name
            &&& forall|c: int|
                pools.contains_key(name) && #[trigger] is_first_cluster(
                    config.upstream_clusters@,
                    c,
                    name,
                ) ==> pool_follows(config.upstream_clusters@[c], pools[name])
        }),
{
    let n = listener.routes@.len();
    lemma_routes(config, listener, compiled_routes, n);
    let pools = (route_backends(config, listener, compiled_routes)->Ok_0).cluster_pools;
    if pools.contains_key(name) {
        let i = choose|i: int|
            0 <= i < n && names_in_route(config, #[trigger] listener.routes@[i], name);
        let r = found_route_is_first(config.routes@, listener.routes@[i]@);
        let route = config.routes@[r];
        let j = choose|j: int|
            0 <= j < route.destinations@.len() && (
            #[trigger] route.destinations@[j]).upstream_cluster@ == name;
        assert(is_first_route(config.routes@, r, listener.routes@[i]@));
        assert(config.routes@[r].destinations@[j].upstream_cluster@ == name);
    }
    if exists|i: int, r: int, j: int|
        0 <= i < listener.routes@.len() && #[trigger] is_first_route(
            config.routes@,
            r,
            listener.routes@[i]@,
        ) && 0 <= j < config.routes@[r].destinations@.len() && (
        #[trigger] config.routes@[r].destinations@[j]).upstream_cluster@ == name {
        let (i, r, j) = choose|i: int, r: int, j: int|
            0 <= i < listener.routes@.len() && #[trigger] is_first_route(
                config.routes@,
                r,
                listener.routes@[i]@,
            ) && 0 <= j < config.routes@[r].destinations@.len() && (
            #[trigger] config.routes@[r].destinations@[j]).upstream_cluster@ == name;
        first_route_is_found(config.routes@, r, listener.routes@[i]@);
        assert(names_cluster(config.routes@[r], config.routes@[r].destinations@.len(), name));
        assert(names_in_route(config, listener.routes@[i], name));
    }
    assert forall|c: int|
        pools.contains_key(name) && #[trigger] is_first_cluster(
            config.upstream_clusters@,
            c,
            name,
        ) implies pool_follows(config.upstream_clusters@[c], pools[name]) by {
        first_cluster_is_found(config.upstream_clusters@, c, name);
        pools_are_as_configured(config.upstream_clusters@[c]);
    }
}

/// The servers that a listener's requests can be sent to are the endpoints of its destinations,
/// route by route, destination by destination and endpoint by endpoint, each under the name of
/// its cluster and its own, and no others.
#[verifier::rlimit(40)]
pub proof fn servers_stand_in_the_order_of_routes(
    config: WorkspaceConfig,
    listener: ListenerResourceConfig,
    compiled_routes: Seq<RoutePrefixRule>,
    i: int,
    r: int,
    j: int,
    c: int,
    e: int,
)
    requires
        route_backends(config, listener, compiled_routes) is Ok,
        0 <= i < listener.routes@.len(),
        is_first_route(config.routes@, r, listener.routes@[i]@),
        0 <= j < config.routes@[r].destinations@.len(),
        is_first_cluster(
            config.upstream_clusters@,
            c,
            config.routes@[r].destinations@[j].upstream_cluster@,
        ),
        0 <= e < config.upstream_clusters@[c].endpoints@.len(),
    ensures
        ({
            let upstreams = (route_backends(config, listener, compiled_routes)->Ok_0).upstreams;
            let cluster = config.upstream_clusters@[c];
            let at = listener_size(config, listener, i as nat) + route_size(
                config,
                config.routes@[r],
                j as nat,
            ) + e;
            &&& upstreams.len() == listener_size(config, listener, listener.routes@.len())
            &&& 0 <= at < upstreams.len()
            &&& upstreams[at].route_label == listener.routes@[i]@
            &&& upstreams[at].name == cluster.name@ + ":"@ + cluster.endpoints@[e].id@
            &&& upstreams[at].address == cluster.endpoints@[e].address
        }),
{
    let n = listener.routes@.len();
    let route = config.routes@[r];
    lemma_routes(config, listener, compiled_routes, n);
    first_route_is_found(config.routes@, r, listener.routes@[i]@);
    first_cluster_is_found(
        config.upstream_clusters@,
        c,
        route.destinations@[j].upstream_cluster@,
    );
    lemma_route_size(config, route, (j + 1) as nat, route.destinations@.len());
    lemma_listener_size(config, listener, (i + 1) as nat, n);
    let b = route_backends(config, listener, compiled_routes)->Ok_0;
    let base = listener_size(config, listener, i as nat) as int;
    assert(reaches_destinations(config, route, route.destinations@.len(), b.upstreams, base));
    assert(reaches(
        config,
        route,
        j,
        e,
        b.upstreams[base + route_size(config, route, j as nat) + e],
    ));
}

/// The backends of a listener are refused only for a reason: a route of it is not there or has no
/// matching rule, a destination's cluster is not there or has no endpoint, or there is no server
/// at all. And for each of these reasons they are refused.
#[verifier::rlimit(40)]
pub proof fn backends_are_refused_only_for_a_reason(
    config: WorkspaceConfig,
    listener: ListenerResourceConfig,
    compiled_routes: Seq<RoutePrefixRule>,
)
    ensures
        route_backends(config, listener, compiled_routes) is Ok <==> {
            &&& forall|i: int|
                0 <= i < listener.routes@.len() ==> route_is_served(
                    config,
                    compiled_routes,
                    (#[trigger] listener.routes@[i])@,
                )
            &&& exists|i: int|
                0 <= i < listener.routes@.len() && (route_named(
                    config.routes@,
                    (#[trigger] listener.routes@[i])@,
                )->0).destinations@.len() > 0
        },
{
    let n = listener.routes@.len();
    if route_backends(config, listener, compiled_routes) is Ok {
        lemma_routes(config, listener, compiled_routes, n);
        assert forall|i: int| 0 <= i < n implies route_is_served(
            config,
            compiled_routes,
            (#[trigger] listener.routes@[i])@,
        ) by {
            let route = route_named(config.routes@, listener.routes@[i]@)->0;
            assert forall|j: int| 0 <= j < route.destinations@.len() implies {
                let cluster = cluster_named(
                    config.upstream_clusters@,
                    (#[trigger] route.destinations@[j]).upstream_cluster@,
                );
                cluster is Some && (cluster->0).endpoints@.len() > 0
            } by {
                assert(cluster_size(config, route, j) > 0);
            }
        }
        if forall|i: int|
            0 <= i < n ==> (route_named(config.routes@, (#[trigger] listener.routes@[i])@)->0)
                .destinations@.len() == 0 {
            lemma_nothing_to_reach(config, listener, n);
        }
    }
    if {
        &&& forall|i: int|
            0 <= i < n ==> route_is_served(
                config,
                compiled_routes,
                (#[trigger] listener.routes@[i])@,
            )
        &&& exists|i: int|
            0 <= i < n && (route_named(config.routes@, (#[trigger] listener.routes@[i])@)->0)
                .destinations@.len() > 0
    } {
        lemma_served_routes(config, listener, compiled_routes, n);
        lemma_routes(config, listener, compiled_routes, n);
        let i = choose|i: int|
            0 <= i < n && (route_named(config.routes@, (#[trigger] listener.routes@[i])@)->0)
                .destinations@.len() > 0;
        let route = route_named(config.routes@, listener.routes@[i]@)->0;
        lemma_listener_size(config, listener, (i + 1) as nat, n);
        lemma_route_size(config, route, 1, route.destinations@.len());
        assert(route_is_served(config, compiled_routes, listener.routes@[i]@));
        assert(route.destinations@[0].upstream_cluster@ == route.destinations@[0].upstream_cluster@);
        assert(cluster_size(config, route, 0) > 0);
        assert(route_size(config, route, 1) == route_size(config, route, 0) + cluster_size(
            config,
            route,
            0,
        ));
    }
}

/// Whether a route is there with a matching rule, and the clusters of all its destinations are
/// there, each with an endpoint.
pub open spec fn route_is_served(
    config: WorkspaceConfig,
    compiled_routes: Seq<RoutePrefixRule>,
    name: Seq<char>,
) -> bool {
    let route = route_named(config.routes@, name)->0;
    &&& route_named(config.routes@, name) is Some
    &&& rule_labelled(compiled_routes, name) is Some
    &&& forall|j: int|
        0 <= j < route.destinations@.len() ==> {
            let cluster = cluster_named(
                config.upstream_clusters@,
                (#[trigger] route.destinations@[j]).upstream_cluster@,
            );
            cluster is Some && (cluster->0).endpoints@.len() > 0
        }
}

proof fn lemma_nothing_to_reach(
    config: WorkspaceConfig,
    listener: ListenerResourceConfig,
    n: nat,
)
    requires
        n <= listener.routes@.len(),
        forall|i: int|
            0 <= i < n ==> (route_named(config.routes@, (#[trigger] listener.routes@[i])@)->0)
                .destinations@.len() == 0,
    ensures
        listener_size(config, listener, n) == 0,
    decreases n,
{
    if n > 0 {
        lemma_nothing_to_reach(config, listener, (n - 1) as nat);
        assert((route_named(config.routes@, listener.routes@[n - 1]@)->0).destinations@.len() == 0);
    }
}

proof fn lemma_served_destinations(
    config: WorkspaceConfig,
    compiled_routes: Seq<RoutePrefixRule>,
    name: Seq<char>,
    start: RouteBackendsView,
    n: nat,
)
    requires
        route_is_served(config, compiled_routes, name),
        n <= (route_named(config.routes@, name)->0).destinations@.len(),
    ensures
        with_destinations(config, route_named(config.routes@, name)->0, start, n) is Ok,
    decreases n,
{
    if n > 0 {
        lemma_served_destinations(config, compiled_routes, name, start, (n - 1) as nat);
        let route = route_named(config.routes@, name)->0;
        assert(cluster_named(
            config.upstream_clusters@,
            route.destinations@[n - 1].upstream_cluster@,
        ) is Some);
    }
}

#[verifier::rlimit(40)]
proof fn lemma_served_routes(
    config: WorkspaceConfig,
    listener: ListenerResourceConfig,
    compiled_routes: Seq<RoutePrefixRule>,
    n: nat,
)
    requires
        n <= listener.routes@.len(),
        forall|i: int|
            0 <= i < n ==> route_is_served(
                config,
                compiled_routes,
                (#[trigger] listener.routes@[i])@,
            ),
    ensures
        with_routes(config, listener, compiled_routes, n) is Ok,
    decreases n,
{
    if n > 0 {
        lemma_served_routes(config, listener, compiled_routes, (n - 1) as nat);
        let name = listener.routes@[n - 1]@;
        let before = with_routes(config, listener, compiled_routes, (n - 1) as nat)->Ok_0;
        let rule = rule_labelled(compiled_routes, name)->0;
        assert(route_is_served(config, compiled_routes, name));
        lemma_served_destinations(
            config,
            compiled_routes,
            name,
            RouteBackendsView { rules: before.rules.push(rule), ..before },
            (route_named(config.routes@, name)->0).destinations@.len(),
        );
    }
}

} // verus!
