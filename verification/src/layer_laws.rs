//! What holds of the policies and transformations in force for every destination: which layer
//! decides, and what is put together.

use crate::config::{
    cluster_named, policy_named, route_named, ListenerResourceConfig, PolicyBindingConfig,
    RouteConfig, RouteDestinationConfig, UpstreamClusterConfig, WorkspaceConfig,
};
use crate::effective_policies::{
    destination_policies, effective_policies, inner_wins, layer_of, listener_policies,
    merged_request, merged_response, referred_route_policies, route_policies, EffectivePolicyView,
    LayerView, RequestTransformView, ResponseTransformView,
};
use crate::lookups::{
    first_cluster_is_found, first_route_is_found, found_route_is_first, is_first_cluster,
    is_first_route,
};
use vstd::prelude::*;

verus! {

/// The path that a layer gives to requests, where it gives one.
pub open spec fn path_of(layer: Option<RequestTransformView>) -> Option<Seq<char>> {
    match layer {
        Some(t) => t.path_rewrite,
        None => None,
    }
}

/// The host that a layer gives to requests, where it gives one.
pub open spec fn host_of(layer: Option<RequestTransformView>) -> Option<Seq<char>> {
    match layer {
        Some(t) => t.host_rewrite,
        None => None,
    }
}

/// The header changes of a layer to requests.
pub open spec fn request_headers_of(layer: Option<RequestTransformView>) -> Seq<Seq<char>> {
    match layer {
        Some(t) => t.header_mutations,
        None => Seq::empty(),
    }
}

/// The header changes of a layer to responses.
pub open spec fn response_headers_of(layer: Option<ResponseTransformView>) -> Seq<Seq<char>> {
    match layer {
        Some(t) => t.header_mutations,
        None => Seq::empty(),
    }
}

/// Whether a list is three lists one after the other.
pub open spec fn holds_in_order(
    list: Seq<Seq<char>>,
    first: Seq<Seq<char>>,
    second: Seq<Seq<char>>,
    third: Seq<Seq<char>>,
) -> bool {
    &&& list.len() == first.len() + second.len() + third.len()
    &&& forall|i: int| 0 <= i < first.len() ==> #[trigger] list[i] == first[i]
    &&& forall|i: int|
        0 <= i < second.len() ==> list[first.len() + i] == #[trigger] second[i]
    &&& forall|i: int|
        0 <= i < third.len() ==> list[first.len() + second.len() + i] == #[trigger] third[i]
}

/// A rewrite of the destination's layer is the one in force; where the destination has none, that
/// of the route's layer; and only where the route has none either, that of the listener's layer.
/// Header changes of all layers are in force, from the listener's to the destination's. Where no
/// layer says anything, nothing is changed.
pub proof fn inner_rewrites_win(
    listener: Option<RequestTransformView>,
    route: Option<RequestTransformView>,
    destination: Option<RequestTransformView>,
)
    ensures
        ({
            let merged = merged_request(listener, route, destination);
            &&& merged is None <==> listener is None && route is None && destination is None
            &&& path_of(destination) is Some ==> path_of(merged) == path_of(destination)
            &&& path_of(destination) is None && path_of(route) is Some ==> path_of(merged)
                == path_of(route)
            &&& path_of(destination) is None && path_of(route) is None ==> path_of(merged)
                == path_of(listener)
            &&& host_of(destination) is Some ==> host_of(merged) == host_of(destination)
            &&& host_of(destination) is None && host_of(route) is Some ==> host_of(merged)
                == host_of(route)
            &&& host_of(destination) is None && host_of(route) is None ==> host_of(merged)
                == host_of(listener)
            &&& holds_in_order(
                request_headers_of(merged),
                request_headers_of(listener),
                request_headers_of(route),
                request_headers_of(destination),
            )
        }),
{
}

/// Header changes of all layers to responses are in force, from the listener's to the
/// destination's. Where no layer says anything, nothing is changed.
pub proof fn response_changes_add_up(
    listener: Option<ResponseTransformView>,
    route: Option<ResponseTransformView>,
    destination: Option<ResponseTransformView>,
)
    ensures
        ({
            let merged = merged_response(listener, route, destination);
            &&& merged is None <==> listener is None && route is None && destination is None
            &&& holds_in_order(
                response_headers_of(merged),
                response_headers_of(listener),
                response_headers_of(route),
                response_headers_of(destination),
            )
        }),
{
}

/// What a resource's transformation changes in requests, where it refers to one that is there.
pub open spec fn request_changes(
    config: WorkspaceConfig,
    policies: PolicyBindingConfig,
) -> Option<RequestTransformView> {
    match policies.transform_policy {
        Some(name) => match policy_named(config.policies.transforms@, name@) {
            Some(policy) => Some(policy.request.deep_view()),
            None => None,
        },
        None => None,
    }
}

/// What a resource's transformation changes in responses, where it refers to one that is there.
pub open spec fn response_changes(
    config: WorkspaceConfig,
    policies: PolicyBindingConfig,
) -> Option<ResponseTransformView> {
    match policies.transform_policy {
        Some(name) => match policy_named(config.policies.transforms@, name@) {
            Some(policy) => Some(policy.response.deep_view()),
            None => None,
        },
        None => None,
    }
}

/// Whether the transformation that a resource refers to, where it does, is there.
pub open spec fn transform_is_there(config: WorkspaceConfig, policies: PolicyBindingConfig) -> bool {
    policies.transform_policy matches Some(name) ==> policy_named(
        config.policies.transforms@,
        name@,
    ) is Some
}

proof fn lemma_layer(config: WorkspaceConfig, policies: PolicyBindingConfig, referrer: Seq<char>)
    ensures
        layer_of(config, policies.transform_policy, referrer) is Ok <==> transform_is_there(
            config,
            policies,
        ),
        layer_of(config, policies.transform_policy, referrer) is Ok ==> layer_of(
            config,
            policies.transform_policy,
            referrer,
        )->Ok_0 == (LayerView {
            request: request_changes(config, policies),
            response: response_changes(config, policies),
        }),
{
}

/// Whether the references in force for a destination are the innermost of the listener's, the
/// route's and the destination's own, and its limits are those of all three.
pub open spec fn references_follow(
    l: PolicyBindingConfig,
    r: PolicyBindingConfig,
    d: PolicyBindingConfig,
    cluster: PolicyBindingConfig,
    policy: EffectivePolicyView,
) -> bool {
    &&& inner_wins(policy.retry_budget, l.retry_budget, r.retry_budget, d.retry_budget)
    &&& inner_wins(
        policy.timeout_hierarchy,
        l.timeout_hierarchy,
        r.timeout_hierarchy,
        d.timeout_hierarchy,
    )
    &&& inner_wins(policy.circuit_breaker, l.circuit_breaker, r.circuit_breaker, d.circuit_breaker)
    &&& inner_wins(policy.jwt_auth_policy, l.jwt_auth_policy, r.jwt_auth_policy, d.jwt_auth_policy)
    &&& inner_wins(
        policy.external_auth_policy,
        l.external_auth_policy,
        r.external_auth_policy,
        d.external_auth_policy,
    )
    &&& inner_wins(
        policy.authorization_policy,
        l.authorization_policy,
        r.authorization_policy,
        d.authorization_policy,
    )
    &&& inner_wins(
        policy.transform_policy,
        l.transform_policy,
        r.transform_policy,
        d.transform_policy,
    )
    &&& inner_wins(policy.traffic_mirror, l.traffic_mirror, r.traffic_mirror, d.traffic_mirror)
    &&& inner_wins(policy.fault_injection, l.fault_injection, r.fault_injection, d.fault_injection)
    &&& inner_wins(
        policy.upstream_identity_policy,
        cluster.upstream_identity_policy,
        None,
        d.upstream_identity_policy,
    )
    &&& holds_in_order(
        policy.local_rate_limits,
        l.local_rate_limits.deep_view(),
        r.local_rate_limits.deep_view(),
        d.local_rate_limits.deep_view(),
    )
    &&& holds_in_order(
        policy.local_concurrency_limits,
        l.local_concurrency_limits.deep_view(),
        r.local_concurrency_limits.deep_view(),
        d.local_concurrency_limits.deep_view(),
    )
}

/// Whether the changes in force for a destination are those of the listener's, the route's and
/// the destination's own transformations, with the innermost rewrites.
pub open spec fn changes_follow(
    config: WorkspaceConfig,
    l: PolicyBindingConfig,
    r: PolicyBindingConfig,
    d: PolicyBindingConfig,
    policy: EffectivePolicyView,
) -> bool {
    let merged = policy.effective_request_transform;
    let listener = request_changes(config, l);
    let route = request_changes(config, r);
    let destination = request_changes(config, d);
    &&& merged is None <==> l.transform_policy is None && r.transform_policy is None
        && d.transform_policy is None
    &&& path_of(destination) is Some ==> path_of(merged) == path_of(destination)
    &&& path_of(destination) is None && path_of(route) is Some ==> path_of(merged) == path_of(route)
    &&& path_of(destination) is None && path_of(route) is None ==> path_of(merged) == path_of(
        listener,
    )
    &&& host_of(destination) is Some ==> host_of(merged) == host_of(destination)
    &&& host_of(destination) is None && host_of(route) is Some ==> host_of(merged) == host_of(route)
    &&& host_of(destination) is None && host_of(route) is None ==> host_of(merged) == host_of(
        listener,
    )
    &&& holds_in_order(
        request_headers_of(merged),
        request_headers_of(listener),
        request_headers_of(route),
        request_headers_of(destination),
    )
    &&& policy.effective_response_transform is None <==> merged is None
    &&& holds_in_order(
        response_headers_of(policy.effective_response_transform),
        response_headers_of(response_changes(config, l)),
        response_headers_of(response_changes(config, r)),
        response_headers_of(response_changes(config, d)),
    )
}

/// Whether a policy is the one in force for a destination.
pub open spec fn policy_follows(
    config: WorkspaceConfig,
    listener: ListenerResourceConfig,
    route: RouteConfig,
    destination: RouteDestinationConfig,
    cluster: UpstreamClusterConfig,
    policy: EffectivePolicyView,
) -> bool {
    &&& policy.upstream_cluster == destination.upstream_cluster@
    &&& references_follow(
        listener.policies,
        route.policies,
        destination.policies,
        cluster.policies,
        policy,
    )
    &&& changes_follow(
        config,
        listener.policies,
        route.policies,
        destination.policies,
        policy,
    )
}

#[verifier::rlimit(40)]
proof fn lemma_destination(
    config: WorkspaceConfig,
    listener: ListenerResourceConfig,
    route: RouteConfig,
    destination: RouteDestinationConfig,
    outer: LayerView,
    middle: LayerView,
)
    requires
        transform_is_there(config, listener.policies),
        transform_is_there(config, route.policies),
        outer.request == request_changes(config, listener.policies),
        outer.response == response_changes(config, listener.policies),
        middle.request == request_changes(config, route.policies),
        middle.response == response_changes(config, route.policies),
    ensures
        destination_policies(config, listener, route, destination, outer, middle) is Ok <==> (
        cluster_named(config.upstream_clusters@, destination.upstream_cluster@) is Some
            && transform_is_there(config, destination.policies)),
        destination_policies(config, listener, route, destination, outer, middle) is Ok
            ==> policy_follows(
            config,
            listener,
            route,
            destination,
            cluster_named(config.upstream_clusters@, destination.upstream_cluster@)->0,
            destination_policies(config, listener, route, destination, outer, middle)->Ok_0,
        ),
{
    lemma_layer(
        config,
        destination.policies,
        crate::effective_policies::destination_label(route, destination),
    );
    inner_rewrites_win(outer.request, middle.request, request_changes(config, destination.policies));
    response_changes_add_up(
        outer.response,
        middle.response,
        response_changes(config, destination.policies),
    );
}

/// Whether the clusters and the transformations of the first `n` destinations of a route are
/// there.
pub open spec fn destinations_are_there(
    config: WorkspaceConfig,
    route: RouteConfig,
    n: nat,
) -> bool {
    forall|j: int|
        0 <= j < n ==> cluster_named(
            config.upstream_clusters@,
            (#[trigger] route.destinations@[j]).upstream_cluster@,
        ) is Some && transform_is_there(config, route.destinations@[j].policies)
}

/// Whether policies are those in force for the destinations of a route, each in its place.
pub open spec fn route_policies_follow(
    config: WorkspaceConfig,
    listener: ListenerResourceConfig,
    route: RouteConfig,
    policies: Seq<EffectivePolicyView>,
) -> bool {
    forall|j: int|
        0 <= j < policies.len() ==> policy_follows(
            config,
            listener,
            route,
            route.destinations@[j],
            cluster_named(
                config.upstream_clusters@,
                route.destinations@[j].upstream_cluster@,
            )->0,
            #[trigger] policies[j],
        )
}

#[verifier::rlimit(40)]
proof fn lemma_route(
    config: WorkspaceConfig,
    listener: ListenerResourceConfig,
    route: RouteConfig,
    outer: LayerView,
    middle: LayerView,
    n: nat,
)
    requires
        n <= route.destinations@.len(),
        transform_is_there(config, listener.policies),
        transform_is_there(config, route.policies),
        outer.request == request_changes(config, listener.policies),
        outer.response == response_changes(config, listener.policies),
        middle.request == request_changes(config, route.policies),
        middle.response == response_changes(config, route.policies),
    ensures
        route_policies(config, listener, route, outer, middle, n) is Ok <==> destinations_are_there(
            config,
            route,
            n,
        ),
        route_policies(config, listener, route, outer, middle, n) matches Ok(policies) ==> (
        policies.len() == n && route_policies_follow(config, listener, route, policies)),
    decreases n,
{
    if n > 0 {
        let m = (n - 1) as nat;
        lemma_route(config, listener, route, outer, middle, m);
        lemma_destination(
            config,
            listener,
            route,
            route.destinations@[m as int],
            outer,
            middle,
        );
        if destinations_are_there(config, route, n) {
            assert(destinations_are_there(config, route, m));
            assert(transform_is_there(config, route.destinations@[m as int].policies));
        }
        if route_policies(config, listener, route, outer, middle, n) is Ok {
            assert(destinations_are_there(config, route, n));
        }
    }
}

/// Whether a route is there, with all that its transformations and destinations refer to.
pub open spec fn route_is_complete(config: WorkspaceConfig, name: Seq<char>) -> bool {
    let route = route_named(config.routes@, name)->0;
    &&& route_named(config.routes@, name) is Some
    &&& transform_is_there(config, route.policies)
    &&& destinations_are_there(config, route, route.destinations@.len())
}

/// Whether policies are those in force for the route with a name.
pub open spec fn named_policies_follow(
    config: WorkspaceConfig,
    listener: ListenerResourceConfig,
    name: Seq<char>,
    policies: Seq<EffectivePolicyView>,
) -> bool {
    let route = route_named(config.routes@, name)->0;
    &&& route_is_complete(config, name)
    &&& policies.len() == route.destinations@.len()
    &&& route_policies_follow(config, listener, route, policies)
}

proof fn lemma_referred(
    config: WorkspaceConfig,
    listener: ListenerResourceConfig,
    outer: LayerView,
    name: Seq<char>,
)
    requires
        transform_is_there(config, listener.policies),
        outer.request == request_changes(config, listener.policies),
        outer.response == response_changes(config, listener.policies),
    ensures
        referred_route_policies(config, listener, outer, name) is Ok <==> route_is_complete(
            config,
            name,
        ),
        referred_route_policies(config, listener, outer, name) matches Ok((found, policies)) ==> (
        found == name && named_policies_follow(config, listener, name, policies)),
{
    if route_named(config.routes@, name) is Some {
        let r = found_route_is_first(config.routes@, name);
        let route = config.routes@[r];
        lemma_layer(config, route.policies, route.name@);
        if transform_is_there(config, route.policies) {
            let middle = layer_of(config, route.policies.transform_policy, route.name@)->Ok_0;
            lemma_route(config, listener, route, outer, middle, route.destinations@.len());
        }
    }
}

#[verifier::rlimit(40)]
proof fn lemma_listener(
    config: WorkspaceConfig,
    listener: ListenerResourceConfig,
    outer: LayerView,
    n: nat,
)
    requires
        n <= listener.routes@.len(),
        transform_is_there(config, listener.policies),
        outer.request == request_changes(config, listener.policies),
        outer.response == response_changes(config, listener.policies),
    ensures
        listener_policies(config, listener, outer, n) is Ok <==> forall|i: int|
            0 <= i < n ==> route_is_complete(config, (#[trigger] listener.routes@[i])@),
        listener_policies(config, listener, outer, n) matches Ok(map) ==> {
            &&& map.dom().finite()
            &&& forall|name: Seq<char>| #[trigger]
                map.contains_key(name) <==> exists|i: int|
                    0 <= i < n && (#[trigger] listener.routes@[i])@ == name
            &&& forall|name: Seq<char>| #[trigger]
                map.contains_key(name) ==> named_policies_follow(
                    config,
                    listener,
                    name,
                    map[name],
                )
        },
    decreases n,
{
    if n > 0 {
        let m = (n - 1) as nat;
        lemma_listener(config, listener, outer, m);
        let last = listener.routes@[m as int]@;
        lemma_referred(config, listener, outer, last);
        if listener_policies(config, listener, outer, n) is Ok {
            let before = listener_policies(config, listener, outer, m)->Ok_0;
            let map = listener_policies(config, listener, outer, n)->Ok_0;
            assert forall|name: Seq<char>| #[trigger]
                map.contains_key(name) <==> exists|i: int|
                    0 <= i < n && (#[trigger] listener.routes@[i])@ == name by {
                assert(before.contains_key(name) <==> exists|i: int|
                    0 <= i < m && (#[trigger] listener.routes@[i])@ == name);
                if name == last {
                    assert(listener.routes@[m as int]@ == name);
                }
            }
            assert forall|name: Seq<char>| #[trigger] map.contains_key(name) implies
                named_policies_follow(config, listener, name, map[name]) by {
                if name != last {
                    assert(before.contains_key(name));
                }
            }
        } else if forall|i: int|
            0 <= i < n ==> route_is_complete(config, (#[trigger] listener.routes@[i])@) {
            assert(route_is_complete(config, listener.routes@[m as int]@));
        }
    }
}

/// For every route of a listener and each of its destinations, in the order of the configuration,
/// the policies in force are the innermost that the listener, the route and the destination refer
/// to, the limits are those of all three, and so are the changes to requests and responses, with
/// the innermost rewrites. There are such policies for the listener's routes and for no others.
#[verifier::rlimit(40)]
pub proof fn policies_in_force_are_the_innermost(
    config: WorkspaceConfig,
    listener: ListenerResourceConfig,
    i: int,
    r: int,
    j: int,
    c: int,
)
    requires
        effective_policies(config, listener) is Ok,
        0 <= i < listener.routes@.len(),
        is_first_route(config.routes@, r, listener.routes@[i]@),
        0 <= j < config.routes@[r].destinations@.len(),
        is_first_cluster(
            config.upstream_clusters@,
            c,
            config.routes@[r].destinations@[j].upstream_cluster@,
        ),
    ensures
        ({
            let map = effective_policies(config, listener)->Ok_0;
            let route = config.routes@[r];
            &&& map.contains_key(route.name@)
            &&& map[route.name@].len() == route.destinations@.len()
            &&& policy_follows(
                config,
                listener,
                route,
                route.destinations@[j],
                config.upstream_clusters@[c],
                map[route.name@][j],
            )
        }),
{
    lemma_layer(config, listener.policies, listener.name@);
    let outer = layer_of(config, listener.policies.transform_policy, listener.name@)->Ok_0;
    lemma_listener(config, listener, outer, listener.routes@.len());
    first_route_is_found(config.routes@, r, listener.routes@[i]@);
    first_cluster_is_found(
        config.upstream_clusters@,
        c,
        config.routes@[r].destinations@[j].upstream_cluster@,
    );
    let map = effective_policies(config, listener)->Ok_0;
    let name = config.routes@[r].name@;
    assert(listener.routes@[i]@ == name);
    assert(map.contains_key(name));
    assert(route_policies_follow(config, listener, config.routes@[r], map[name]));
}

/// Policies are in force for the routes that a listener names, and for no others.
pub proof fn policies_are_in_force_for_named_routes(
    config: WorkspaceConfig,
    listener: ListenerResourceConfig,
    name: Seq<char>,
)
    requires
        effective_policies(config, listener) is Ok,
    ensures
        (effective_policies(config, listener)->Ok_0).contains_key(name) <==> exists|i: int|
            0 <= i < listener.routes@.len() && (#[trigger] listener.routes@[i])@ == name,
        (effective_policies(config, listener)->Ok_0).dom().finite(),
{
    lemma_layer(config, listener.policies, listener.name@);
    let outer = layer_of(config, listener.policies.transform_policy, listener.name@)->Ok_0;
    lemma_listener(config, listener, outer, listener.routes@.len());
}

/// The policies in force are refused only where something that they are made of is not there: a
/// transformation of the listener, a route, its transformation, a cluster of a destination of it,
/// or the destination's transformation. And wherever one of these is not there, they are refused.
pub proof fn policies_are_refused_only_for_a_reason(
    config: WorkspaceConfig,
    listener: ListenerResourceConfig,
)
    ensures
        effective_policies(config, listener) is Ok <==> {
            &&& transform_is_there(config, listener.policies)
            &&& forall|i: int|
                0 <= i < listener.routes@.len() ==> route_is_complete(
                    config,
                    (#[trigger] listener.routes@[i])@,
                )
        },
{
    lemma_layer(config, listener.policies, listener.name@);
    if transform_is_there(config, listener.policies) {
        let outer = layer_of(config, listener.policies.transform_policy, listener.name@)->Ok_0;
        lemma_listener(config, listener, outer, listener.routes@.len());
    }
}

} // verus!
