//! What holds of all configurations that are refused: what the failure says, and which of several
//! things amiss it speaks of.

use crate::compile_policies::{
    listener_abuse, listener_overload, listener_request_transforms, listener_response_transforms,
};
use crate::compile_routes::{with_destination, with_route, RouteBackendsView};
use crate::compile_runtime::{
    cache_scope, listener_fault, proxy_core, unsupported_protocol, workspace_fault,
};
use crate::config::{
    cluster_named, policy_named, route_named, rule_labelled, ListenerClassConfig,
    ListenerProtocolConfig, ListenerResourceConfig, ListenerSocketConfig, NamedPolicy, RouteConfig,
    RouteDestinationConfig, RoutePrefixRule, WorkspaceConfig,
};
use crate::destination_policies::{required_policy, EngineDefaults};
use crate::effective_policies::{
    destination_policies, effective_policies, referred_route_policies, request_transform_named,
    response_transform_named, LayerView,
};
use crate::http_cache_scopes::cache_policy_named;
use crate::secrets::{named_file, secret_material, SecretReadings};
use vstd::prelude::*;
use vstd::string::*;

verus! {

/// A policy that is referred to and not there is named in the failure, with its kind.
pub proof fn missing_policies_are_named<S>(
    list: Seq<NamedPolicy<S>>,
    kind: Seq<char>,
    name: Seq<char>,
)
    ensures
        required_policy(list, kind, name) is Ok <==> policy_named(list, name) is Some,
        policy_named(list, name) matches Some(policy) ==> required_policy(list, kind, name) == Ok::<
            S,
            Seq<char>,
        >(policy),
        policy_named(list, name) is None ==> required_policy(list, kind, name) == Err::<
            S,
            Seq<char>,
        >("unknown "@ + kind + " policy "@ + name),
{
}

/// A policy that a listener refers to and that is not there is named in the failure, with the listener
/// and the kind of the policy.
pub proof fn missing_policies_of_listeners_are_named(
    config: WorkspaceConfig,
    listener: ListenerResourceConfig,
    name: Seq<char>,
)
    ensures
        ({
            let lead = "listener "@ + listener.name@ + " references unknown "@;
            &&& listener_overload(config, listener) matches Err(e) ==> (
            listener.policies.overload_response matches Some(asked) && e == lead
                + "overload response"@ + " policy "@ + asked@)
            &&& listener_abuse(config, listener) matches Err(e) ==> (
            listener.policies.hostile_edge_protection matches Some(asked) && e == lead
                + "hostile-edge protection"@ + " policy "@ + asked@)
            &&& cache_policy_named(config, listener, name) matches Err(e) ==> e == lead
                + "http cache"@ + " policy "@ + name
        }),
{
}

/// A transformation that is referred to and not there is named in the failure, with who refers to it.
pub proof fn missing_transformations_are_named(
    config: WorkspaceConfig,
    name: Seq<char>,
    referrer: Seq<char>,
)
    ensures
        request_transform_named(config, name, referrer) matches Err(e) ==> e == "resource "@
            + referrer + " references unknown transform policy "@ + name,
        response_transform_named(config, name, referrer) matches Err(e) ==> e == "resource "@
            + referrer + " references unknown transform policy "@ + name,
{
}

/// Whether a reference to a transformation leads nowhere.
pub open spec fn leads_nowhere(config: WorkspaceConfig, reference: Option<String>) -> bool {
    reference matches Some(name) && policy_named(config.policies.transforms@, name@) is None
}

/// Who refers to a transformation that is not there is named in the failure: a listener and a route
/// by their names, and a destination by its route and its cluster.
pub proof fn referrers_to_missing_transformations_are_named(
    config: WorkspaceConfig,
    listener: ListenerResourceConfig,
    route: RouteConfig,
    destination: RouteDestinationConfig,
    outer: LayerView,
    middle: LayerView,
    name: Seq<char>,
)
    ensures
        ({
            let words = " references unknown transform policy "@;
            let own = listener.policies.transform_policy;
            let of_route = route.policies.transform_policy;
            let of_destination = destination.policies.transform_policy;
            let missing = "resource "@ + listener.name@ + words + own->0@;
            let there = cluster_named(
                config.upstream_clusters@,
                destination.upstream_cluster@,
            ) is Some;
            let judged = destination_policies(config, listener, route, destination, outer, middle);
            let referred = referred_route_policies(config, listener, outer, name);
            &&& leads_nowhere(config, own) ==> effective_policies(config, listener) is Err
                && effective_policies(config, listener)->Err_0 == missing
            &&& leads_nowhere(config, own) ==> listener_request_transforms(config, listener) is Err
                && listener_request_transforms(config, listener)->Err_0 == missing
            &&& leads_nowhere(config, own) ==> listener_response_transforms(config, listener) is Err
                && listener_response_transforms(config, listener)->Err_0 == missing
            &&& route_named(config.routes@, name) == Some(route) && leads_nowhere(config, of_route)
                ==> referred is Err && referred->Err_0 == "resource "@ + route.name@ + words
                + of_route->0@
            &&& there && leads_nowhere(config, of_destination) ==> judged is Err && judged->Err_0
                == "resource "@ + (route.name@ + "->"@ + destination.upstream_cluster@) + words
                + of_destination->0@
        }),
{
}

/// A cluster that is not there, or that has no endpoint, is named in the failure.
pub proof fn missing_clusters_are_named(
    config: WorkspaceConfig,
    listener: ListenerResourceConfig,
    route: RouteConfig,
    destination: RouteDestinationConfig,
    backends: RouteBackendsView,
    destinations: Seq<(u32, Seq<char>)>,
    outer: LayerView,
    middle: LayerView,
)
    ensures
        ({
            let cluster = cluster_named(config.upstream_clusters@, destination.upstream_cluster@);
            let missing = "route "@ + route.name@ + " references unknown upstream cluster "@
                + destination.upstream_cluster@;
            let taken = with_destination(config, route, destination, backends, destinations);
            let judged = destination_policies(config, listener, route, destination, outer, middle);
            &&& cluster is None ==> taken is Err && taken->Err_0 == missing
            &&& cluster is None ==> judged is Err && judged->Err_0 == missing
            &&& cluster is Some && cluster->0.endpoints@.len() == 0 ==> taken is Err
                && taken->Err_0 == "upstream cluster "@ + cluster->0.name@
                + " must declare at least one endpoint"@
        }),
{
}

/// A route that is not there, or that has no matching rule, is named in the failure.
pub proof fn missing_routes_are_named(
    config: WorkspaceConfig,
    listener: ListenerResourceConfig,
    compiled_routes: Seq<RoutePrefixRule>,
    name: Seq<char>,
    backends: RouteBackendsView,
    outer: LayerView,
)
    ensures
        ({
            let route = route_named(config.routes@, name);
            let rule = rule_labelled(compiled_routes, name);
            let missing = "listener "@ + listener.name@ + " references unknown route "@ + name;
            let taken = with_route(config, listener, compiled_routes, name, backends);
            let judged = referred_route_policies(config, listener, outer, name);
            &&& route is None ==> taken is Err && taken->Err_0 == missing
            &&& route is None ==> judged is Err && judged->Err_0 == missing
            &&& route is Some && rule is None ==> taken is Err && taken->Err_0
                == "compiled route "@ + name + " is missing"@
        }),
{
}

/// A protocol that a listener's class cannot speak is named in the failure, with the listener and its
/// class.
pub proof fn unsupported_protocols_are_named(listener: ListenerResourceConfig)
    ensures
        unsupported_protocol(listener) == "listener "@ + listener.name@ + " uses unsupported "@ + (
        if listener.class == ListenerClassConfig::Public {
            "public"@
        } else {
            "admin"@
        }) + " protocol "@ + (match listener.protocol {
            ListenerProtocolConfig::Tcp => "Tcp"@,
            ListenerProtocolConfig::Http1 => "Http1"@,
            ListenerProtocolConfig::Https => "Https"@,
            ListenerProtocolConfig::Http2 => "Http2"@,
            ListenerProtocolConfig::Http3 => "Http3"@,
            ListenerProtocolConfig::Auto => "Auto"@,
        }) + " in serve mode"@,
{
}

/// A listener with several things amiss is refused for the first of them: its cache, its protocol, its
/// overload policy, its protection, its certificates, and last what it serves.
pub proof fn listeners_are_refused_for_the_first_thing_amiss(
    config: WorkspaceConfig,
    defaults: EngineDefaults,
    listener: ListenerResourceConfig,
    socket: ListenerSocketConfig,
    compiled_routes: Seq<RoutePrefixRule>,
)
    ensures
        ({
            let fault = listener_fault(config, defaults, listener, socket, compiled_routes);
            let p = listener.protocol;
            let public = listener.class == ListenerClassConfig::Public;
            let cache = cache_scope(config, listener);
            let spoken = p is Http1 || p is Https || public && (p is Http2 || p is Http3);
            let overload = listener_overload(config, listener);
            let abuse = listener_abuse(config, listener);
            let guarded = cache is Ok && spoken && overload is Ok && abuse is Ok;
            let bare = (p is Https || public && p is Http3) && listener.tls_termination is None
                || public && p is Https && !socket.ends_tls;
            let served = proxy_core(config, defaults, listener, compiled_routes);
            &&& cache matches Err(e) ==> fault == Some(e)
            &&& cache is Ok && !spoken ==> fault == Some(unsupported_protocol(listener))
            &&& cache is Ok && spoken && overload is Err ==> fault == Some(overload->Err_0)
            &&& cache is Ok && spoken && overload is Ok && abuse is Err ==> fault == Some(
                abuse->Err_0,
            )
            &&& public && guarded && bare ==> fault == Some(
                "listener "@ + listener.name@ + " is missing tls_termination"@,
            )
            &&& public && guarded && !bare && served is Err ==> fault == Some(served->Err_0)
            &&& public && guarded && !bare && served is Ok ==> fault is None
        }),
{
}

proof fn lemma_first_fault(
    config: WorkspaceConfig,
    defaults: EngineDefaults,
    sockets: Seq<ListenerSocketConfig>,
    compiled_routes: Seq<RoutePrefixRule>,
    n: nat,
    i: int,
)
    requires
        0 <= i < n,
        listener_fault(
            config,
            defaults,
            config.listeners@[i],
            sockets[i],
            compiled_routes,
        ) is Some,
        forall|k: int|
            0 <= k < i ==> listener_fault(
                config,
                defaults,
                #[trigger] config.listeners@[k],
                sockets[k],
                compiled_routes,
            ) is None,
    ensures
        workspace_fault(config, defaults, sockets, compiled_routes, n) == listener_fault(
            config,
            defaults,
            config.listeners@[i],
            sockets[i],
            compiled_routes,
        ),
    decreases n,
{
    if i < n - 1 {
        lemma_first_fault(config, defaults, sockets, compiled_routes, (n - 1) as nat, i);
    } else {
        lemma_no_fault(config, defaults, sockets, compiled_routes, i as nat);
    }
}

#[verifier::rlimit(40)]
proof fn lemma_no_fault(
    config: WorkspaceConfig,
    defaults: EngineDefaults,
    sockets: Seq<ListenerSocketConfig>,
    compiled_routes: Seq<RoutePrefixRule>,
    n: nat,
)
    requires
        forall|k: int|
            0 <= k < n ==> listener_fault(
                config,
                defaults,
                #[trigger] config.listeners@[k],
                sockets[k],
                compiled_routes,
            ) is None,
    ensures
        workspace_fault(config, defaults, sockets, compiled_routes, n) is None,
    decreases n,
{
    if n > 0 {
        lemma_no_fault(config, defaults, sockets, compiled_routes, (n - 1) as nat);
        assert(listener_fault(
            config,
            defaults,
            config.listeners@[n - 1],
            sockets[n - 1],
            compiled_routes,
        ) is None);
    }
}

/// A workspace is refused for its first listener that has something amiss, and for what that is.
pub proof fn workspaces_are_refused_for_their_first_listener_amiss(
    config: WorkspaceConfig,
    defaults: EngineDefaults,
    sockets: Seq<ListenerSocketConfig>,
    compiled_routes: Seq<RoutePrefixRule>,
    n: nat,
    i: int,
)
    requires
        0 <= i < n,
        listener_fault(
            config,
            defaults,
            config.listeners@[i],
            sockets[i],
            compiled_routes,
        ) is Some,
        forall|k: int|
            0 <= k < i ==> listener_fault(
                config,
                defaults,
                #[trigger] config.listeners@[k],
                sockets[k],
                compiled_routes,
            ) is None,
    ensures
        workspace_fault(config, defaults, sockets, compiled_routes, n) == listener_fault(
            config,
            defaults,
            config.listeners@[i],
            sockets[i],
            compiled_routes,
        ),
{
    lemma_first_fault(config, defaults, sockets, compiled_routes, n, i);
}

/// A secret that is not found is named in the failure: by its file and the variable that names the
/// file, or by its own variable.
pub proof fn missing_secrets_are_named(
    secret_env: Seq<char>,
    legacy: Seq<char>,
    readings: SecretReadings,
)
    ensures
        secret_material(secret_env, legacy, readings) matches Err(error) ==> {
            &&& named_file(readings) matches Some(path) ==> error.source_reference == path && (
            match readings.file_contents {
                Err(why) => error.detail == "admin secret file "@ + path + " from "@ + (secret_env
                    + "_FILE"@) + " could not be read: "@ + why@,
                Ok(_) => error.detail == "admin secret file configured via "@ + (secret_env
                    + "_FILE"@) + " was empty"@,
            })
            &&& named_file(readings) is None ==> error.source_reference == secret_env
                && error.detail == "admin secret env "@ + secret_env + " is not configured"@
        },
{
}

} // verus!
