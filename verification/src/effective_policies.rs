//! Which policies and transformations are in force for each destination of a listener's routes:
//! those of the listener, overridden or extended by those of the route and of the destination.

use crate::config::{
    agrees, cluster_named, find_cluster, find_policy, find_route, policy_named, route_named,
    ListenerResourceConfig, RequestTransformConfig, ResponseTransformConfig, RouteConfig,
    RouteDestinationConfig, WorkspaceConfig,
};
use crate::control_plane_journal::copy_texts;
use crate::error::ServeError;
use crate::named_map::NamedMap;
use crate::text::text;
use vstd::prelude::*;
use vstd::string::*;

verus! {

/// What is changed in a request.
#[verifier::ext_equal]
pub struct RequestTransformView {
    pub path_rewrite: Option<Seq<char>>,
    pub host_rewrite: Option<Seq<char>>,
    pub header_mutations: Seq<Seq<char>>,
}

/// What is changed in a response.
#[verifier::ext_equal]
pub struct ResponseTransformView {
    pub header_mutations: Seq<Seq<char>>,
}

impl DeepView for RequestTransformConfig {
    type V = RequestTransformView;

    open spec fn deep_view(&self) -> RequestTransformView {
        RequestTransformView {
            path_rewrite: self.path_rewrite.deep_view(),
            host_rewrite: self.host_rewrite.deep_view(),
            header_mutations: self.header_mutations.deep_view(),
        }
    }
}

impl DeepView for ResponseTransformConfig {
    type V = ResponseTransformView;

    open spec fn deep_view(&self) -> ResponseTransformView {
        ResponseTransformView { header_mutations: self.header_mutations.deep_view() }
    }
}

/// A copy of a text that may be missing.
pub fn copy_text(value: &Option<String>) -> (r: Option<String>)
    ensures
        r == *value,
{
    match value {
        Some(s) => Some(s.clone()),
        None => None,
    }
}

/// A copy of what is changed in a request.
pub fn copy_request_transform(t: &RequestTransformConfig) -> (r: RequestTransformConfig)
    ensures
        r.deep_view() == t.deep_view(),
{
    RequestTransformConfig {
        path_rewrite: copy_text(&t.path_rewrite),
        host_rewrite: copy_text(&t.host_rewrite),
        header_mutations: copy_texts(&t.header_mutations),
    }
}

/// A copy of what is changed in a response.
pub fn copy_response_transform(t: &ResponseTransformConfig) -> (r: ResponseTransformConfig)
    ensures
        r.deep_view() == t.deep_view(),
{
    ResponseTransformConfig { header_mutations: copy_texts(&t.header_mutations) }
}

/// The failure of a reference to a transformation that is not there.
pub open spec fn unknown_transform(referrer: Seq<char>, name: Seq<char>) -> Seq<char> {
    "resource "@ + referrer + " references unknown transform policy "@ + name
}

/// What the named policy changes in requests.
pub open spec fn request_transform_named(
    config: WorkspaceConfig,
    name: Seq<char>,
    referrer: Seq<char>,
) -> Result<RequestTransformView, Seq<char>> {
    match policy_named(config.policies.transforms@, name) {
        Some(policy) => Ok(policy.request.deep_view()),
        None => Err(unknown_transform(referrer, name)),
    }
}

/// What the named policy changes in responses.
pub open spec fn response_transform_named(
    config: WorkspaceConfig,
    name: Seq<char>,
    referrer: Seq<char>,
) -> Result<ResponseTransformView, Seq<char>> {
    match policy_named(config.policies.transforms@, name) {
        Some(policy) => Ok(policy.response.deep_view()),
        None => Err(unknown_transform(referrer, name)),
    }
}

fn unknown_transform_error(referrer: &str, name: &str) -> (r: ServeError)
    ensures
        r.message@ == unknown_transform(referrer@, name@),
{
    let mut message = text("resource ");
    message.append(referrer);
    message.append(" references unknown transform policy ");
    message.append(name);
    ServeError { message }
}

/// What the named policy changes in requests.
pub fn resolve_named_request_transform(
    config: &WorkspaceConfig,
    policy_name: &str,
    referrer_name: &str,
) -> (r: Result<RequestTransformConfig, ServeError>)
    ensures
        agrees(r, request_transform_named(*config, policy_name@, referrer_name@)),
{
    match find_policy(&config.policies.transforms, policy_name) {
        Some(policy) => Ok(copy_request_transform(&policy.request)),
        None => Err(unknown_transform_error(referrer_name, policy_name)),
    }
}

/// What the named policy changes in responses.
pub fn resolve_named_response_transform(
    config: &WorkspaceConfig,
    policy_name: &str,
    referrer_name: &str,
) -> (r: Result<ResponseTransformConfig, ServeError>)
    ensures
        agrees(r, response_transform_named(*config, policy_name@, referrer_name@)),
{
    match find_policy(&config.policies.transforms, policy_name) {
        Some(policy) => Ok(copy_response_transform(&policy.response)),
        None => Err(unknown_transform_error(referrer_name, policy_name)),
    }
}

/// What the policy that a resource refers to changes in requests, where it refers to one.
pub open spec fn request_layer(
    config: WorkspaceConfig,
    name: Option<String>,
    referrer: Seq<char>,
) -> Result<Option<RequestTransformView>, Seq<char>> {
    match name {
        Some(name) => match request_transform_named(config, name@, referrer) {
            Ok(t) => Ok(Some(t)),
            Err(e) => Err(e),
        },
        None => Ok(None),
    }
}

/// What the policy that a resource refers to changes in responses, where it refers to one.
pub open spec fn response_layer(
    config: WorkspaceConfig,
    name: Option<String>,
    referrer: Seq<char>,
) -> Result<Option<ResponseTransformView>, Seq<char>> {
    match name {
        Some(name) => match response_transform_named(config, name@, referrer) {
            Ok(t) => Ok(Some(t)),
            Err(e) => Err(e),
        },
        None => Ok(None),
    }
}

/// Resolves a resource's reference to what is changed in requests.
pub fn resolve_request_layer(config: &WorkspaceConfig, name: &Option<String>, referrer: &str) -> (r:
    Result<Option<RequestTransformConfig>, ServeError>)
    ensures
        agrees(r, request_layer(*config, *name, referrer@)),
{
    match name {
        Some(name) => match resolve_named_request_transform(config, name.as_str(), referrer) {
            Ok(t) => Ok(Some(t)),
            Err(e) => Err(e),
        },
        None => Ok(None),
    }
}

/// Resolves a resource's reference to what is changed in responses.
pub fn resolve_response_layer(
    config: &WorkspaceConfig,
    name: &Option<String>,
    referrer: &str,
) -> (r: Result<Option<ResponseTransformConfig>, ServeError>)
    ensures
        agrees(r, response_layer(*config, *name, referrer@)),
{
    match name {
        Some(name) => match resolve_named_response_transform(config, name.as_str(), referrer) {
            Ok(t) => Ok(Some(t)),
            Err(e) => Err(e),
        },
        None => Ok(None),
    }
}

/// The innermost of three settings that is present.
pub open spec fn innermost<T>(
    listener: Option<T>,
    route: Option<T>,
    destination: Option<T>,
) -> Option<T> {
    if destination is Some {
        destination
    } else if route is Some {
        route
    } else {
        listener
    }
}

/// Request changes of three layers put together: the innermost rewrites, and all header changes
/// from the outside in.
pub open spec fn merged_request(
    listener: Option<RequestTransformView>,
    route: Option<RequestTransformView>,
    destination: Option<RequestTransformView>,
) -> Option<RequestTransformView> {
    if listener is None && route is None && destination is None {
        None
    } else {
        let part = |layer: Option<RequestTransformView>|
            match layer {
                Some(t) => t,
                None => RequestTransformView {
                    path_rewrite: None,
                    host_rewrite: None,
                    header_mutations: Seq::empty(),
                },
            };
        let l = part(listener);
        let r = part(route);
        let d = part(destination);
        Some(
            RequestTransformView {
                path_rewrite: innermost(l.path_rewrite, r.path_rewrite, d.path_rewrite),
                host_rewrite: innermost(l.host_rewrite, r.host_rewrite, d.host_rewrite),
                header_mutations: l.header_mutations + r.header_mutations + d.header_mutations,
            },
        )
    }
}

/// Response changes of three layers put together: all header changes from the outside in.
pub open spec fn merged_response(
    listener: Option<ResponseTransformView>,
    route: Option<ResponseTransformView>,
    destination: Option<ResponseTransformView>,
) -> Option<ResponseTransformView> {
    if listener is None && route is None && destination is None {
        None
    } else {
        let part = |layer: Option<ResponseTransformView>|
            match layer {
                Some(t) => t.header_mutations,
                None => Seq::empty(),
            };
        Some(
            ResponseTransformView {
                header_mutations: part(listener) + part(route) + part(destination),
            },
        )
    }
}

fn append_texts(out: &mut Vec<String>, more: &Vec<String>)
    ensures
        final(out)@ == old(out)@ + more@,
        final(out).deep_view() == old(out).deep_view() + more.deep_view(),
{
    let ghost before = out@;
    let mut i: usize = 0;
    while i < more.len()
        invariant
            i <= more@.len(),
            out@ == before + more@.take(i as int),
        decreases more@.len() - i,
    {
        out.push(more[i].clone());
        i = i + 1;
        proof {
            assert(out@ =~= before + more@.take(i as int));
        }
    }
    proof {
        assert(more@.take(more@.len() as int) =~= more@);
    }
}

fn add_request_layer(merged: &mut RequestTransformConfig, layer: &RequestTransformConfig)
    ensures
        final(merged).deep_view() == (RequestTransformView {
            path_rewrite: if layer.path_rewrite is Some {
                layer.path_rewrite.deep_view()
            } else {
                old(merged).path_rewrite.deep_view()
            },
            host_rewrite: if layer.host_rewrite is Some {
                layer.host_rewrite.deep_view()
            } else {
                old(merged).host_rewrite.deep_view()
            },
            header_mutations: old(merged).header_mutations.deep_view()
                + layer.header_mutations.deep_view(),
        }),
{
    if layer.path_rewrite.is_some() {
        merged.path_rewrite = copy_text(&layer.path_rewrite);
    }
    if layer.host_rewrite.is_some() {
        merged.host_rewrite = copy_text(&layer.host_rewrite);
    }
    append_texts(&mut merged.header_mutations, &layer.header_mutations);
}

/// Puts the request changes of three layers together.
pub fn merge_request_transform_layers(
    listener: &Option<RequestTransformConfig>,
    route: &Option<RequestTransformConfig>,
    destination: &Option<RequestTransformConfig>,
) -> (r: Option<RequestTransformConfig>)
    ensures
        r.deep_view() == merged_request(
            listener.deep_view(),
            route.deep_view(),
            destination.deep_view(),
        ),
{
    if listener.is_none() && route.is_none() && destination.is_none() {
        return None;
    }
    let mut merged = match listener {
        Some(t) => copy_request_transform(t),
        None => {
            let header_mutations: Vec<String> = Vec::new();
            proof {
                assert(header_mutations.deep_view() =~= Seq::<Seq<char>>::empty());
            }
            RequestTransformConfig { path_rewrite: None, host_rewrite: None, header_mutations }
        },
    };
    match route {
        Some(t) => {
            add_request_layer(&mut merged, t);
        },
        None => {},
    }
    match destination {
        Some(t) => {
            add_request_layer(&mut merged, t);
        },
        None => {},
    }
    let r = Some(merged);
    proof {
        let m = merged_request(listener.deep_view(), route.deep_view(), destination.deep_view());
        assert(r.deep_view()->0 =~= m->0);
    }
    r
}

/// Puts the response changes of three layers together.
pub fn merge_response_transform_layers(
    listener: &Option<ResponseTransformConfig>,
    route: &Option<ResponseTransformConfig>,
    destination: &Option<ResponseTransformConfig>,
) -> (r: Option<ResponseTransformConfig>)
    ensures
        r.deep_view() == merged_response(
            listener.deep_view(),
            route.deep_view(),
            destination.deep_view(),
        ),
{
    if listener.is_none() && route.is_none() && destination.is_none() {
        return None;
    }
    let mut header_mutations: Vec<String> = Vec::new();
    proof {
        assert(header_mutations.deep_view() =~= Seq::<Seq<char>>::empty());
    }
    match listener {
        Some(t) => {
            append_texts(&mut header_mutations, &t.header_mutations);
        },
        None => {},
    }
    match route {
        Some(t) => {
            append_texts(&mut header_mutations, &t.header_mutations);
        },
        None => {},
    }
    match destination {
        Some(t) => {
            append_texts(&mut header_mutations, &t.header_mutations);
        },
        None => {},
    }
    let r = Some(ResponseTransformConfig { header_mutations });
    proof {
        let m = merged_response(listener.deep_view(), route.deep_view(), destination.deep_view());
        assert(r.deep_view()->0 =~= m->0);
    }
    r
}

/// The policy that the innermost layer with a reference refers to.
pub fn pick_effective_policy_name(
    listener: Option<&String>,
    route: Option<&String>,
    destination: Option<&String>,
) -> (r: Option<String>)
    ensures
        match innermost(listener, route, destination) {
            Some(name) => r == Some(*name),
            None => r is None,
        },
{
    match destination {
        Some(name) => Some(name.clone()),
        None => match route {
            Some(name) => Some(name.clone()),
            None => match listener {
                Some(name) => Some(name.clone()),
                None => None,
            },
        },
    }
}

fn pick(listener: &Option<String>, route: &Option<String>, destination: &Option<String>) -> (r:
    Option<String>)
    ensures
        r == innermost(*listener, *route, *destination),
{
    pick_effective_policy_name(listener.as_ref(), route.as_ref(), destination.as_ref())
}

/// The references of all layers, from the outside in.
pub fn merge_effective_policy_refs(
    listener: &Vec<String>,
    route: &Vec<String>,
    destination: &Vec<String>,
) -> (r: Vec<String>)
    ensures
        r@ == listener@ + route@ + destination@,
{
    let mut out = copy_texts(listener);
    append_texts(&mut out, route);
    append_texts(&mut out, destination);
    out
}

/// The policies in force for one destination of a route.
#[derive(Debug)]
pub struct EffectiveRouteDestinationPolicy {
    pub upstream_cluster: String,
    pub retry_budget: Option<String>,
    pub timeout_hierarchy: Option<String>,
    pub circuit_breaker: Option<String>,
    pub jwt_auth_policy: Option<String>,
    pub external_auth_policy: Option<String>,
    pub authorization_policy: Option<String>,
    pub upstream_identity_policy: Option<String>,
    pub transform_policy: Option<String>,
    pub traffic_mirror: Option<String>,
    pub fault_injection: Option<String>,
    pub local_rate_limits: Vec<String>,
    pub local_concurrency_limits: Vec<String>,
    pub effective_request_transform: Option<RequestTransformConfig>,
    pub effective_response_transform: Option<ResponseTransformConfig>,
}

/// The policies in force for one destination of a route.
#[verifier::ext_equal]
pub struct EffectivePolicyView {
    pub upstream_cluster: Seq<char>,
    pub retry_budget: Option<Seq<char>>,
    pub timeout_hierarchy: Option<Seq<char>>,
    pub circuit_breaker: Option<Seq<char>>,
    pub jwt_auth_policy: Option<Seq<char>>,
    pub external_auth_policy: Option<Seq<char>>,
    pub authorization_policy: Option<Seq<char>>,
    pub upstream_identity_policy: Option<Seq<char>>,
    pub transform_policy: Option<Seq<char>>,
    pub traffic_mirror: Option<Seq<char>>,
    pub fault_injection: Option<Seq<char>>,
    pub local_rate_limits: Seq<Seq<char>>,
    pub local_concurrency_limits: Seq<Seq<char>>,
    pub effective_request_transform: Option<RequestTransformView>,
    pub effective_response_transform: Option<ResponseTransformView>,
}

impl DeepView for EffectiveRouteDestinationPolicy {
    type V = EffectivePolicyView;

    open spec fn deep_view(&self) -> EffectivePolicyView {
        EffectivePolicyView {
            upstream_cluster: self.upstream_cluster@,
            retry_budget: self.retry_budget.deep_view(),
            timeout_hierarchy: self.timeout_hierarchy.deep_view(),
            circuit_breaker: self.circuit_breaker.deep_view(),
            jwt_auth_policy: self.jwt_auth_policy.deep_view(),
            external_auth_policy: self.external_auth_policy.deep_view(),
            authorization_policy: self.authorization_policy.deep_view(),
            upstream_identity_policy: self.upstream_identity_policy.deep_view(),
            transform_policy: self.transform_policy.deep_view(),
            traffic_mirror: self.traffic_mirror.deep_view(),
            fault_injection: self.fault_injection.deep_view(),
            local_rate_limits: self.local_rate_limits.deep_view(),
            local_concurrency_limits: self.local_concurrency_limits.deep_view(),
            effective_request_transform: self.effective_request_transform.deep_view(),
            effective_response_transform: self.effective_response_transform.deep_view(),
        }
    }
}

/// The transformations of the layers around a destination.
#[verifier::ext_equal]
pub struct LayerView {
    pub request: Option<RequestTransformView>,
    pub response: Option<ResponseTransformView>,
}

/// The transformations of a layer.
pub struct TransformLayer {
    pub request: Option<RequestTransformConfig>,
    pub response: Option<ResponseTransformConfig>,
}

impl DeepView for TransformLayer {
    type V = LayerView;

    open spec fn deep_view(&self) -> LayerView {
        LayerView { request: self.request.deep_view(), response: self.response.deep_view() }
    }
}

/// The transformations that a resource refers to.
pub open spec fn layer_of(
    config: WorkspaceConfig,
    name: Option<String>,
    referrer: Seq<char>,
) -> Result<LayerView, Seq<char>> {
    match (request_layer(config, name, referrer), response_layer(config, name, referrer)) {
        (Ok(request), Ok(response)) => Ok(LayerView { request, response }),
        (Err(e), _) => Err(e),
        (_, Err(e)) => Err(e),
    }
}

/// Resolves the transformations that a resource refers to.
pub fn resolve_layer(config: &WorkspaceConfig, name: &Option<String>, referrer: &str) -> (r: Result<
    TransformLayer,
    ServeError,
>)
    ensures
        agrees(r, layer_of(*config, *name, referrer@)),
{
    let request = match resolve_request_layer(config, name, referrer) {
        Ok(t) => t,
        Err(e) => {
            return Err(e);
        },
    };
    let response = match resolve_response_layer(config, name, referrer) {
        Ok(t) => t,
        Err(e) => {
            return Err(e);
        },
    };
    Ok(TransformLayer { request, response })
}

/// How a destination is referred to in messages.
pub open spec fn destination_label(route: RouteConfig, destination: RouteDestinationConfig) -> Seq<
    char,
> {
    route.name@ + "->"@ + destination.upstream_cluster@
}

/// The failure of a reference to a cluster that is not there.
pub open spec fn unknown_cluster(route: RouteConfig, destination: RouteDestinationConfig) -> Seq<
    char,
> {
    "route "@ + route.name@ + " references unknown upstream cluster "@
        + destination.upstream_cluster@
}

/// The failure of a reference to a route that is not there.
pub open spec fn unknown_route(listener: ListenerResourceConfig, route: Seq<char>) -> Seq<char> {
    "listener "@ + listener.name@ + " references unknown route "@ + route
}

/// The failure of a reference to a cluster that is not there.
pub fn unknown_cluster_error(route: &RouteConfig, destination: &RouteDestinationConfig) -> (r:
    ServeError)
    ensures
        r.message@ == unknown_cluster(*route, *destination),
{
    let mut message = text("route ");
    message.append(route.name.as_str());
    message.append(" references unknown upstream cluster ");
    message.append(destination.upstream_cluster.as_str());
    ServeError { message }
}

/// The failure of a reference to a route that is not there.
pub fn unknown_route_error(listener: &ListenerResourceConfig, route: &str) -> (r: ServeError)
    ensures
        r.message@ == unknown_route(*listener, route@),
{
    let mut message = text("listener ");
    message.append(listener.name.as_str());
    message.append(" references unknown route ");
    message.append(route);
    ServeError { message }
}

/// The policies in force for a destination, given the transformations of the layers around it.
pub open spec fn destination_policies(
    config: WorkspaceConfig,
    listener: ListenerResourceConfig,
    route: RouteConfig,
    destination: RouteDestinationConfig,
    outer: LayerView,
    middle: LayerView,
) -> Result<EffectivePolicyView, Seq<char>> {
    let l = listener.policies;
    let r = route.policies;
    let d = destination.policies;
    match cluster_named(config.upstream_clusters@, destination.upstream_cluster@) {
        None => Err(unknown_cluster(route, destination)),
        Some(cluster) => match layer_of(
            config,
            d.transform_policy,
            destination_label(route, destination),
        ) {
            Err(e) => Err(e),
            Ok(inner) => Ok(
                EffectivePolicyView {
                    upstream_cluster: destination.upstream_cluster@,
                    retry_budget: innermost(
                        l.retry_budget,
                        r.retry_budget,
                        d.retry_budget,
                    ).deep_view(),
                    timeout_hierarchy: innermost(
                        l.timeout_hierarchy,
                        r.timeout_hierarchy,
                        d.timeout_hierarchy,
                    ).deep_view(),
                    circuit_breaker: innermost(
                        l.circuit_breaker,
                        r.circuit_breaker,
                        d.circuit_breaker,
                    ).deep_view(),
                    jwt_auth_policy: innermost(
                        l.jwt_auth_policy,
                        r.jwt_auth_policy,
                        d.jwt_auth_policy,
                    ).deep_view(),
                    external_auth_policy: innermost(
                        l.external_auth_policy,
                        r.external_auth_policy,
                        d.external_auth_policy,
                    ).deep_view(),
                    authorization_policy: innermost(
                        l.authorization_policy,
                        r.authorization_policy,
                        d.authorization_policy,
                    ).deep_view(),
                    upstream_identity_policy: (if d.upstream_identity_policy is Some {
                        d.upstream_identity_policy
                    } else {
                        cluster.policies.upstream_identity_policy
                    }).deep_view(),
                    transform_policy: innermost(
                        l.transform_policy,
                        r.transform_policy,
                        d.transform_policy,
                    ).deep_view(),
                    traffic_mirror: innermost(
                        l.traffic_mirror,
                        r.traffic_mirror,
                        d.traffic_mirror,
                    ).deep_view(),
                    fault_injection: innermost(
                        l.fault_injection,
                        r.fault_injection,
                        d.fault_injection,
                    ).deep_view(),
                    local_rate_limits: l.local_rate_limits.deep_view()
                        + r.local_rate_limits.deep_view() + d.local_rate_limits.deep_view(),
                    local_concurrency_limits: l.local_concurrency_limits.deep_view()
                        + r.local_concurrency_limits.deep_view()
                        + d.local_concurrency_limits.deep_view(),
                    effective_request_transform: merged_request(
                        outer.request,
                        middle.request,
                        inner.request,
                    ),
                    effective_response_transform: merged_response(
                        outer.response,
                        middle.response,
                        inner.response,
                    ),
                },
            ),
        },
    }
}

/// Resolves the policies in force for a destination.
pub fn resolve_destination_policies(
    config: &WorkspaceConfig,
    listener: &ListenerResourceConfig,
    route: &RouteConfig,
    destination: &RouteDestinationConfig,
    outer: &TransformLayer,
    middle: &TransformLayer,
) -> (r: Result<EffectiveRouteDestinationPolicy, ServeError>)
    ensures
        agrees(
            r,
            destination_policies(
                *config,
                *listener,
                *route,
                *destination,
                outer.deep_view(),
                middle.deep_view(),
            ),
        ),
{
    let cluster = match find_cluster(
        &config.upstream_clusters,
        destination.upstream_cluster.as_str(),
    ) {
        Some(cluster) => cluster,
        None => {
            return Err(unknown_cluster_error(route, destination));
        },
    };
    let mut label = text(route.name.as_str());
    label.append("->");
    label.append(destination.upstream_cluster.as_str());
    let inner = match resolve_layer(config, &destination.policies.transform_policy, label.as_str())
    {
        Ok(layer) => layer,
        Err(e) => {
            return Err(e);
        },
    };
    let l = &listener.policies;
    let m = &route.policies;
    let d = &destination.policies;
    let policy = EffectiveRouteDestinationPolicy {
        upstream_cluster: destination.upstream_cluster.clone(),
        retry_budget: pick(&l.retry_budget, &m.retry_budget, &d.retry_budget),
        timeout_hierarchy: pick(
            &l.timeout_hierarchy,
            &m.timeout_hierarchy,
            &d.timeout_hierarchy,
        ),
        circuit_breaker: pick(&l.circuit_breaker, &m.circuit_breaker, &d.circuit_breaker),
        jwt_auth_policy: pick(&l.jwt_auth_policy, &m.jwt_auth_policy, &d.jwt_auth_policy),
        external_auth_policy: pick(
            &l.external_auth_policy,
            &m.external_auth_policy,
            &d.external_auth_policy,
        ),
        authorization_policy: pick(
            &l.authorization_policy,
            &m.authorization_policy,
            &d.authorization_policy,
        ),
        upstream_identity_policy: match &d.upstream_identity_policy {
            Some(name) => Some(name.clone()),
            None => copy_text(&cluster.policies.upstream_identity_policy),
        },
        transform_policy: pick(&l.transform_policy, &m.transform_policy, &d.transform_policy),
        traffic_mirror: pick(&l.traffic_mirror, &m.traffic_mirror, &d.traffic_mirror),
        fault_injection: pick(&l.fault_injection, &m.fault_injection, &d.fault_injection),
        local_rate_limits: merge_effective_policy_refs(
            &l.local_rate_limits,
            &m.local_rate_limits,
            &d.local_rate_limits,
        ),
        local_concurrency_limits: merge_effective_policy_refs(
            &l.local_concurrency_limits,
            &m.local_concurrency_limits,
            &d.local_concurrency_limits,
        ),
        effective_request_transform: merge_request_transform_layers(
            &outer.request,
            &middle.request,
            &inner.request,
        ),
        effective_response_transform: merge_response_transform_layers(
            &outer.response,
            &middle.response,
            &inner.response,
        ),
    };
    proof {
        let model = destination_policies(
            *config,
            *listener,
            *route,
            *destination,
            outer.deep_view(),
            middle.deep_view(),
        );
        assert(policy.local_rate_limits.deep_view() =~= l.local_rate_limits.deep_view()
            + m.local_rate_limits.deep_view() + d.local_rate_limits.deep_view());
        assert(policy.local_concurrency_limits.deep_view()
            =~= l.local_concurrency_limits.deep_view() + m.local_concurrency_limits.deep_view()
            + d.local_concurrency_limits.deep_view());
        assert(policy.deep_view() == model->Ok_0);
    }
    Ok(policy)
}

/// The policies in force for the first `n` destinations of a route.
pub open spec fn route_policies(
    config: WorkspaceConfig,
    listener: ListenerResourceConfig,
    route: RouteConfig,
    outer: LayerView,
    middle: LayerView,
    n: nat,
) -> Result<Seq<EffectivePolicyView>, Seq<char>>
    decreases n,
{
    if n == 0 {
        Ok(Seq::empty())
    } else {
        match route_policies(config, listener, route, outer, middle, (n - 1) as nat) {
            Err(e) => Err(e),
            Ok(before) => match destination_policies(
                config,
                listener,
                route,
                route.destinations@[n - 1],
                outer,
                middle,
            ) {
                Err(e) => Err(e),
                Ok(policy) => Ok(before.push(policy)),
            },
        }
    }
}

/// Where the policies of the first destinations cannot be resolved, neither can those of all.
pub proof fn route_policies_fail_early(
    config: WorkspaceConfig,
    listener: ListenerResourceConfig,
    route: RouteConfig,
    outer: LayerView,
    middle: LayerView,
    n: nat,
    m: nat,
)
    requires
        n <= m,
        route_policies(config, listener, route, outer, middle, n) is Err,
    ensures
        route_policies(config, listener, route, outer, middle, m) == route_policies(
            config,
            listener,
            route,
            outer,
            middle,
            n,
        ),
    decreases m,
{
    if n < m {
        route_policies_fail_early(config, listener, route, outer, middle, n, (m - 1) as nat);
    }
}

/// Resolves the policies in force for the destinations of a route.
pub fn resolve_route_policies(
    config: &WorkspaceConfig,
    listener: &ListenerResourceConfig,
    route: &RouteConfig,
    outer: &TransformLayer,
    middle: &TransformLayer,
) -> (r: Result<Vec<EffectiveRouteDestinationPolicy>, ServeError>)
    ensures
        agrees(
            r,
            route_policies(
                *config,
                *listener,
                *route,
                outer.deep_view(),
                middle.deep_view(),
                route.destinations@.len(),
            ),
        ),
{
    let mut out: Vec<EffectiveRouteDestinationPolicy> = Vec::new();
    let mut i: usize = 0;
    proof {
        assert(out.deep_view() =~= Seq::<EffectivePolicyView>::empty());
    }
    while i < route.destinations.len()
        invariant
            i <= route.destinations@.len(),
            route_policies(
                *config,
                *listener,
                *route,
                outer.deep_view(),
                middle.deep_view(),
                i as nat,
            ) == Ok::<Seq<EffectivePolicyView>, Seq<char>>(out.deep_view()),
        decreases route.destinations@.len() - i,
    {
        match resolve_destination_policies(
            config,
            listener,
            route,
            &route.destinations[i],
            outer,
            middle,
        ) {
            Ok(policy) => {
                let ghost before = out.deep_view();
                out.push(policy);
                proof {
                    assert(out.deep_view() =~= before.push(policy.deep_view()));
                }
            },
            Err(e) => {
                proof {
                    route_policies_fail_early(
                        *config,
                        *listener,
                        *route,
                        outer.deep_view(),
                        middle.deep_view(),
                        (i + 1) as nat,
                        route.destinations@.len(),
                    );
                }
                return Err(e);
            },
        }
        i = i + 1;
    }
    Ok(out)
}

/// The policies in force for the route that a listener refers to by `name`.
pub open spec fn referred_route_policies(
    config: WorkspaceConfig,
    listener: ListenerResourceConfig,
    outer: LayerView,
    name: Seq<char>,
) -> Result<(Seq<char>, Seq<EffectivePolicyView>), Seq<char>> {
    match route_named(config.routes@, name) {
        None => Err(unknown_route(listener, name)),
        Some(route) => match layer_of(config, route.policies.transform_policy, route.name@) {
            Err(e) => Err(e),
            Ok(middle) => match route_policies(
                config,
                listener,
                route,
                outer,
                middle,
                route.destinations@.len(),
            ) {
                Err(e) => Err(e),
                Ok(policies) => Ok((route.name@, policies)),
            },
        },
    }
}

/// The policies in force for the first `n` routes of a listener.
pub open spec fn listener_policies(
    config: WorkspaceConfig,
    listener: ListenerResourceConfig,
    outer: LayerView,
    n: nat,
) -> Result<Map<Seq<char>, Seq<EffectivePolicyView>>, Seq<char>>
    decreases n,
{
    if n == 0 {
        Ok(Map::empty())
    } else {
        match listener_policies(config, listener, outer, (n - 1) as nat) {
            Err(e) => Err(e),
            Ok(before) => match referred_route_policies(
                config,
                listener,
                outer,
                listener.routes@[n - 1]@,
            ) {
                Err(e) => Err(e),
                Ok((name, policies)) => Ok(before.insert(name, policies)),
            },
        }
    }
}

/// Where the policies of the first routes cannot be resolved, neither can those of all.
pub proof fn listener_policies_fail_early(
    config: WorkspaceConfig,
    listener: ListenerResourceConfig,
    outer: LayerView,
    n: nat,
    m: nat,
)
    requires
        n <= m,
        listener_policies(config, listener, outer, n) is Err,
    ensures
        listener_policies(config, listener, outer, m) == listener_policies(
            config,
            listener,
            outer,
            n,
        ),
    decreases m,
{
    if n < m {
        listener_policies_fail_early(config, listener, outer, n, (m - 1) as nat);
    }
}

/// The policies in force for each destination of each of a listener's routes.
pub open spec fn effective_policies(
    config: WorkspaceConfig,
    listener: ListenerResourceConfig,
) -> Result<Map<Seq<char>, Seq<EffectivePolicyView>>, Seq<char>> {
    match layer_of(config, listener.policies.transform_policy, listener.name@) {
        Err(e) => Err(e),
        Ok(outer) => listener_policies(config, listener, outer, listener.routes@.len()),
    }
}

/// Resolves the policies in force for each destination of each of a listener's routes.
pub fn resolve_effective_route_backend_policy_diagnostics(
    config: &WorkspaceConfig,
    listener: &ListenerResourceConfig,
) -> (r: Result<NamedMap<Vec<EffectiveRouteDestinationPolicy>>, ServeError>)
    ensures
        agrees(r, effective_policies(*config, *listener)),
{
    let outer = match resolve_layer(
        config,
        &listener.policies.transform_policy,
        listener.name.as_str(),
    ) {
        Ok(layer) => layer,
        Err(e) => {
            return Err(e);
        },
    };
    let mut out: NamedMap<Vec<EffectiveRouteDestinationPolicy>> = NamedMap::new();
    let mut i: usize = 0;
    let ghost model = outer.deep_view();
    proof {
        assert(out.deep_view() =~= Map::<Seq<char>, Seq<EffectivePolicyView>>::empty());
    }
    while i < listener.routes.len()
        invariant
            i <= listener.routes@.len(),
            model == outer.deep_view(),
            effective_policies(*config, *listener) == listener_policies(
                *config,
                *listener,
                model,
                listener.routes@.len(),
            ),
            listener_policies(*config, *listener, model, i as nat) == Ok::<
                Map<Seq<char>, Seq<EffectivePolicyView>>,
                Seq<char>,
            >(out.deep_view()),
        decreases listener.routes@.len() - i,
    {
        match resolve_referred_route(config, listener, &outer, listener.routes[i].as_str()) {
            Ok((name, policies)) => {
                let ghost before = out.deep_view();
                let ghost key = name@;
                let ghost value = policies.deep_view();
                out.insert(name, policies);
                proof {
                    assert(out.deep_view() =~= before.insert(key, value));
                }
            },
            Err(e) => {
                proof {
                    listener_policies_fail_early(
                        *config,
                        *listener,
                        model,
                        (i + 1) as nat,
                        listener.routes@.len(),
                    );
                }
                return Err(e);
            },
        }
        i = i + 1;
    }
    Ok(out)
}

fn resolve_referred_route(
    config: &WorkspaceConfig,
    listener: &ListenerResourceConfig,
    outer: &TransformLayer,
    name: &str,
) -> (r: Result<(String, Vec<EffectiveRouteDestinationPolicy>), ServeError>)
    ensures
        agrees(r, referred_route_policies(*config, *listener, outer.deep_view(), name@)),
{
    let route = match find_route(&config.routes, name) {
        Some(route) => route,
        None => {
            return Err(unknown_route_error(listener, name));
        },
    };
    let middle = match resolve_layer(
        config,
        &route.policies.transform_policy,
        route.name.as_str(),
    ) {
        Ok(layer) => layer,
        Err(e) => {
            return Err(e);
        },
    };
    match resolve_route_policies(config, listener, route, outer, &middle) {
        Ok(policies) => Ok((route.name.clone(), policies)),
        Err(e) => Err(e),
    }
}

/// Whether a reference is the innermost of three: a destination's own wins over the route's and
/// the listener's, and the route's over the listener's.
pub open spec fn inner_wins(
    effective: Option<Seq<char>>,
    listener: Option<String>,
    route: Option<String>,
    destination: Option<String>,
) -> bool {
    &&& destination is Some ==> effective == Some(destination->0@)
    &&& destination is None && route is Some ==> effective == Some(route->0@)
    &&& destination is None && route is None ==> effective == listener.deep_view()
}

/// A destination's own reference to a policy wins over the route's and the listener's, and the
/// route's over the listener's. The one exception is the identity towards a server: there the
/// destination's own reference wins over its cluster's.
pub proof fn inner_references_win(
    config: WorkspaceConfig,
    listener: ListenerResourceConfig,
    route: RouteConfig,
    destination: RouteDestinationConfig,
    outer: LayerView,
    middle: LayerView,
    policy: EffectivePolicyView,
)
    requires
        destination_policies(config, listener, route, destination, outer, middle) == Ok::<
            EffectivePolicyView,
            Seq<char>,
        >(policy),
    ensures
        ({
            let l = listener.policies;
            let r = route.policies;
            let d = destination.policies;
            let cluster = cluster_named(config.upstream_clusters@, destination.upstream_cluster@);
            &&& inner_wins(policy.retry_budget, l.retry_budget, r.retry_budget, d.retry_budget)
            &&& inner_wins(
                policy.timeout_hierarchy,
                l.timeout_hierarchy,
                r.timeout_hierarchy,
                d.timeout_hierarchy,
            )
            &&& inner_wins(
                policy.circuit_breaker,
                l.circuit_breaker,
                r.circuit_breaker,
                d.circuit_breaker,
            )
            &&& inner_wins(
                policy.jwt_auth_policy,
                l.jwt_auth_policy,
                r.jwt_auth_policy,
                d.jwt_auth_policy,
            )
            &&& inner_wins(
                policy.external_auth_policy,
                l.external_auth_policy,
                r.external_auth_policy,
                d.external_auth_policy,
            )
            &&& inner_wins(
                policy.authorization_policy,
                l.authorization_policy,
                r.authorization_policy,
                d.authorization_policy,
            )
            &&& inner_wins(
                policy.transform_policy,
                l.transform_policy,
                r.transform_policy,
                d.transform_policy,
            )
            &&& inner_wins(
                policy.traffic_mirror,
                l.traffic_mirror,
                r.traffic_mirror,
                d.traffic_mirror,
            )
            &&& inner_wins(
                policy.fault_injection,
                l.fault_injection,
                r.fault_injection,
                d.fault_injection,
            )
            &&& cluster is Some
            &&& inner_wins(
                policy.upstream_identity_policy,
                cluster->0.policies.upstream_identity_policy,
                None,
                d.upstream_identity_policy,
            )
        }),
{
}

} // verus!
