//! The policies of a listener: transformations, upgrades, authentication of its routes'
//! requests, and its defence against overload and hostile sources.

use crate::config::{
    agrees, find_policy, find_route, policy_named, route_named, BrownoutFeatureConfig,
    HostileEdgeProtectionPolicyConfig, HostileEdgeSourceAggregationConfig, ListenerResourceConfig,
    NamedPolicy, OverloadResponsePolicyConfig, RequestTransformConfig, ResponseTransformConfig,
    TrafficClassConfig, WorkspaceConfig,
};
use crate::control_plane_journal::copy_texts;
use crate::destination_policies::required_policy;
use crate::effective_policies::{
    request_layer, request_transform_named, resolve_named_request_transform,
    resolve_named_response_transform, resolve_request_layer, resolve_response_layer,
    response_layer, response_transform_named, EffectivePolicyView, EffectiveRouteDestinationPolicy,
    RequestTransformView, ResponseTransformView,
};
use crate::error::ServeError;
use crate::named_map::{name_order, order_is_unique, ordered_names, NamedMap};
use crate::text::text;
use vstd::prelude::*;
use vstd::string::*;

verus! {

/// The transformations of the first `n` routes of a listener that refer to one. Routes that are
/// not there are passed over.
pub open spec fn route_request_transforms(
    config: WorkspaceConfig,
    listener: ListenerResourceConfig,
    n: nat,
) -> Result<Seq<(Seq<char>, RequestTransformView)>, Seq<char>>
    decreases n,
{
    if n == 0 {
        Ok(Seq::empty())
    } else {
        match route_request_transforms(config, listener, (n - 1) as nat) {
            Err(e) => Err(e),
            Ok(before) => match route_named(config.routes@, listener.routes@[n - 1]@) {
                None => Ok(before),
                Some(route) => match route.policies.transform_policy {
                    None => Ok(before),
                    Some(name) => match request_transform_named(config, name@, route.name@) {
                        Err(e) => Err(e),
                        Ok(t) => Ok(before.push((route.name@, t))),
                    },
                },
            },
        }
    }
}

/// The transformations of a listener's responses, route by route.
pub open spec fn route_response_transforms(
    config: WorkspaceConfig,
    listener: ListenerResourceConfig,
    n: nat,
) -> Result<Seq<(Seq<char>, ResponseTransformView)>, Seq<char>>
    decreases n,
{
    if n == 0 {
        Ok(Seq::empty())
    } else {
        match route_response_transforms(config, listener, (n - 1) as nat) {
            Err(e) => Err(e),
            Ok(before) => match route_named(config.routes@, listener.routes@[n - 1]@) {
                None => Ok(before),
                Some(route) => match route.policies.transform_policy {
                    None => Ok(before),
                    Some(name) => match response_transform_named(config, name@, route.name@) {
                        Err(e) => Err(e),
                        Ok(t) => Ok(before.push((route.name@, t))),
                    },
                },
            },
        }
    }
}

proof fn lemma_request_transforms_fail_early(
    config: WorkspaceConfig,
    listener: ListenerResourceConfig,
    n: nat,
    m: nat,
)
    requires
        n <= m,
        route_request_transforms(config, listener, n) is Err,
    ensures
        route_request_transforms(config, listener, m) == route_request_transforms(
            config,
            listener,
            n,
        ),
    decreases m,
{
    if n < m {
        lemma_request_transforms_fail_early(config, listener, n, (m - 1) as nat);
    }
}

proof fn lemma_response_transforms_fail_early(
    config: WorkspaceConfig,
    listener: ListenerResourceConfig,
    n: nat,
    m: nat,
)
    requires
        n <= m,
        route_response_transforms(config, listener, n) is Err,
    ensures
        route_response_transforms(config, listener, m) == route_response_transforms(
            config,
            listener,
            n,
        ),
    decreases m,
{
    if n < m {
        lemma_response_transforms_fail_early(config, listener, n, (m - 1) as nat);
    }
}

/// What is changed in the requests of a listener and of its routes.
pub open spec fn listener_request_transforms(
    config: WorkspaceConfig,
    listener: ListenerResourceConfig,
) -> Result<
    (Option<RequestTransformView>, Seq<(Seq<char>, RequestTransformView)>),
    Seq<char>,
> {
    match request_layer(config, listener.policies.transform_policy, listener.name@) {
        Err(e) => Err(e),
        Ok(own) => match route_request_transforms(config, listener, listener.routes@.len()) {
            Err(e) => Err(e),
            Ok(routes) => Ok((own, routes)),
        },
    }
}

/// What is changed in the responses of a listener and of its routes.
pub open spec fn listener_response_transforms(
    config: WorkspaceConfig,
    listener: ListenerResourceConfig,
) -> Result<
    (Option<ResponseTransformView>, Seq<(Seq<char>, ResponseTransformView)>),
    Seq<char>,
> {
    match response_layer(config, listener.policies.transform_policy, listener.name@) {
        Err(e) => Err(e),
        Ok(own) => match route_response_transforms(config, listener, listener.routes@.len()) {
            Err(e) => Err(e),
            Ok(routes) => Ok((own, routes)),
        },
    }
}

/// Resolves what is changed in the requests of a listener and of its routes.
pub fn resolve_listener_request_transforms(
    config: &WorkspaceConfig,
    listener: &ListenerResourceConfig,
) -> (r: Result<
    (Option<RequestTransformConfig>, Vec<(String, RequestTransformConfig)>),
    ServeError,
>)
    ensures
        agrees(r, listener_request_transforms(*config, *listener)),
{
    let own = match resolve_request_layer(
        config,
        &listener.policies.transform_policy,
        listener.name.as_str(),
    ) {
        Ok(t) => t,
        Err(e) => {
            return Err(e);
        },
    };
    let mut out: Vec<(String, RequestTransformConfig)> = Vec::new();
    let mut i: usize = 0;
    proof {
        assert(out.deep_view() =~= Seq::<(Seq<char>, RequestTransformView)>::empty());
    }
    while i < listener.routes.len()
        invariant
            i <= listener.routes@.len(),
            request_layer(*config, listener.policies.transform_policy, listener.name@) == Ok::<
                Option<RequestTransformView>,
                Seq<char>,
            >(own.deep_view()),
            route_request_transforms(*config, *listener, i as nat) == Ok::<
                Seq<(Seq<char>, RequestTransformView)>,
                Seq<char>,
            >(out.deep_view()),
        decreases listener.routes@.len() - i,
    {
        match find_route(&config.routes, listener.routes[i].as_str()) {
            Some(route) => match &route.policies.transform_policy {
                Some(name) => match resolve_named_request_transform(
                    config,
                    name.as_str(),
                    route.name.as_str(),
                ) {
                    Ok(t) => {
                        let ghost before = out.deep_view();
                        let ghost view = t.deep_view();
                        out.push((route.name.clone(), t));
                        proof {
                            assert(out.deep_view() =~= before.push((route.name@, view)));
                        }
                    },
                    Err(e) => {
                        proof {
                            lemma_request_transforms_fail_early(
                                *config,
                                *listener,
                                (i + 1) as nat,
                                listener.routes@.len(),
                            );
                        }
                        return Err(e);
                    },
                },
                None => {},
            },
            None => {},
        }
        i = i + 1;
    }
    Ok((own, out))
}

/// Resolves what is changed in the responses of a listener and of its routes.
pub fn resolve_listener_response_transforms(
    config: &WorkspaceConfig,
    listener: &ListenerResourceConfig,
) -> (r: Result<
    (Option<ResponseTransformConfig>, Vec<(String, ResponseTransformConfig)>),
    ServeError,
>)
    ensures
        agrees(r, listener_response_transforms(*config, *listener)),
{
    let own = match resolve_response_layer(
        config,
        &listener.policies.transform_policy,
        listener.name.as_str(),
    ) {
        Ok(t) => t,
        Err(e) => {
            return Err(e);
        },
    };
    let mut out: Vec<(String, ResponseTransformConfig)> = Vec::new();
    let mut i: usize = 0;
    proof {
        assert(out.deep_view() =~= Seq::<(Seq<char>, ResponseTransformView)>::empty());
    }
    while i < listener.routes.len()
        invariant
            i <= listener.routes@.len(),
            response_layer(*config, listener.policies.transform_policy, listener.name@) == Ok::<
                Option<ResponseTransformView>,
                Seq<char>,
            >(own.deep_view()),
            route_response_transforms(*config, *listener, i as nat) == Ok::<
                Seq<(Seq<char>, ResponseTransformView)>,
                Seq<char>,
            >(out.deep_view()),
        decreases listener.routes@.len() - i,
    {
        match find_route(&config.routes, listener.routes[i].as_str()) {
            Some(route) => match &route.policies.transform_policy {
                Some(name) => match resolve_named_response_transform(
                    config,
                    name.as_str(),
                    route.name.as_str(),
                ) {
                    Ok(t) => {
                        let ghost before = out.deep_view();
                        let ghost view = t.deep_view();
                        out.push((route.name.clone(), t));
                        proof {
                            assert(out.deep_view() =~= before.push((route.name@, view)));
                        }
                    },
                    Err(e) => {
                        proof {
                            lemma_response_transforms_fail_early(
                                *config,
                                *listener,
                                (i + 1) as nat,
                                listener.routes@.len(),
                            );
                        }
                        return Err(e);
                    },
                },
                None => {},
            },
            None => {},
        }
        i = i + 1;
    }
    Ok((own, out))
}

/// The upgrade protocols of the first `n` routes of a listener that allow any.
pub open spec fn route_upgrades(
    config: WorkspaceConfig,
    listener: ListenerResourceConfig,
    n: nat,
) -> Seq<(Seq<char>, Seq<Seq<char>>)>
    decreases n,
{
    if n == 0 {
        Seq::empty()
    } else {
        let before = route_upgrades(config, listener, (n - 1) as nat);
        match route_named(config.routes@, listener.routes@[n - 1]@) {
            Some(route) => if route.upgrade_protocols@.len() > 0 {
                before.push((route.name@, route.upgrade_protocols.deep_view()))
            } else {
                before
            },
            None => before,
        }
    }
}

/// The upgrade protocols that a listener and its routes allow.
pub fn resolve_listener_upgrade_policies(
    config: &WorkspaceConfig,
    listener: &ListenerResourceConfig,
) -> (r: (Vec<String>, Vec<(String, Vec<String>)>))
    ensures
        r.0@ == listener.upgrade_protocols@,
        r.1.deep_view() == route_upgrades(*config, *listener, listener.routes@.len()),
{
    let mut out: Vec<(String, Vec<String>)> = Vec::new();
    let mut i: usize = 0;
    proof {
        assert(out.deep_view() =~= Seq::<(Seq<char>, Seq<Seq<char>>)>::empty());
    }
    while i < listener.routes.len()
        invariant
            i <= listener.routes@.len(),
            out.deep_view() == route_upgrades(*config, *listener, i as nat),
        decreases listener.routes@.len() - i,
    {
        match find_route(&config.routes, listener.routes[i].as_str()) {
            Some(route) => {
                if route.upgrade_protocols.len() > 0 {
                    let ghost before = out.deep_view();
                    let protocols = copy_texts(&route.upgrade_protocols);
                    proof {
                        assert(protocols.deep_view() =~= route.upgrade_protocols.deep_view());
                    }
                    out.push((route.name.clone(), protocols));
                    proof {
                        assert(out.deep_view() =~= before.push(
                            (route.name@, route.upgrade_protocols.deep_view()),
                        ));
                    }
                }
            },
            None => {},
        }
        i = i + 1;
    }
    (copy_texts(&listener.upgrade_protocols), out)
}

/// The policies by which requests are authenticated and authorised.
#[derive(Debug, Clone, Copy, PartialEq, Eq, Structural)]
pub enum AuthPolicyKind {
    Jwt,
    External,
    Authorization,
    UpstreamIdentity,
}

/// The kind of policy in words.
pub open spec fn auth_kind_name(kind: AuthPolicyKind) -> Seq<char> {
    match kind {
        AuthPolicyKind::Jwt => "jwt auth"@,
        AuthPolicyKind::External => "external auth"@,
        AuthPolicyKind::Authorization => "authorization"@,
        AuthPolicyKind::UpstreamIdentity => "upstream identity"@,
    }
}

/// The policies of a kind.
pub open spec fn auth_policies(config: WorkspaceConfig, kind: AuthPolicyKind) -> Seq<
    NamedPolicy<String>,
> {
    match kind {
        AuthPolicyKind::Jwt => config.policies.jwt_auth_policies@,
        AuthPolicyKind::External => config.policies.external_auth_policies@,
        AuthPolicyKind::Authorization => config.policies.authorization_policies@,
        AuthPolicyKind::UpstreamIdentity => config.policies.upstream_identity_policies@,
    }
}

/// The policy of a kind that is in force for a destination.
pub open spec fn auth_reference(policy: EffectivePolicyView, kind: AuthPolicyKind) -> Option<
    Seq<char>,
> {
    match kind {
        AuthPolicyKind::Jwt => policy.jwt_auth_policy,
        AuthPolicyKind::External => policy.external_auth_policy,
        AuthPolicyKind::Authorization => policy.authorization_policy,
        AuthPolicyKind::UpstreamIdentity => policy.upstream_identity_policy,
    }
}

/// The policies of a kind for the first `n` destinations of a route, by their clusters.
pub open spec fn route_auth(
    config: WorkspaceConfig,
    kind: AuthPolicyKind,
    policies: Seq<EffectivePolicyView>,
    n: nat,
) -> Result<Map<Seq<char>, Seq<char>>, Seq<char>>
    decreases n,
{
    if n == 0 {
        Ok(Map::empty())
    } else {
        match route_auth(config, kind, policies, (n - 1) as nat) {
            Err(e) => Err(e),
            Ok(before) => match auth_reference(policies[n - 1], kind) {
                None => Ok(before),
                Some(name) => match required_policy(
                    auth_policies(config, kind),
                    auth_kind_name(kind),
                    name,
                ) {
                    Err(e) => Err(e),
                    Ok(policy) => Ok(before.insert(policies[n - 1].upstream_cluster, policy@)),
                },
            },
        }
    }
}

/// The policies of a kind for the first `n` routes, taken in the order of their names.
pub open spec fn auth_in_order(
    config: WorkspaceConfig,
    kind: AuthPolicyKind,
    policies: Map<Seq<char>, Seq<EffectivePolicyView>>,
    order: Seq<Seq<char>>,
    n: nat,
) -> Result<Map<Seq<char>, Map<Seq<char>, Seq<char>>>, Seq<char>>
    decreases n,
{
    if n == 0 {
        Ok(Map::empty())
    } else {
        match auth_in_order(config, kind, policies, order, (n - 1) as nat) {
            Err(e) => Err(e),
            Ok(before) => match route_auth(
                config,
                kind,
                policies[order[n - 1]],
                policies[order[n - 1]].len(),
            ) {
                Err(e) => Err(e),
                Ok(map) => Ok(before.insert(order[n - 1], map)),
            },
        }
    }
}

proof fn lemma_route_auth_fails_early(
    config: WorkspaceConfig,
    kind: AuthPolicyKind,
    policies: Seq<EffectivePolicyView>,
    n: nat,
    m: nat,
)
    requires
        n <= m,
        route_auth(config, kind, policies, n) is Err,
    ensures
        route_auth(config, kind, policies, m) == route_auth(config, kind, policies, n),
    decreases m,
{
    if n < m {
        lemma_route_auth_fails_early(config, kind, policies, n, (m - 1) as nat);
    }
}

proof fn lemma_auth_fails_early(
    config: WorkspaceConfig,
    kind: AuthPolicyKind,
    policies: Map<Seq<char>, Seq<EffectivePolicyView>>,
    order: Seq<Seq<char>>,
    n: nat,
    m: nat,
)
    requires
        n <= m,
        auth_in_order(config, kind, policies, order, n) is Err,
    ensures
        auth_in_order(config, kind, policies, order, m) == auth_in_order(
            config,
            kind,
            policies,
            order,
            n,
        ),
    decreases m,
{
    if n < m {
        lemma_auth_fails_early(config, kind, policies, order, n, (m - 1) as nat);
    }
}

fn resolve_auth_policy(config: &WorkspaceConfig, kind: AuthPolicyKind, name: &str) -> (r: Result<
    String,
    ServeError,
>)
    ensures
        match required_policy(auth_policies(*config, kind), auth_kind_name(kind), name@) {
            Ok(policy) => r matches Ok(p) && p@ == policy@,
            Err(message) => r matches Err(e) && e.message@ == message,
        },
{
    let found = match kind {
        AuthPolicyKind::Jwt => find_policy(&config.policies.jwt_auth_policies, name),
        AuthPolicyKind::External => find_policy(&config.policies.external_auth_policies, name),
        AuthPolicyKind::Authorization => find_policy(
            &config.policies.authorization_policies,
            name,
        ),
        AuthPolicyKind::UpstreamIdentity => find_policy(
            &config.policies.upstream_identity_policies,
            name,
        ),
    };
    match found {
        Some(policy) => Ok(policy.clone()),
        None => {
            let mut message = text("unknown ");
            match kind {
                AuthPolicyKind::Jwt => {
                    message.append("jwt auth");
                },
                AuthPolicyKind::External => {
                    message.append("external auth");
                },
                AuthPolicyKind::Authorization => {
                    message.append("authorization");
                },
                AuthPolicyKind::UpstreamIdentity => {
                    message.append("upstream identity");
                },
            }
            message.append(" policy ");
            message.append(name);
            Err(ServeError { message })
        },
    }
}

fn resolve_route_auth(
    config: &WorkspaceConfig,
    kind: AuthPolicyKind,
    policies: &Vec<EffectiveRouteDestinationPolicy>,
) -> (r: Result<NamedMap<String>, ServeError>)
    ensures
        agrees(r, route_auth(*config, kind, policies.deep_view(), policies@.len())),
{
    let ghost all = policies.deep_view();
    let mut out: NamedMap<String> = NamedMap::new();
    let mut i: usize = 0;
    proof {
        assert(out.deep_view() =~= Map::<Seq<char>, Seq<char>>::empty());
    }
    while i < policies.len()
        invariant
            i <= policies@.len(),
            all == policies.deep_view(),
            route_auth(*config, kind, all, i as nat) == Ok::<
                Map<Seq<char>, Seq<char>>,
                Seq<char>,
            >(out.deep_view()),
        decreases policies@.len() - i,
    {
        proof {
            assert(all[i as int] == policies@[i as int].deep_view());
        }
        let reference = match kind {
            AuthPolicyKind::Jwt => &policies[i].jwt_auth_policy,
            AuthPolicyKind::External => &policies[i].external_auth_policy,
            AuthPolicyKind::Authorization => &policies[i].authorization_policy,
            AuthPolicyKind::UpstreamIdentity => &policies[i].upstream_identity_policy,
        };
        match reference {
            Some(name) => match resolve_auth_policy(config, kind, name.as_str()) {
                Ok(policy) => {
                    let ghost before = out.deep_view();
                    let ghost view = policy@;
                    out.insert(policies[i].upstream_cluster.clone(), policy);
                    proof {
                        assert(out.deep_view() =~= before.insert(
                            all[i as int].upstream_cluster,
                            view,
                        ));
                    }
                },
                Err(e) => {
                    proof {
                        lemma_route_auth_fails_early(
                            *config,
                            kind,
                            all,
                            (i + 1) as nat,
                            policies@.len(),
                        );
                    }
                    return Err(e);
                },
            },
            None => {},
        }
        i = i + 1;
    }
    Ok(out)
}

/// The policies of a kind for all routes, taken in the order of their names.
pub open spec fn destination_auth(
    config: WorkspaceConfig,
    kind: AuthPolicyKind,
    policies: Map<Seq<char>, Seq<EffectivePolicyView>>,
) -> Result<Map<Seq<char>, Map<Seq<char>, Seq<char>>>, Seq<char>> {
    auth_in_order(config, kind, policies, name_order(policies), name_order(policies).len())
}

/// Resolves the policies of a kind for each destination of each route.
pub fn compile_route_destination_auth_runtime(
    config: &WorkspaceConfig,
    kind: AuthPolicyKind,
    diagnostics: &NamedMap<Vec<EffectiveRouteDestinationPolicy>>,
) -> (r: Result<NamedMap<NamedMap<String>>, ServeError>)
    ensures
        agrees(r, destination_auth(*config, kind, diagnostics.deep_view())),
{
    let ghost all = diagnostics.deep_view();
    let ghost order = diagnostics.names();
    let mut out: NamedMap<NamedMap<String>> = NamedMap::new();
    let total: usize = diagnostics.len();
    let mut i: usize = 0;
    proof {
        assert(out.deep_view() =~= Map::<Seq<char>, Map<Seq<char>, Seq<char>>>::empty());
        assert(ordered_names(all, order)) by {
            assert forall|k: Seq<char>| #[trigger] all.contains_key(k) <==> order.contains(k) by {
                assert(diagnostics@.contains_key(k) <==> order.contains(k));
            }
        }
        order_is_unique(all, order, order);
    }
    while i < total
        invariant
            i <= total,
            total == order.len(),
            all == diagnostics.deep_view(),
            order == diagnostics.names(),
            ordered_names(all, order),
            order == name_order(all),
            auth_in_order(*config, kind, all, order, i as nat) == Ok::<
                Map<Seq<char>, Map<Seq<char>, Seq<char>>>,
                Seq<char>,
            >(out.deep_view()),
        decreases total - i,
    {
        let name = diagnostics.name_at(i).clone();
        let policies = diagnostics.value_at(i);
        proof {
            assert(all[order[i as int]] == policies.deep_view());
        }
        match resolve_route_auth(config, kind, policies) {
            Ok(map) => {
                let ghost before = out.deep_view();
                let ghost view = map.deep_view();
                out.insert(name, map);
                proof {
                    assert(out.deep_view() =~= before.insert(order[i as int], view));
                }
            },
            Err(e) => {
                proof {
                    lemma_auth_fails_early(
                        *config,
                        kind,
                        all,
                        order,
                        (i + 1) as nat,
                        order.len(),
                    );
                }
                return Err(e);
            },
        }
        i = i + 1;
    }
    Ok(out)
}

/// Resolves the token policy of each destination of each route.
pub fn compile_route_destination_jwt_auth_runtime(
    config: &WorkspaceConfig,
    diagnostics: &NamedMap<Vec<EffectiveRouteDestinationPolicy>>,
) -> (r: Result<NamedMap<NamedMap<String>>, ServeError>)
    ensures
        agrees(r, destination_auth(*config, AuthPolicyKind::Jwt, diagnostics.deep_view())),
{
    compile_route_destination_auth_runtime(config, AuthPolicyKind::Jwt, diagnostics)
}

/// Resolves the external authentication policy of each destination of each route.
pub fn compile_route_destination_external_auth_runtime(
    config: &WorkspaceConfig,
    diagnostics: &NamedMap<Vec<EffectiveRouteDestinationPolicy>>,
) -> (r: Result<NamedMap<NamedMap<String>>, ServeError>)
    ensures
        agrees(r, destination_auth(*config, AuthPolicyKind::External, diagnostics.deep_view())),
{
    compile_route_destination_auth_runtime(config, AuthPolicyKind::External, diagnostics)
}

/// Resolves the authorization policy of each destination of each route.
pub fn compile_route_destination_authorization_runtime(
    config: &WorkspaceConfig,
    diagnostics: &NamedMap<Vec<EffectiveRouteDestinationPolicy>>,
) -> (r: Result<NamedMap<NamedMap<String>>, ServeError>)
    ensures
        agrees(r, destination_auth(*config, AuthPolicyKind::Authorization, diagnostics.deep_view())),
{
    compile_route_destination_auth_runtime(config, AuthPolicyKind::Authorization, diagnostics)
}

/// Resolves the upstream identity policy of each destination of each route.
pub fn compile_route_destination_upstream_identity_runtime(
    config: &WorkspaceConfig,
    diagnostics: &NamedMap<Vec<EffectiveRouteDestinationPolicy>>,
) -> (r: Result<NamedMap<NamedMap<String>>, ServeError>)
    ensures
        agrees(r, destination_auth(*config, AuthPolicyKind::UpstreamIdentity, diagnostics.deep_view())),
{
    compile_route_destination_auth_runtime(config, AuthPolicyKind::UpstreamIdentity, diagnostics)
}

/// How important traffic is.
#[derive(Debug, Clone, Copy, PartialEq, Eq, Structural)]
pub enum TrafficClass {
    Critical,
    Default,
    BestEffort,
}

/// A feature that is switched off under load.
#[derive(Debug)]
pub struct CompiledBrownoutFeature {
    pub name: String,
    pub priority: TrafficClass,
}

/// When a listener counts as overloaded.
#[derive(Debug)]
pub struct CompiledListenerOverloadPolicy {
    pub signal_window_ms: u64,
    pub constrained_signal_threshold: u64,
    pub shedding_signal_threshold: u64,
    pub brownout_signal_threshold: u64,
    pub brownout_features: Vec<CompiledBrownoutFeature>,
}

/// A feature as it is compiled.
pub open spec fn compiled_feature(feature: BrownoutFeatureConfig) -> CompiledBrownoutFeature {
    CompiledBrownoutFeature {
        name: feature.name,
        priority: match feature.priority {
            TrafficClassConfig::Critical => TrafficClass::Critical,
            TrafficClassConfig::Default => TrafficClass::Default,
            TrafficClassConfig::BestEffort => TrafficClass::BestEffort,
        },
    }
}

/// When a listener counts as overloaded.
#[verifier::ext_equal]
pub struct OverloadPolicyView {
    pub signal_window_ms: u64,
    pub constrained_signal_threshold: u64,
    pub shedding_signal_threshold: u64,
    pub brownout_signal_threshold: u64,
    pub brownout_features: Seq<CompiledBrownoutFeature>,
}

impl DeepView for CompiledListenerOverloadPolicy {
    type V = OverloadPolicyView;

    open spec fn deep_view(&self) -> OverloadPolicyView {
        OverloadPolicyView {
            signal_window_ms: self.signal_window_ms,
            constrained_signal_threshold: self.constrained_signal_threshold,
            shedding_signal_threshold: self.shedding_signal_threshold,
            brownout_signal_threshold: self.brownout_signal_threshold,
            brownout_features: self.brownout_features@,
        }
    }
}

/// A policy as it is compiled.
pub open spec fn compiled_overload(policy: OverloadResponsePolicyConfig) -> OverloadPolicyView {
    OverloadPolicyView {
        signal_window_ms: policy.signal_window_ms,
        constrained_signal_threshold: policy.constrained_signal_threshold,
        shedding_signal_threshold: policy.shedding_signal_threshold,
        brownout_signal_threshold: policy.brownout_signal_threshold,
        brownout_features: policy.brownout_features@.map_values(
            |f: BrownoutFeatureConfig| compiled_feature(f),
        ),
    }
}

/// The failure of a listener's reference to a policy that is not there.
pub open spec fn listener_unknown_policy(
    listener: ListenerResourceConfig,
    kind: Seq<char>,
    name: Seq<char>,
) -> Seq<char> {
    "listener "@ + listener.name@ + " references unknown "@ + kind + " policy "@ + name
}

/// The failure of a listener's reference to a policy that is not there.
pub fn listener_unknown_policy_error(
    listener: &ListenerResourceConfig,
    kind: &str,
    name: &str,
) -> (r: ServeError)
    ensures
        r.message@ == listener_unknown_policy(*listener, kind@, name@),
{
    let mut message = text("listener ");
    message.append(listener.name.as_str());
    message.append(" references unknown ");
    message.append(kind);
    message.append(" policy ");
    message.append(name);
    ServeError { message }
}

/// When a listener counts as overloaded, where it says so.
pub open spec fn listener_overload(
    config: WorkspaceConfig,
    listener: ListenerResourceConfig,
) -> Result<Option<OverloadPolicyView>, Seq<char>> {
    match listener.policies.overload_response {
        None => Ok(None),
        Some(name) => match policy_named(config.policies.overload_responses@, name@) {
            Some(policy) => Ok(Some(compiled_overload(policy))),
            None => Err(listener_unknown_policy(listener, "overload response"@, name@)),
        },
    }
}

/// Compiles when a listener counts as overloaded.
pub fn compile_listener_overload_policy(
    config: &WorkspaceConfig,
    listener: &ListenerResourceConfig,
) -> (r: Result<Option<CompiledListenerOverloadPolicy>, ServeError>)
    ensures
        agrees(r, listener_overload(*config, *listener)),
{
    let name = match &listener.policies.overload_response {
        Some(name) => name,
        None => {
            return Ok(None);
        },
    };
    let policy = match find_policy(&config.policies.overload_responses, name.as_str()) {
        Some(policy) => policy,
        None => {
            return Err(
                listener_unknown_policy_error(listener, "overload response", name.as_str()),
            );
        },
    };
    let mut brownout_features: Vec<CompiledBrownoutFeature> = Vec::new();
    let mut i: usize = 0;
    while i < policy.brownout_features.len()
        invariant
            i <= policy.brownout_features@.len(),
            brownout_features@.len() == i,
            forall|j: int|
                0 <= j < i ==> #[trigger] brownout_features@[j] == compiled_feature(
                    policy.brownout_features@[j],
                ),
        decreases policy.brownout_features@.len() - i,
    {
        brownout_features.push(
            CompiledBrownoutFeature {
                name: policy.brownout_features[i].name.clone(),
                priority: match policy.brownout_features[i].priority {
                    TrafficClassConfig::Critical => TrafficClass::Critical,
                    TrafficClassConfig::Default => TrafficClass::Default,
                    TrafficClassConfig::BestEffort => TrafficClass::BestEffort,
                },
            },
        );
        i = i + 1;
    }
    let compiled = CompiledListenerOverloadPolicy {
        signal_window_ms: policy.signal_window_ms,
        constrained_signal_threshold: policy.constrained_signal_threshold,
        shedding_signal_threshold: policy.shedding_signal_threshold,
        brownout_signal_threshold: policy.brownout_signal_threshold,
        brownout_features,
    };
    proof {
        assert(compiled.deep_view() =~= compiled_overload(*policy));
    }
    Ok(Some(compiled))
}

/// Which sources are counted together.
#[derive(Debug, Clone, Copy, PartialEq, Eq, Structural)]
pub enum SourceAggregation {
    ExactIp,
    Ipv4Subnet24,
    Ipv6Subnet64,
}

/// How many connections one source may hold.
#[derive(Debug, Clone, Copy, PartialEq, Eq, Structural)]
pub struct CompiledSourceQuotaPolicy {
    pub aggregation: SourceAggregation,
    pub max_active_per_source: usize,
    pub max_tracked_sources: usize,
}

/// How many handshakes may be under way.
#[derive(Debug, Clone, Copy, PartialEq, Eq, Structural)]
pub struct CompiledHandshakeGuardPolicy {
    pub max_inflight: usize,
    pub timeout_ms: u64,
}

/// How a listener defends itself against hostile sources.
#[derive(Debug, Clone, Copy, PartialEq, Eq, Structural)]
pub struct CompiledListenerAbuseProtectionPolicy {
    pub source_quota: Option<CompiledSourceQuotaPolicy>,
    pub handshake_guard: Option<CompiledHandshakeGuardPolicy>,
}

impl DeepView for CompiledListenerAbuseProtectionPolicy {
    type V = CompiledListenerAbuseProtectionPolicy;

    open spec fn deep_view(&self) -> CompiledListenerAbuseProtectionPolicy {
        *self
    }
}

/// A policy as it is compiled.
pub open spec fn compiled_abuse(policy: HostileEdgeProtectionPolicyConfig) -> CompiledListenerAbuseProtectionPolicy {
    CompiledListenerAbuseProtectionPolicy {
        source_quota: match policy.source_quota {
            Some(quota) => Some(
                CompiledSourceQuotaPolicy {
                    aggregation: match quota.aggregation {
                        HostileEdgeSourceAggregationConfig::ExactIp => SourceAggregation::ExactIp,
                        HostileEdgeSourceAggregationConfig::Ipv4Subnet24 => {
                            SourceAggregation::Ipv4Subnet24
                        },
                        HostileEdgeSourceAggregationConfig::Ipv6Subnet64 => {
                            SourceAggregation::Ipv6Subnet64
                        },
                    },
                    max_active_per_source: quota.max_active_per_source,
                    max_tracked_sources: quota.max_tracked_sources,
                },
            ),
            None => None,
        },
        handshake_guard: match policy.handshake_guard {
            Some(guard) => Some(
                CompiledHandshakeGuardPolicy {
                    max_inflight: guard.max_inflight,
                    timeout_ms: guard.timeout_ms,
                },
            ),
            None => None,
        },
    }
}

/// How a listener defends itself against hostile sources, where it says so.
pub open spec fn listener_abuse(
    config: WorkspaceConfig,
    listener: ListenerResourceConfig,
) -> Result<Option<CompiledListenerAbuseProtectionPolicy>, Seq<char>> {
    match listener.policies.hostile_edge_protection {
        None => Ok(None),
        Some(name) => match policy_named(config.policies.hostile_edge_protections@, name@) {
            Some(policy) => Ok(Some(compiled_abuse(policy))),
            None => Err(listener_unknown_policy(listener, "hostile-edge protection"@, name@)),
        },
    }
}

/// Compiles how a listener defends itself against hostile sources.
pub fn compile_listener_abuse_protection_policy(
    config: &WorkspaceConfig,
    listener: &ListenerResourceConfig,
) -> (r: Result<Option<CompiledListenerAbuseProtectionPolicy>, ServeError>)
    ensures
        agrees(r, listener_abuse(*config, *listener)),
{
    let name = match &listener.policies.hostile_edge_protection {
        Some(name) => name,
        None => {
            return Ok(None);
        },
    };
    let policy = match find_policy(&config.policies.hostile_edge_protections, name.as_str()) {
        Some(policy) => policy,
        None => {
            return Err(
                listener_unknown_policy_error(listener, "hostile-edge protection", name.as_str()),
            );
        },
    };
    Ok(
        Some(
            CompiledListenerAbuseProtectionPolicy {
                source_quota: match policy.source_quota {
                    Some(quota) => Some(
                        CompiledSourceQuotaPolicy {
                            aggregation: match quota.aggregation {
                                HostileEdgeSourceAggregationConfig::ExactIp => {
                                    SourceAggregation::ExactIp
                                },
                                HostileEdgeSourceAggregationConfig::Ipv4Subnet24 => {
                                    SourceAggregation::Ipv4Subnet24
                                },
                                HostileEdgeSourceAggregationConfig::Ipv6Subnet64 => {
                                    SourceAggregation::Ipv6Subnet64
                                },
                            },
                            max_active_per_source: quota.max_active_per_source,
                            max_tracked_sources: quota.max_tracked_sources,
                        },
                    ),
                    None => None,
                },
                handshake_guard: match policy.handshake_guard {
                    Some(guard) => Some(
                        CompiledHandshakeGuardPolicy {
                            max_inflight: guard.max_inflight,
                            timeout_ms: guard.timeout_ms,
                        },
                    ),
                    None => None,
                },
            },
        ),
    )
}

} // verus!
