//! What holds of all references to policies: who asks for credentials, and which policies have to be
//! there.

use crate::compile_policies::{auth_in_order, destination_auth, route_auth, AuthPolicyKind};
use crate::compile_runtime::{
    listener_fault, paired, proxy_core, references_resolve, workspace_fault,
};
use crate::config::{
    policy_named, ListenerSocketConfig, NamedPolicy, RoutePrefixRule, WorkspaceConfig,
};
use crate::destination_policies::{
    lookups_resolve, plans_in_order, route_lookups_resolve, route_plans, EngineDefaults, SharedView,
};
use crate::effective_policies::{effective_policies, EffectivePolicyView};
use crate::named_map::{name_order, names_can_be_ordered};
use vstd::prelude::*;
use vstd::string::*;

verus! {

/// The policy of a kind that a destination refers to.
pub open spec fn asked_of(policy: EffectivePolicyView, kind: AuthPolicyKind) -> Option<Seq<char>> {
    match kind {
        AuthPolicyKind::Jwt => policy.jwt_auth_policy,
        AuthPolicyKind::External => policy.external_auth_policy,
        AuthPolicyKind::Authorization => policy.authorization_policy,
        AuthPolicyKind::UpstreamIdentity => policy.upstream_identity_policy,
    }
}

/// The policies of a kind that a workspace has.
pub open spec fn offered(config: WorkspaceConfig, kind: AuthPolicyKind) -> Seq<
    NamedPolicy<String>,
> {
    match kind {
        AuthPolicyKind::Jwt => config.policies.jwt_auth_policies@,
        AuthPolicyKind::External => config.policies.external_auth_policies@,
        AuthPolicyKind::Authorization => config.policies.authorization_policies@,
        AuthPolicyKind::UpstreamIdentity => config.policies.upstream_identity_policies@,
    }
}

/// Whether a destination is the last of the first `n` that serves a cluster and refers to a policy
/// of a kind.
pub open spec fn is_last_to_ask(
    policies: Seq<EffectivePolicyView>,
    kind: AuthPolicyKind,
    n: int,
    cluster: Seq<char>,
    j: int,
) -> bool {
    &&& 0 <= j < n
    &&& policies[j].upstream_cluster == cluster
    &&& asked_of(policies[j], kind) is Some
    &&& forall|k: int|
        j < k < n ==> !((#[trigger] policies[k]).upstream_cluster == cluster && asked_of(
            policies[k],
            kind,
        ) is Some)
}

#[verifier::rlimit(40)]
proof fn lemma_route_auth(
    config: WorkspaceConfig,
    kind: AuthPolicyKind,
    policies: Seq<EffectivePolicyView>,
    n: nat,
)
    requires
        n <= policies.len(),
    ensures
        ({
            let found = route_auth(config, kind, policies, n);
            &&& found is Err <==> exists|j: int|
                0 <= j < n && (asked_of(#[trigger] policies[j], kind) matches Some(name)
                    && policy_named(offered(config, kind), name) is None)
            &&& found matches Ok(map) ==> {
                &&& forall|cluster: Seq<char>, j: int| #[trigger]
                    is_last_to_ask(policies, kind, n as int, cluster, j) ==> map.contains_key(
                        cluster,
                    ) && (policy_named(
                        offered(config, kind),
                        asked_of(policies[j], kind)->0,
                    ) matches Some(policy) && map[cluster] == policy@)
                &&& forall|cluster: Seq<char>| #[trigger]
                    map.contains_key(cluster) ==> exists|j: int| #[trigger]
                        is_last_to_ask(policies, kind, n as int, cluster, j)
            }
        }),
    decreases n,
{
    if n > 0 {
        lemma_route_auth(config, kind, policies, (n - 1) as nat);
        let before = route_auth(config, kind, policies, (n - 1) as nat);
        let found = route_auth(config, kind, policies, n);
        let last = policies[n - 1];
        if found is Ok {
            let map = found->Ok_0;
            assert forall|cluster: Seq<char>, j: int| #[trigger]
                is_last_to_ask(policies, kind, n as int, cluster, j) implies map.contains_key(
                cluster,
            ) && (policy_named(
                offered(config, kind),
                asked_of(policies[j], kind)->0,
            ) matches Some(policy) && map[cluster] == policy@) by {
                if j < n - 1 {
                    assert(is_last_to_ask(policies, kind, n - 1, cluster, j));
                    assert(!(policies[n - 1].upstream_cluster == cluster && asked_of(
                        policies[n - 1],
                        kind,
                    ) is Some));
                }
            }
            assert forall|cluster: Seq<char>| #[trigger] map.contains_key(cluster) implies exists|
                j: int,
            | #[trigger] is_last_to_ask(policies, kind, n as int, cluster, j) by {
                if last.upstream_cluster == cluster && asked_of(last, kind) is Some {
                    assert(is_last_to_ask(policies, kind, n as int, cluster, n - 1));
                } else {
                    assert(before->Ok_0.contains_key(cluster));
                    let j = choose|j: int| #[trigger]
                        is_last_to_ask(policies, kind, n - 1, cluster, j);
                    assert(is_last_to_ask(policies, kind, n as int, cluster, j));
                }
            }
        } else {
            if before is Err {
                let j = choose|j: int|
                    0 <= j < n - 1 && (asked_of(#[trigger] policies[j], kind) matches Some(name)
                        && policy_named(offered(config, kind), name) is None);
                assert(asked_of(policies[j], kind) is Some);
            } else {
                assert(asked_of(policies[n - 1], kind) is Some);
            }
        }
    }
}

#[verifier::rlimit(40)]
proof fn lemma_auth_in_order(
    config: WorkspaceConfig,
    kind: AuthPolicyKind,
    policies: Map<Seq<char>, Seq<EffectivePolicyView>>,
    order: Seq<Seq<char>>,
    n: nat,
)
    requires
        n <= order.len(),
    ensures
        ({
            let found = auth_in_order(config, kind, policies, order, n);
            &&& found is Err <==> exists|i: int|
                0 <= i < n && route_auth(
                    config,
                    kind,
                    policies[#[trigger] order[i]],
                    policies[order[i]].len(),
                ) is Err
            &&& found matches Ok(map) ==> {
                &&& forall|i: int|
                    0 <= i < n ==> map.contains_key(#[trigger] order[i]) && Ok::<
                        Map<Seq<char>, Seq<char>>,
                        Seq<char>,
                    >(map[order[i]]) == route_auth(
                        config,
                        kind,
                        policies[order[i]],
                        policies[order[i]].len(),
                    )
                &&& forall|route: Seq<char>| #[trigger]
                    map.contains_key(route) ==> exists|i: int|
                        0 <= i < n && #[trigger] order[i] == route
            }
        }),
    decreases n,
{
    if n > 0 {
        lemma_auth_in_order(config, kind, policies, order, (n - 1) as nat);
        let before = auth_in_order(config, kind, policies, order, (n - 1) as nat);
        let found = auth_in_order(config, kind, policies, order, n);
        if found is Err {
            if before is Err {
                let i = choose|i: int|
                    0 <= i < n - 1 && route_auth(
                        config,
                        kind,
                        policies[#[trigger] order[i]],
                        policies[order[i]].len(),
                    ) is Err;
                assert(route_auth(config, kind, policies[order[i]], policies[order[i]].len()) is Err);
            } else {
                assert(route_auth(
                    config,
                    kind,
                    policies[order[n - 1]],
                    policies[order[n - 1]].len(),
                ) is Err);
            }
        } else {
            let map = found->Ok_0;
            assert forall|route: Seq<char>| #[trigger] map.contains_key(route) implies exists|
                i: int,
            | 0 <= i < n && #[trigger] order[i] == route by {
                if order[n - 1] != route {
                    assert(before->Ok_0.contains_key(route));
                    let i = choose|i: int| 0 <= i < n - 1 && #[trigger] order[i] == route;
                    assert(order[i] == route);
                }
            }
        }
    }
}

/// Whoever asks for credentials on the way to a cluster is who the last destination of the route with
/// that cluster refers to, for every kind of policy on its own. A cluster whose destinations refer to
/// none is asked for none. A policy that is referred to and not there is refused, and nothing else is.
#[verifier::rlimit(40)]
pub proof fn credentials_are_asked_for_as_referred_to(
    config: WorkspaceConfig,
    kind: AuthPolicyKind,
    policies: Map<Seq<char>, Seq<EffectivePolicyView>>,
)
    requires
        policies.dom().finite(),
    ensures
        ({
            let found = destination_auth(config, kind, policies);
            &&& found is Err <==> exists|route: Seq<char>, j: int|
                policies.contains_key(route) && 0 <= j < policies[route].len() && (asked_of(
                    #[trigger] policies[route][j],
                    kind,
                ) matches Some(name) && policy_named(offered(config, kind), name) is None)
            &&& found matches Ok(map) ==> {
                &&& map.dom() == policies.dom()
                &&& forall|route: Seq<char>, cluster: Seq<char>, j: int|
                    policies.contains_key(route) && #[trigger] is_last_to_ask(
                        policies[route],
                        kind,
                        policies[route].len() as int,
                        cluster,
                        j,
                    ) ==> map[route].contains_key(cluster) && (policy_named(
                        offered(config, kind),
                        asked_of(policies[route][j], kind)->0,
                    ) matches Some(policy) && map[route][cluster] == policy@)
                &&& forall|route: Seq<char>, cluster: Seq<char>|
                    policies.contains_key(route) && #[trigger] map[route].contains_key(cluster)
                        ==> exists|j: int| #[trigger]
                        is_last_to_ask(
                            policies[route],
                            kind,
                            policies[route].len() as int,
                            cluster,
                            j,
                        )
            }
        }),
{
    names_can_be_ordered(policies);
    let order = name_order(policies);
    lemma_auth_in_order(config, kind, policies, order, order.len());
    let found = destination_auth(config, kind, policies);
    assert forall|i: int| 0 <= i < order.len() implies policies.contains_key(
        #[trigger] order[i],
    ) by {
        assert(order.contains(order[i]));
    }
    if found is Err {
        let i = choose|i: int|
            0 <= i < order.len() && route_auth(
                config,
                kind,
                policies[#[trigger] order[i]],
                policies[order[i]].len(),
            ) is Err;
        let route = order[i];
        lemma_route_auth(config, kind, policies[route], policies[route].len());
        let j = choose|j: int|
            0 <= j < policies[route].len() && (asked_of(
                #[trigger] policies[route][j],
                kind,
            ) matches Some(name) && policy_named(offered(config, kind), name) is None);
        assert(policies.contains_key(route) && asked_of(policies[route][j], kind) is Some);
    } else {
        let map = found->Ok_0;
        assert forall|route: Seq<char>| #[trigger]
            policies.contains_key(route) implies map.contains_key(route) && Ok::<
            Map<Seq<char>, Seq<char>>,
            Seq<char>,
        >(map[route]) == route_auth(config, kind, policies[route], policies[route].len()) by {
            assert(order.contains(route));
            let i = choose|i: int| 0 <= i < order.len() && order[i] == route;
            assert(map.contains_key(order[i]));
        }
        assert(map.dom() =~= policies.dom()) by {
            assert forall|route: Seq<char>| map.dom().contains(route) implies policies.dom().contains(
                route,
            ) by {
                assert(map.contains_key(route));
            }
            assert forall|route: Seq<char>| policies.dom().contains(route) implies map.dom().contains(
                route,
            ) by {
                assert(policies.contains_key(route));
            }
        }
        assert forall|route: Seq<char>, cluster: Seq<char>, j: int|
            policies.contains_key(route) && #[trigger] is_last_to_ask(
                policies[route],
                kind,
                policies[route].len() as int,
                cluster,
                j,
            ) implies map[route].contains_key(cluster) && (policy_named(
            offered(config, kind),
            asked_of(policies[route][j], kind)->0,
        ) matches Some(policy) && map[route][cluster] == policy@) by {
            lemma_route_auth(config, kind, policies[route], policies[route].len());
        }
        assert forall|route: Seq<char>, cluster: Seq<char>|
            policies.contains_key(route) && #[trigger] map[route].contains_key(
                cluster,
            ) implies exists|j: int| #[trigger]
            is_last_to_ask(policies[route], kind, policies[route].len() as int, cluster, j) by {
            lemma_route_auth(config, kind, policies[route], policies[route].len());
            let own = route_auth(config, kind, policies[route], policies[route].len())->Ok_0;
            assert(own == map[route]);
            assert(own.contains_key(cluster));
            let j = choose|j: int| #[trigger]
                is_last_to_ask(policies[route], kind, policies[route].len() as int, cluster, j);
            assert(is_last_to_ask(
                policies[route],
                kind,
                policies[route].len() as int,
                cluster,
                j,
            ));
        }
        assert forall|route: Seq<char>, j: int|
            policies.contains_key(route) && 0 <= j < policies[route].len() implies !(asked_of(
            #[trigger] policies[route][j],
            kind,
        ) matches Some(name) && policy_named(offered(config, kind), name) is None) by {
            lemma_route_auth(config, kind, policies[route], policies[route].len());
        }
    }
}

/// Whether the policies for mirroring and for faults that a destination refers to are there.
pub open spec fn mirror_and_fault_are_there(
    config: WorkspaceConfig,
    policy: EffectivePolicyView,
) -> bool {
    &&& policy.traffic_mirror matches Some(name) ==> policy_named(
        config.policies.traffic_mirrors@,
        name,
    ) is Some
    &&& policy.fault_injection matches Some(name) ==> policy_named(
        config.policies.fault_injections@,
        name,
    ) is Some
}

/// A workspace passes the check of its references where every policy for mirroring and for faults is
/// there that is in force for a destination of a listener.
#[verifier::rlimit(40)]
pub proof fn complete_references_pass(
    config: WorkspaceConfig,
    defaults: EngineDefaults,
    sockets: Seq<ListenerSocketConfig>,
    compiled_routes: Seq<RoutePrefixRule>,
)
    requires
        forall|i: int, route: Seq<char>, j: int|
            0 <= i < config.listeners@.len() && (effective_policies(
                config,
                config.listeners@[i],
            ) matches Ok(policies) && policies.contains_key(route) && 0 <= j < policies[route].len())
                ==> mirror_and_fault_are_there(
                config,
                #[trigger] effective_policies(config, config.listeners@[i])->Ok_0[route][j],
            ),
        forall|i: int|
            0 <= i < config.listeners@.len() ==> (effective_policies(
                config,
                #[trigger] config.listeners@[i],
            ) matches Ok(policies) ==> policies.dom().finite()),
    ensures
        references_resolve(config, defaults, sockets, compiled_routes),
{
    assert forall|i: int| 0 <= i < config.listeners@.len() implies (effective_policies(
        config,
        #[trigger] config.listeners@[i],
    ) matches Ok(policies) ==> lookups_resolve(config, defaults, policies)) by {
        if effective_policies(config, config.listeners@[i]) is Ok {
            let policies = effective_policies(config, config.listeners@[i])->Ok_0;
            names_can_be_ordered(policies);
            let order = name_order(policies);
            assert forall|k: int, j: int|
                0 <= k < order.len() && 0 <= j < policies[order[k]].len() implies
                crate::destination_policies::policy_resolves(
                config,
                #[trigger] policies[order[k]][j],
            ) by {
                assert(order.contains(order[k]));
                assert(mirror_and_fault_are_there(
                    config,
                    effective_policies(config, config.listeners@[i])->Ok_0[order[k]][j],
                ));
            }
        }
    }
}

proof fn lemma_plans_before(
    config: WorkspaceConfig,
    defaults: EngineDefaults,
    policies: Seq<EffectivePolicyView>,
    shared: SharedView,
    n: nat,
    m: nat,
)
    requires
        n <= m,
        route_plans(config, defaults, policies, shared, m) is Ok,
    ensures
        route_plans(config, defaults, policies, shared, n) is Ok,
    decreases m,
{
    if n < m {
        lemma_plans_before(config, defaults, policies, shared, n, (m - 1) as nat);
    }
}

proof fn lemma_routes_before(
    config: WorkspaceConfig,
    defaults: EngineDefaults,
    policies: Map<Seq<char>, Seq<EffectivePolicyView>>,
    order: Seq<Seq<char>>,
    n: nat,
    m: nat,
)
    requires
        n <= m,
        plans_in_order(config, defaults, policies, order, m) is Ok,
    ensures
        plans_in_order(config, defaults, policies, order, n) is Ok,
    decreases m,
{
    if n < m {
        lemma_routes_before(config, defaults, policies, order, n, (m - 1) as nat);
    }
}

proof fn lemma_faults_before(
    config: WorkspaceConfig,
    defaults: EngineDefaults,
    sockets: Seq<ListenerSocketConfig>,
    compiled_routes: Seq<RoutePrefixRule>,
    n: nat,
    m: nat,
)
    requires
        n <= m,
        workspace_fault(config, defaults, sockets, compiled_routes, m) is None,
    ensures
        workspace_fault(config, defaults, sockets, compiled_routes, n) is None,
    decreases m,
{
    if n < m {
        lemma_faults_before(config, defaults, sockets, compiled_routes, n, (m - 1) as nat);
    }
}

/// A workspace that passes the check of its references and has nothing else amiss has every policy for
/// mirroring and for faults that is in force for a destination of a public listener.
#[verifier::rlimit(40)]
pub proof fn passed_references_are_there(
    config: WorkspaceConfig,
    defaults: EngineDefaults,
    sockets: Seq<ListenerSocketConfig>,
    compiled_routes: Seq<RoutePrefixRule>,
    i: int,
    route: Seq<char>,
    j: int,
)
    requires
        references_resolve(config, defaults, sockets, compiled_routes),
        workspace_fault(
            config,
            defaults,
            sockets,
            compiled_routes,
            paired(config, sockets),
        ) is None,
        0 <= i < paired(config, sockets),
        config.listeners@[i].class is Public,
        effective_policies(config, config.listeners@[i]) matches Ok(policies)
            && policies.dom().finite() && policies.contains_key(route) && 0 <= j
            < policies[route].len(),
    ensures
        mirror_and_fault_are_there(
            config,
            effective_policies(config, config.listeners@[i])->Ok_0[route][j],
        ),
{
    let listener = config.listeners@[i];
    let n = paired(config, sockets);
    lemma_faults_before(config, defaults, sockets, compiled_routes, i as nat, n);
    lemma_faults_before(config, defaults, sockets, compiled_routes, (i + 1) as nat, n);
    assert(listener_fault(config, defaults, listener, sockets[i], compiled_routes) is None);
    assert(proxy_core(config, defaults, listener, compiled_routes) is Ok);
    let policies = effective_policies(config, listener)->Ok_0;
    names_can_be_ordered(policies);
    let order = name_order(policies);
    assert(lookups_resolve(config, defaults, policies));
    assert(order.contains(route));
    let k = choose|k: int| 0 <= k < order.len() && order[k] == route;
    lemma_routes_before(config, defaults, policies, order, k as nat, order.len());
    lemma_routes_before(config, defaults, policies, order, (k + 1) as nat, order.len());
    let before = plans_in_order(config, defaults, policies, order, k as nat)->Ok_0;
    assert(route_lookups_resolve(config, defaults, policies[order[k]], before.shared));
    lemma_plans_before(
        config,
        defaults,
        policies[route],
        before.shared,
        (j + 1) as nat,
        policies[route].len(),
    );
    assert(crate::destination_policies::policy_resolves(config, policies[order[k]][j]));
}

} // verus!
