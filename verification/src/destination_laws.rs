//! What holds of the limits, retries and transformations of every destination: each has those that
//! its policies name, and destinations that name the same share them.

use crate::config::{policy_named, NamedPolicy, WorkspaceConfig};
use crate::destination_policies::{
    destination_plan, destination_plans, failure_key, failure_plan, has_manager, plans_in_order,
    policy_resolves, route_plans, shared_with, with_limiters, DestinationPlanView, EngineDefaults,
    FailureKeyView, FailureManagerPlan, SharedView,
};
use crate::effective_policies::EffectivePolicyView;
use crate::named_map::{name_order, names_can_be_ordered};
use vstd::prelude::*;

verus! {

/// Whether the policies of a list that names stand for are there.
pub open spec fn all_there<S>(list: Seq<NamedPolicy<S>>, names: Seq<Seq<char>>) -> bool {
    forall|k: int| 0 <= k < names.len() ==> policy_named(list, #[trigger] names[k]) is Some
}

/// Whether the policy of a list that a name stands for, where there is a name, is there.
pub open spec fn one_there<S>(list: Seq<NamedPolicy<S>>, name: Option<Seq<char>>) -> bool {
    name matches Some(n) ==> policy_named(list, n) is Some
}

/// Whether all that limits the requests of a destination and handles its failures is there.
pub open spec fn limits_are_there(config: WorkspaceConfig, policy: EffectivePolicyView) -> bool {
    &&& all_there(config.policies.local_rate_limits@, policy.local_rate_limits)
    &&& all_there(config.policies.local_concurrency_limits@, policy.local_concurrency_limits)
    &&& one_there(config.policies.retry_budgets@, policy.retry_budget)
    &&& one_there(config.policies.timeout_hierarchies@, policy.timeout_hierarchy)
    &&& one_there(config.policies.circuit_breakers@, policy.circuit_breaker)
}

/// Whether failures are handled as the named policies say, and by the engine's defaults where
/// none is named: a limit for each try takes the place of that for each attempt, and without a
/// policy a request may take as long as the longer of idling and connecting.
pub open spec fn failures_follow(
    config: WorkspaceConfig,
    defaults: EngineDefaults,
    key: FailureKeyView,
    plan: FailureManagerPlan,
) -> bool {
    &&& match key.retry_budget {
        Some(name) => policy_named(config.policies.retry_budgets@, name) == Some(plan.retry_budget),
        None => plan.retry_budget == defaults.retry_budget,
    }
    &&& match key.circuit_breaker {
        Some(name) => policy_named(config.policies.circuit_breakers@, name) == Some(
            plan.circuit_breaker,
        ),
        None => plan.circuit_breaker == defaults.circuit_breaker,
    }
    &&& match key.timeout_hierarchy {
        Some(name) => {
            &&& policy_named(config.policies.timeout_hierarchies@, name) matches Some(policy)
            &&& plan.timeouts.request_timeout_ms == policy.request_timeout_ms
            &&& plan.timeouts.connect_timeout_ms == policy.connect_timeout_ms
            &&& plan.timeouts.idle_timeout_ms == policy.idle_timeout_ms
            &&& policy.per_try_timeout_ms is Some ==> Some(plan.timeouts.attempt_timeout_ms)
                == policy.per_try_timeout_ms
            &&& policy.per_try_timeout_ms is None ==> plan.timeouts.attempt_timeout_ms
                == policy.attempt_timeout_ms
        },
        None => {
            let t = plan.timeouts;
            &&& t.connect_timeout_ms == defaults.connect_timeout_ms
            &&& t.idle_timeout_ms == defaults.idle_timeout_ms
            &&& t.attempt_timeout_ms >= t.connect_timeout_ms
            &&& t.attempt_timeout_ms >= t.idle_timeout_ms
            &&& t.attempt_timeout_ms == t.connect_timeout_ms || t.attempt_timeout_ms
                == t.idle_timeout_ms
            &&& t.request_timeout_ms == t.attempt_timeout_ms
        },
    }
}

/// Failures are handled as the named policies say, and by the engine's defaults where none is
/// named. That fails only where a named policy is not there.
pub proof fn failures_are_handled_as_configured(
    config: WorkspaceConfig,
    defaults: EngineDefaults,
    key: FailureKeyView,
)
    ensures
        failure_plan(config, defaults, key) is Ok <==> one_there(
            config.policies.retry_budgets@,
            key.retry_budget,
        ) && one_there(config.policies.timeout_hierarchies@, key.timeout_hierarchy) && one_there(
            config.policies.circuit_breakers@,
            key.circuit_breaker,
        ),
        failure_plan(config, defaults, key) matches Ok(plan) ==> failures_follow(
            config,
            defaults,
            key,
            plan,
        ),
{
}

/// Whether the plan of a destination applies what its policies say.
pub open spec fn plan_follows(
    config: WorkspaceConfig,
    policy: EffectivePolicyView,
    plan: DestinationPlanView,
) -> bool {
    let some = policy.retry_budget is Some || policy.timeout_hierarchy is Some
        || policy.circuit_breaker is Some;
    &&& plan.request_transform == policy.effective_request_transform
    &&& plan.response_transform == policy.effective_response_transform
    &&& plan.rate_limiters == policy.local_rate_limits
    &&& plan.concurrency_limiters == policy.local_concurrency_limits
    &&& policy.traffic_mirror is None ==> plan.traffic_mirror is None
    &&& policy.fault_injection is None ==> plan.fault_injection is None
    &&& policy_resolves(config, policy) && policy.traffic_mirror is Some ==> plan.traffic_mirror
        == Some((policy_named(config.policies.traffic_mirrors@, policy.traffic_mirror->0)->0)@)
    &&& policy_resolves(config, policy) && policy.fault_injection is Some ==> plan.fault_injection
        == Some((policy_named(config.policies.fault_injections@, policy.fault_injection->0)->0)@)
    &&& plan.failure_manager is Some <==> some
    &&& some ==> {
        let key = plan.failure_manager->0;
        &&& key.retry_budget == policy.retry_budget
        &&& key.timeout_hierarchy == policy.timeout_hierarchy
        &&& key.circuit_breaker == policy.circuit_breaker
    }
    &&& plan.enforce_retry_budget <==> policy.retry_budget is Some
    &&& plan.enforce_timeout_hierarchy <==> policy.timeout_hierarchy is Some
    &&& plan.enforce_circuit_breaker <==> policy.circuit_breaker is Some
}

/// Whether all that destinations share is what the workspace's policies say, and no two failure
/// managers are for the same policies.
pub open spec fn shared_follows(
    config: WorkspaceConfig,
    defaults: EngineDefaults,
    shared: SharedView,
) -> bool {
    &&& forall|name: Seq<char>| #[trigger]
        shared.rate_limiters.contains_key(name) ==> policy_named(
            config.policies.local_rate_limits@,
            name,
        ) == Some(shared.rate_limiters[name])
    &&& forall|name: Seq<char>| #[trigger]
        shared.concurrency_limiters.contains_key(name) ==> policy_named(
            config.policies.local_concurrency_limits@,
            name,
        ) == Some(shared.concurrency_limiters[name])
    &&& forall|i: int|
        0 <= i < shared.failure_managers.len() ==> failures_follow(
            config,
            defaults,
            (#[trigger] shared.failure_managers[i]).0,
            shared.failure_managers[i].1,
        )
    &&& forall|i: int, j: int|
        0 <= i < j < shared.failure_managers.len() ==> (#[trigger] shared.failure_managers[i]).0
            != (#[trigger] shared.failure_managers[j]).0
}

/// Whether all that a destination shares with others is there.
pub open spec fn shared_serves(policy: EffectivePolicyView, shared: SharedView) -> bool {
    &&& forall|k: int|
        0 <= k < policy.local_rate_limits.len() ==> shared.rate_limiters.contains_key(
            #[trigger] policy.local_rate_limits[k],
        )
    &&& forall|k: int|
        0 <= k < policy.local_concurrency_limits.len()
            ==> shared.concurrency_limiters.contains_key(
            #[trigger] policy.local_concurrency_limits[k],
        )
    &&& policy.retry_budget is Some || policy.timeout_hierarchy is Some
        || policy.circuit_breaker is Some ==> exists|i: int|
        0 <= i < shared.failure_managers.len() && {
            let key = (#[trigger] shared.failure_managers[i]).0;
            &&& key.retry_budget == policy.retry_budget
            &&& key.timeout_hierarchy == policy.timeout_hierarchy
            &&& key.circuit_breaker == policy.circuit_breaker
        }
}

/// Whether nothing that is shared is lost.
spec fn shared_grows(before: SharedView, after: SharedView) -> bool {
    &&& forall|name: Seq<char>| #[trigger]
        before.rate_limiters.contains_key(name) ==> after.rate_limiters.contains_key(name)
    &&& forall|name: Seq<char>| #[trigger]
        before.concurrency_limiters.contains_key(name) ==> after.concurrency_limiters.contains_key(
            name,
        )
    &&& before.failure_managers.len() <= after.failure_managers.len()
    &&& forall|i: int|
        0 <= i < before.failure_managers.len() ==> #[trigger] after.failure_managers[i]
            == before.failure_managers[i]
}

#[verifier::rlimit(40)]
proof fn lemma_served_stays(policy: EffectivePolicyView, before: SharedView, after: SharedView)
    requires
        shared_serves(policy, before),
        shared_grows(before, after),
    ensures
        shared_serves(policy, after),
{
    if policy.retry_budget is Some || policy.timeout_hierarchy is Some
        || policy.circuit_breaker is Some {
        let i = choose|i: int|
            0 <= i < before.failure_managers.len() && {
                let key = (#[trigger] before.failure_managers[i]).0;
                &&& key.retry_budget == policy.retry_budget
                &&& key.timeout_hierarchy == policy.timeout_hierarchy
                &&& key.circuit_breaker == policy.circuit_breaker
            };
        assert(after.failure_managers[i] == before.failure_managers[i]);
    }
}

#[verifier::rlimit(40)]
proof fn lemma_limiters<S>(
    list: Seq<NamedPolicy<S>>,
    kind: Seq<char>,
    names: Seq<Seq<char>>,
    table: Map<Seq<char>, S>,
    n: nat,
)
    requires
        n <= names.len(),
        forall|name: Seq<char>| #[trigger]
            table.contains_key(name) ==> policy_named(list, name) == Some(table[name]),
    ensures
        with_limiters(list, kind, names, table, n) is Ok <==> forall|k: int|
            0 <= k < n ==> policy_named(list, #[trigger] names[k]) is Some,
        with_limiters(list, kind, names, table, n) matches Ok(after) ==> {
            &&& forall|name: Seq<char>| #[trigger]
                after.contains_key(name) ==> policy_named(list, name) == Some(after[name])
            &&& forall|name: Seq<char>| #[trigger]
                after.contains_key(name) <==> table.contains_key(name) || exists|k: int|
                    0 <= k < n && #[trigger] names[k] == name
        },
    decreases n,
{
    if n > 0 {
        let m = (n - 1) as nat;
        lemma_limiters(list, kind, names, table, m);
        let last = names[m as int];
        if with_limiters(list, kind, names, table, n) is Ok {
            let before = with_limiters(list, kind, names, table, m)->Ok_0;
            let after = with_limiters(list, kind, names, table, n)->Ok_0;
            assert forall|name: Seq<char>| #[trigger]
                after.contains_key(name) <==> table.contains_key(name) || exists|k: int|
                    0 <= k < n && #[trigger] names[k] == name by {
                assert(before.contains_key(name) <==> table.contains_key(name) || exists|k: int|
                    0 <= k < m && #[trigger] names[k] == name);
                if name == last {
                    assert(names[m as int] == name);
                }
            }
            assert forall|k: int| 0 <= k < n implies policy_named(list, #[trigger] names[k])
                is Some by {
                if k == m {
                    assert(after.contains_key(last));
                }
            }
        } else if forall|k: int| 0 <= k < n ==> policy_named(list, #[trigger] names[k]) is Some {
            assert(policy_named(list, names[m as int]) is Some);
        }
    }
}

#[verifier::rlimit(40)]
proof fn lemma_shared(
    config: WorkspaceConfig,
    defaults: EngineDefaults,
    policy: EffectivePolicyView,
    shared: SharedView,
)
    requires
        shared_follows(config, defaults, shared),
    ensures
        shared_with(config, defaults, policy, shared) is Ok <==> limits_are_there(config, policy),
        shared_with(config, defaults, policy, shared) matches Ok(after) ==> {
            &&& shared_follows(config, defaults, after)
            &&& shared_serves(policy, after)
            &&& shared_grows(shared, after)
            &&& forall|name: Seq<char>| #[trigger]
                after.rate_limiters.contains_key(name) ==> shared.rate_limiters.contains_key(name)
                    || policy.local_rate_limits.contains(name)
            &&& forall|name: Seq<char>| #[trigger]
                after.concurrency_limiters.contains_key(name)
                    ==> shared.concurrency_limiters.contains_key(name)
                    || policy.local_concurrency_limits.contains(name)
        },
{
    let rates = config.policies.local_rate_limits@;
    let slots = config.policies.local_concurrency_limits@;
    lemma_limiters(
        rates,
        "local rate-limit"@,
        policy.local_rate_limits,
        shared.rate_limiters,
        policy.local_rate_limits.len(),
    );
    lemma_limiters(
        slots,
        "local concurrency-limit"@,
        policy.local_concurrency_limits,
        shared.concurrency_limiters,
        policy.local_concurrency_limits.len(),
    );
    let key = failure_key(policy);
    failures_are_handled_as_configured(config, defaults, key);
    let table = shared.failure_managers;
    if has_manager(table, key) {
        let i = choose|i: int| 0 <= i < table.len() && (#[trigger] table[i]).0 == key;
        assert(failures_follow(config, defaults, table[i].0, table[i].1));
    }
    if shared_with(config, defaults, policy, shared) is Ok {
        let after = shared_with(config, defaults, policy, shared)->Ok_0;
        if policy.retry_budget is Some || policy.timeout_hierarchy is Some
            || policy.circuit_breaker is Some {
            if has_manager(table, key) {
                let i = choose|i: int| 0 <= i < table.len() && (#[trigger] table[i]).0 == key;
                assert(after.failure_managers[i].0 == key);
            } else {
                assert(after.failure_managers[table.len() as int].0 == key);
                assert forall|i: int, j: int|
                    0 <= i < j < after.failure_managers.len() implies (
                #[trigger] after.failure_managers[i]).0 != (#[trigger] after.failure_managers[j]).0
                    by {
                    assert(after.failure_managers[i] == table[i]);
                    if j < table.len() {
                        assert(after.failure_managers[j] == table[j]);
                    }
                }
            }
        }
        assert(shared_serves(policy, after));
    }
}

/// Whether the destination `j` is the last one of a route's first `n` with its cluster.
pub open spec fn is_last_for_cluster(policies: Seq<EffectivePolicyView>, j: int, n: nat) -> bool {
    &&& 0 <= j < n
    &&& forall|k: int|
        j < k < n ==> (#[trigger] policies[k]).upstream_cluster != policies[j].upstream_cluster
}

/// Whether plans are those of the first `n` destinations of a route: one for each cluster, of the
/// last destination with it.
pub open spec fn route_plans_follow(
    config: WorkspaceConfig,
    policies: Seq<EffectivePolicyView>,
    n: nat,
    plans: Map<Seq<char>, DestinationPlanView>,
) -> bool {
    &&& forall|cluster: Seq<char>| #[trigger]
        plans.contains_key(cluster) <==> exists|j: int|
            0 <= j < n && (#[trigger] policies[j]).upstream_cluster == cluster
    &&& forall|j: int| #[trigger]
        is_last_for_cluster(policies, j, n) ==> plan_follows(
            config,
            policies[j],
            plans[policies[j].upstream_cluster],
        )
}

#[verifier::rlimit(40)]
proof fn lemma_route_plans(
    config: WorkspaceConfig,
    defaults: EngineDefaults,
    policies: Seq<EffectivePolicyView>,
    shared: SharedView,
    n: nat,
)
    requires
        n <= policies.len(),
        shared_follows(config, defaults, shared),
    ensures
        route_plans(config, defaults, policies, shared, n) is Ok <==> forall|j: int|
            0 <= j < n ==> limits_are_there(config, #[trigger] policies[j]),
        route_plans(config, defaults, policies, shared, n) matches Ok((plans, after)) ==> {
            &&& route_plans_follow(config, policies, n, plans)
            &&& shared_follows(config, defaults, after)
            &&& shared_grows(shared, after)
            &&& forall|j: int| 0 <= j < n ==> shared_serves(#[trigger] policies[j], after)
            &&& forall|name: Seq<char>| #[trigger]
                after.rate_limiters.contains_key(name) ==> shared.rate_limiters.contains_key(name)
                    || exists|j: int|
                    0 <= j < n && (#[trigger] policies[j]).local_rate_limits.contains(name)
            &&& forall|name: Seq<char>| #[trigger]
                after.concurrency_limiters.contains_key(name)
                    ==> shared.concurrency_limiters.contains_key(name) || exists|j: int|
                    0 <= j < n && (#[trigger] policies[j]).local_concurrency_limits.contains(name)
        },
    decreases n,
{
    if n > 0 {
        let m = (n - 1) as nat;
        lemma_route_plans(config, defaults, policies, shared, m);
        let last = policies[m as int];
        if route_plans(config, defaults, policies, shared, m) is Ok {
            let (before, middle) = route_plans(config, defaults, policies, shared, m)->Ok_0;
            lemma_shared(config, defaults, last, middle);
            if route_plans(config, defaults, policies, shared, n) is Ok {
                let (plans, after) = route_plans(config, defaults, policies, shared, n)->Ok_0;
                assert forall|cluster: Seq<char>| #[trigger]
                    plans.contains_key(cluster) <==> exists|j: int|
                        0 <= j < n && (#[trigger] policies[j]).upstream_cluster == cluster by {
                    assert(before.contains_key(cluster) <==> exists|j: int|
                        0 <= j < m && (#[trigger] policies[j]).upstream_cluster == cluster);
                    if cluster == last.upstream_cluster {
                        assert(policies[m as int].upstream_cluster == cluster);
                    }
                }
                assert forall|j: int| #[trigger] is_last_for_cluster(policies, j, n) implies
                    plan_follows(config, policies[j], plans[policies[j].upstream_cluster]) by {
                    if j < m {
                        assert(policies[m as int].upstream_cluster
                            != policies[j].upstream_cluster);
                        assert(is_last_for_cluster(policies, j, m));
                    } else {
                        assert(plans[last.upstream_cluster] == destination_plan(config, last));
                    }
                }
                assert forall|j: int| 0 <= j < n implies shared_serves(
                    #[trigger] policies[j],
                    after,
                ) by {
                    if j < m {
                        lemma_served_stays(policies[j], middle, after);
                    }
                }
                assert forall|name: Seq<char>| #[trigger]
                    after.rate_limiters.contains_key(name) && !shared.rate_limiters.contains_key(
                        name,
                    ) implies exists|j: int|
                    0 <= j < n && (#[trigger] policies[j]).local_rate_limits.contains(name) by {
                    if !middle.rate_limiters.contains_key(name) {
                        assert(policies[m as int].local_rate_limits.contains(name));
                    }
                }
                assert forall|name: Seq<char>| #[trigger]
                    after.concurrency_limiters.contains_key(name)
                        && !shared.concurrency_limiters.contains_key(name) implies exists|j: int|
                    0 <= j < n && (#[trigger] policies[j]).local_concurrency_limits.contains(name)
                    by {
                    if !middle.concurrency_limiters.contains_key(name) {
                        assert(policies[m as int].local_concurrency_limits.contains(name));
                    }
                }
            } else if forall|j: int|
                0 <= j < n ==> limits_are_there(config, #[trigger] policies[j]) {
                assert(limits_are_there(config, policies[m as int]));
            }
        }
    }
}

/// Whether all that limits the destinations of a route and handles their failures is there.
pub open spec fn route_limits_are_there(
    config: WorkspaceConfig,
    policies: Seq<EffectivePolicyView>,
) -> bool {
    forall|j: int| 0 <= j < policies.len() ==> limits_are_there(config, #[trigger] policies[j])
}

/// Whether all that the destinations of a route share with others is there.
pub open spec fn route_is_served_by(policies: Seq<EffectivePolicyView>, shared: SharedView) -> bool {
    forall|j: int| 0 <= j < policies.len() ==> shared_serves(#[trigger] policies[j], shared)
}

/// Whether some destination of a route has a rate limit.
pub open spec fn route_has_rate_limit(policies: Seq<EffectivePolicyView>, name: Seq<char>) -> bool {
    exists|j: int|
        0 <= j < policies.len() && (#[trigger] policies[j]).local_rate_limits.contains(name)
}

/// Whether some destination of a route has a limit of concurrent requests.
pub open spec fn route_has_concurrency_limit(
    policies: Seq<EffectivePolicyView>,
    name: Seq<char>,
) -> bool {
    exists|j: int|
        0 <= j < policies.len() && (#[trigger] policies[j]).local_concurrency_limits.contains(name)
}

#[verifier::rlimit(40)]
proof fn lemma_plans(
    config: WorkspaceConfig,
    defaults: EngineDefaults,
    policies: Map<Seq<char>, Seq<EffectivePolicyView>>,
    order: Seq<Seq<char>>,
    n: nat,
)
    requires
        n <= order.len(),
    ensures
        plans_in_order(config, defaults, policies, order, n) is Ok <==> forall|i: int|
            0 <= i < n ==> route_limits_are_there(config, policies[#[trigger] order[i]]),
        plans_in_order(config, defaults, policies, order, n) matches Ok(plans) ==> {
            &&& shared_follows(config, defaults, plans.shared)
            &&& forall|name: Seq<char>| #[trigger]
                plans.routes.contains_key(name) <==> exists|i: int|
                    0 <= i < n && #[trigger] order[i] == name
            &&& forall|name: Seq<char>| #[trigger]
                plans.routes.contains_key(name) ==> route_plans_follow(
                    config,
                    policies[name],
                    policies[name].len(),
                    plans.routes[name],
                ) && route_is_served_by(policies[name], plans.shared)
            &&& forall|name: Seq<char>| #[trigger]
                plans.shared.rate_limiters.contains_key(name) ==> exists|i: int|
                    0 <= i < n && route_has_rate_limit(policies[#[trigger] order[i]], name)
            &&& forall|name: Seq<char>| #[trigger]
                plans.shared.concurrency_limiters.contains_key(name) ==> exists|i: int|
                    0 <= i < n && route_has_concurrency_limit(policies[#[trigger] order[i]], name)
        },
    decreases n,
{
    if n > 0 {
        let m = (n - 1) as nat;
        lemma_plans(config, defaults, policies, order, m);
        let last = order[m as int];
        if plans_in_order(config, defaults, policies, order, m) is Ok {
            let before = plans_in_order(config, defaults, policies, order, m)->Ok_0;
            lemma_route_plans(
                config,
                defaults,
                policies[last],
                before.shared,
                policies[last].len(),
            );
            if plans_in_order(config, defaults, policies, order, n) is Ok {
                let plans = plans_in_order(config, defaults, policies, order, n)->Ok_0;
                assert forall|name: Seq<char>| #[trigger]
                    plans.routes.contains_key(name) <==> exists|i: int|
                        0 <= i < n && #[trigger] order[i] == name by {
                    assert(before.routes.contains_key(name) <==> exists|i: int|
                        0 <= i < m && #[trigger] order[i] == name);
                    if name == last {
                        assert(order[m as int] == name);
                    }
                }
                assert forall|name: Seq<char>| #[trigger]
                    plans.routes.contains_key(name) implies route_plans_follow(
                    config,
                    policies[name],
                    policies[name].len(),
                    plans.routes[name],
                ) && route_is_served_by(policies[name], plans.shared) by {
                    if name != last {
                        assert(before.routes.contains_key(name));
                        assert forall|j: int| 0 <= j < policies[name].len() implies shared_serves(
                            #[trigger] policies[name][j],
                            plans.shared,
                        ) by {
                            lemma_served_stays(policies[name][j], before.shared, plans.shared);
                        }
                    }
                }
                assert forall|name: Seq<char>| #[trigger]
                    plans.shared.rate_limiters.contains_key(name) implies exists|i: int|
                    0 <= i < n && route_has_rate_limit(policies[#[trigger] order[i]], name) by {
                    if !before.shared.rate_limiters.contains_key(name) {
                        assert(route_has_rate_limit(policies[order[m as int]], name));
                    }
                }
                assert forall|name: Seq<char>| #[trigger]
                    plans.shared.concurrency_limiters.contains_key(name) implies exists|i: int|
                    0 <= i < n && route_has_concurrency_limit(policies[#[trigger] order[i]], name)
                    by {
                    if !before.shared.concurrency_limiters.contains_key(name) {
                        assert(route_has_concurrency_limit(policies[order[m as int]], name));
                    }
                }
            } else if forall|i: int|
                0 <= i < n ==> route_limits_are_there(config, policies[#[trigger] order[i]]) {
                assert(route_limits_are_there(config, policies[order[m as int]]));
            }
        }
    }
}

/// Every destination of every route has the limits, the failure handling and the changes that its
/// policies name; a limit or a failure manager is there where some destination names it, is what
/// the workspace's policy says, and is one and the same for all that name it. Limits that no
/// destination names are not there.
#[verifier::rlimit(40)]
pub proof fn destinations_are_treated_by_their_policies(
    config: WorkspaceConfig,
    defaults: EngineDefaults,
    policies: Map<Seq<char>, Seq<EffectivePolicyView>>,
)
    requires
        policies.dom().finite(),
        destination_plans(config, defaults, policies) is Ok,
    ensures
        ({
            let plans = destination_plans(config, defaults, policies)->Ok_0;
            &&& shared_follows(config, defaults, plans.shared)
            &&& forall|route: Seq<char>| #[trigger]
                plans.routes.contains_key(route) <==> policies.contains_key(route)
            &&& forall|route: Seq<char>| #[trigger]
                policies.contains_key(route) ==> route_plans_follow(
                    config,
                    policies[route],
                    policies[route].len(),
                    plans.routes[route],
                ) && route_is_served_by(policies[route], plans.shared)
            &&& forall|name: Seq<char>| #[trigger]
                plans.shared.rate_limiters.contains_key(name) ==> exists|route: Seq<char>|
                    policies.contains_key(route) && #[trigger] route_has_rate_limit(
                        policies[route],
                        name,
                    )
            &&& forall|name: Seq<char>| #[trigger]
                plans.shared.concurrency_limiters.contains_key(name) ==> exists|route: Seq<char>|
                    policies.contains_key(route) && #[trigger] route_has_concurrency_limit(
                        policies[route],
                        name,
                    )
        }),
{
    let order = name_order(policies);
    names_can_be_ordered(policies);
    lemma_plans(config, defaults, policies, order, order.len());
    let plans = destination_plans(config, defaults, policies)->Ok_0;
    assert forall|route: Seq<char>| #[trigger]
        plans.routes.contains_key(route) <==> policies.contains_key(route) by {
        assert(policies.contains_key(route) <==> order.contains(route));
    }
    assert forall|route: Seq<char>| #[trigger] policies.contains_key(route) implies
        route_plans_follow(
        config,
        policies[route],
        policies[route].len(),
        plans.routes[route],
    ) && route_is_served_by(policies[route], plans.shared) by {
        assert(plans.routes.contains_key(route));
    }
    assert forall|name: Seq<char>| #[trigger]
        plans.shared.rate_limiters.contains_key(name) implies exists|route: Seq<char>|
        policies.contains_key(route) && #[trigger] route_has_rate_limit(policies[route], name) by {
        let i = choose|i: int|
            0 <= i < order.len() && route_has_rate_limit(policies[#[trigger] order[i]], name);
        assert(order.contains(order[i]));
        assert(policies.contains_key(order[i]));
    }
    assert forall|name: Seq<char>| #[trigger]
        plans.shared.concurrency_limiters.contains_key(name) implies exists|route: Seq<char>|
        policies.contains_key(route) && #[trigger] route_has_concurrency_limit(
            policies[route],
            name,
        ) by {
        let i = choose|i: int|
            0 <= i < order.len() && route_has_concurrency_limit(
                policies[#[trigger] order[i]],
                name,
            );
        assert(order.contains(order[i]));
        assert(policies.contains_key(order[i]));
    }
}

/// Destinations are refused only where a limit or a policy for failures that one of them names is
/// not there; and wherever one is not there, they are refused.
#[verifier::rlimit(40)]
pub proof fn destinations_are_refused_only_for_a_reason(
    config: WorkspaceConfig,
    defaults: EngineDefaults,
    policies: Map<Seq<char>, Seq<EffectivePolicyView>>,
)
    requires
        policies.dom().finite(),
    ensures
        destination_plans(config, defaults, policies) is Ok <==> forall|route: Seq<char>|
            #[trigger] policies.contains_key(route) ==> route_limits_are_there(
                config,
                policies[route],
            ),
{
    let order = name_order(policies);
    names_can_be_ordered(policies);
    lemma_plans(config, defaults, policies, order, order.len());
    if destination_plans(config, defaults, policies) is Ok {
        assert forall|route: Seq<char>| #[trigger] policies.contains_key(route) implies
            route_limits_are_there(config, policies[route]) by {
            assert(order.contains(route));
            let i = choose|i: int| 0 <= i < order.len() && order[i] == route;
            assert(route_limits_are_there(config, policies[order[i]]));
        }
    } else if forall|route: Seq<char>| #[trigger]
        policies.contains_key(route) ==> route_limits_are_there(config, policies[route]) {
        assert forall|i: int| 0 <= i < order.len() implies route_limits_are_there(
            config,
            policies[#[trigger] order[i]],
        ) by {
            assert(order.contains(order[i]));
            assert(policies.contains_key(order[i]));
        }
    }
}

} // verus!
