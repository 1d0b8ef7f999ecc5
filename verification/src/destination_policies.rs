//! The limits, retries and transformations that are applied to the requests of each destination
//! of a listener's routes. Destinations that refer to the same policy share what it counts.

use crate::config::{
    agrees, find_policy, policy_named, CircuitBreakerPolicyConfig,
    LocalConcurrencyLimitPolicyConfig, LocalLimitScopeConfig, LocalRateLimitPolicyConfig,
    NamedPolicy, RequestTransformConfig, ResponseTransformConfig, RetryBudgetPolicyConfig,
    TimeoutHierarchyPolicyConfig, WorkspaceConfig,
};
use crate::control_plane_journal::copy_texts;
use crate::effective_policies::{
    copy_request_transform, copy_response_transform, copy_text, EffectivePolicyView,
    EffectiveRouteDestinationPolicy, RequestTransformView, ResponseTransformView,
};
use crate::error::ServeError;
use crate::named_map::{name_order, order_is_unique, ordered_names, NamedMap};
use crate::text::{str_eq, text};
use vstd::prelude::*;
use vstd::string::*;

verus! {

/// What the proxy engine does where a workspace says nothing.
#[derive(Debug, Clone, Copy, PartialEq, Eq, Structural)]
pub struct EngineDefaults {
    pub retry_budget: RetryBudgetPolicyConfig,
    pub circuit_breaker: CircuitBreakerPolicyConfig,
    pub connect_timeout_ms: u64,
    pub idle_timeout_ms: u64,
    pub preface_timeout_ms: u64,
}

/// How long a request and its parts may take.
#[derive(Debug, Clone, Copy, PartialEq, Eq, Structural)]
pub struct TimeoutHierarchy {
    pub request_timeout_ms: u64,
    pub attempt_timeout_ms: u64,
    pub connect_timeout_ms: u64,
    pub idle_timeout_ms: u64,
}

/// How long a request may take where a workspace says nothing: as long as the longer of idling
/// and connecting.
pub open spec fn default_timeouts(defaults: EngineDefaults) -> TimeoutHierarchy {
    let attempt = if defaults.idle_timeout_ms >= defaults.connect_timeout_ms {
        defaults.idle_timeout_ms
    } else {
        defaults.connect_timeout_ms
    };
    TimeoutHierarchy {
        request_timeout_ms: attempt,
        attempt_timeout_ms: attempt,
        connect_timeout_ms: defaults.connect_timeout_ms,
        idle_timeout_ms: defaults.idle_timeout_ms,
    }
}

/// How long a request may take where a workspace says nothing.
pub fn default_timeout_hierarchy(defaults: &EngineDefaults) -> (r: TimeoutHierarchy)
    ensures
        r == default_timeouts(*defaults),
{
    let attempt: u64 = if defaults.idle_timeout_ms >= defaults.connect_timeout_ms {
        defaults.idle_timeout_ms
    } else {
        defaults.connect_timeout_ms
    };
    TimeoutHierarchy {
        request_timeout_ms: attempt,
        attempt_timeout_ms: attempt,
        connect_timeout_ms: defaults.connect_timeout_ms,
        idle_timeout_ms: if defaults.idle_timeout_ms <= attempt {
            defaults.idle_timeout_ms
        } else {
            attempt
        },
    }
}

/// The timeouts of a policy; a limit for each try takes the place of that for each attempt.
pub open spec fn policy_timeouts(policy: TimeoutHierarchyPolicyConfig) -> TimeoutHierarchy {
    TimeoutHierarchy {
        request_timeout_ms: policy.request_timeout_ms,
        attempt_timeout_ms: match policy.per_try_timeout_ms {
            Some(ms) => ms,
            None => policy.attempt_timeout_ms,
        },
        connect_timeout_ms: policy.connect_timeout_ms,
        idle_timeout_ms: policy.idle_timeout_ms,
    }
}

/// The failure of a reference to a policy that is not there.
pub open spec fn unknown_policy(kind: Seq<char>, name: Seq<char>) -> Seq<char> {
    "unknown "@ + kind + " policy "@ + name
}

fn unknown_policy_error(kind: &str, name: &str) -> (r: ServeError)
    ensures
        r.message@ == unknown_policy(kind@, name@),
{
    let mut message = text("unknown ");
    message.append(kind);
    message.append(" policy ");
    message.append(name);
    ServeError { message }
}

/// The policy with a name, or the failure where there is none.
pub open spec fn required_policy<S>(
    list: Seq<NamedPolicy<S>>,
    kind: Seq<char>,
    name: Seq<char>,
) -> Result<S, Seq<char>> {
    match policy_named(list, name) {
        Some(policy) => Ok(policy),
        None => Err(unknown_policy(kind, name)),
    }
}

fn require_policy<'a, S>(list: &'a Vec<NamedPolicy<S>>, kind: &str, name: &str) -> (r: Result<
    &'a S,
    ServeError,
>)
    ensures
        match required_policy(list@, kind@, name@) {
            Ok(policy) => r matches Ok(p) && *p == policy,
            Err(message) => r matches Err(e) && e.message@ == message,
        },
{
    match find_policy(list, name) {
        Some(policy) => Ok(policy),
        None => Err(unknown_policy_error(kind, name)),
    }
}

/// The retry budget that a policy names.
pub fn resolve_named_retry_budget_policy(config: &WorkspaceConfig, policy_name: &str) -> (r: Result<
    RetryBudgetPolicyConfig,
    ServeError,
>)
    ensures
        match required_policy(config.policies.retry_budgets@, "retry-budget"@, policy_name@) {
            Ok(policy) => r == Ok::<RetryBudgetPolicyConfig, ServeError>(policy),
            Err(message) => r matches Err(e) && e.message@ == message,
        },
{
    match require_policy(&config.policies.retry_budgets, "retry-budget", policy_name) {
        Ok(policy) => Ok(*policy),
        Err(e) => Err(e),
    }
}

/// The timeouts that a policy names.
pub fn resolve_named_timeout_hierarchy(config: &WorkspaceConfig, policy_name: &str) -> (r: Result<
    TimeoutHierarchy,
    ServeError,
>)
    ensures
        match required_policy(
            config.policies.timeout_hierarchies@,
            "timeout hierarchy"@,
            policy_name@,
        ) {
            Ok(policy) => r == Ok::<TimeoutHierarchy, ServeError>(policy_timeouts(policy)),
            Err(message) => r matches Err(e) && e.message@ == message,
        },
{
    match require_policy(&config.policies.timeout_hierarchies, "timeout hierarchy", policy_name) {
        Ok(policy) => Ok(
            TimeoutHierarchy {
                request_timeout_ms: policy.request_timeout_ms,
                attempt_timeout_ms: match policy.per_try_timeout_ms {
                    Some(ms) => ms,
                    None => policy.attempt_timeout_ms,
                },
                connect_timeout_ms: policy.connect_timeout_ms,
                idle_timeout_ms: policy.idle_timeout_ms,
            },
        ),
        Err(e) => Err(e),
    }
}

/// The circuit breaker that a policy names.
pub fn resolve_named_circuit_breaker_policy(config: &WorkspaceConfig, policy_name: &str) -> (r:
    Result<CircuitBreakerPolicyConfig, ServeError>)
    ensures
        match required_policy(config.policies.circuit_breakers@, "circuit-breaker"@, policy_name@) {
            Ok(policy) => r == Ok::<CircuitBreakerPolicyConfig, ServeError>(policy),
            Err(message) => r matches Err(e) && e.message@ == message,
        },
{
    match require_policy(&config.policies.circuit_breakers, "circuit-breaker", policy_name) {
        Ok(policy) => Ok(*policy),
        Err(e) => Err(e),
    }
}

/// How failures of a destination are handled.
#[derive(Debug, Clone, Copy, PartialEq, Eq, Structural)]
pub struct FailureManagerPlan {
    pub retry_budget: RetryBudgetPolicyConfig,
    pub timeouts: TimeoutHierarchy,
    pub circuit_breaker: CircuitBreakerPolicyConfig,
}

/// The policies by which failures of a destination are handled.
#[derive(Debug)]
pub struct FailureManagerKey {
    pub retry_budget: Option<String>,
    pub timeout_hierarchy: Option<String>,
    pub circuit_breaker: Option<String>,
}

/// The policies by which failures of a destination are handled.
#[verifier::ext_equal]
pub struct FailureKeyView {
    pub retry_budget: Option<Seq<char>>,
    pub timeout_hierarchy: Option<Seq<char>>,
    pub circuit_breaker: Option<Seq<char>>,
}

impl DeepView for FailureManagerKey {
    type V = FailureKeyView;

    open spec fn deep_view(&self) -> FailureKeyView {
        FailureKeyView {
            retry_budget: self.retry_budget.deep_view(),
            timeout_hierarchy: self.timeout_hierarchy.deep_view(),
            circuit_breaker: self.circuit_breaker.deep_view(),
        }
    }
}

/// How failures are handled under the given policies; the engine's defaults stand in for those
/// that are not named.
pub open spec fn failure_plan(
    config: WorkspaceConfig,
    defaults: EngineDefaults,
    key: FailureKeyView,
) -> Result<FailureManagerPlan, Seq<char>> {
    let retry = match key.retry_budget {
        Some(name) => required_policy(config.policies.retry_budgets@, "retry-budget"@, name),
        None => Ok(defaults.retry_budget),
    };
    let timeouts = match key.timeout_hierarchy {
        Some(name) => match required_policy(
            config.policies.timeout_hierarchies@,
            "timeout hierarchy"@,
            name,
        ) {
            Ok(policy) => Ok(policy_timeouts(policy)),
            Err(e) => Err(e),
        },
        None => Ok(default_timeouts(defaults)),
    };
    let breaker = match key.circuit_breaker {
        Some(name) => required_policy(config.policies.circuit_breakers@, "circuit-breaker"@, name),
        None => Ok(defaults.circuit_breaker),
    };
    match (retry, timeouts, breaker) {
        (Err(e), _, _) => Err(e),
        (_, Err(e), _) => Err(e),
        (_, _, Err(e)) => Err(e),
        (Ok(retry_budget), Ok(timeouts), Ok(circuit_breaker)) => Ok(
            FailureManagerPlan { retry_budget, timeouts, circuit_breaker },
        ),
    }
}

fn plan_failures(
    config: &WorkspaceConfig,
    defaults: &EngineDefaults,
    key: &FailureManagerKey,
) -> (r: Result<FailureManagerPlan, ServeError>)
    ensures
        match failure_plan(*config, *defaults, key.deep_view()) {
            Ok(plan) => r == Ok::<FailureManagerPlan, ServeError>(plan),
            Err(message) => r matches Err(e) && e.message@ == message,
        },
{
    let retry_budget = match &key.retry_budget {
        Some(name) => match resolve_named_retry_budget_policy(config, name.as_str()) {
            Ok(policy) => policy,
            Err(e) => {
                return Err(e);
            },
        },
        None => defaults.retry_budget,
    };
    let timeouts = match &key.timeout_hierarchy {
        Some(name) => match resolve_named_timeout_hierarchy(config, name.as_str()) {
            Ok(policy) => policy,
            Err(e) => {
                return Err(e);
            },
        },
        None => default_timeout_hierarchy(defaults),
    };
    let circuit_breaker = match &key.circuit_breaker {
        Some(name) => match resolve_named_circuit_breaker_policy(config, name.as_str()) {
            Ok(policy) => policy,
            Err(e) => {
                return Err(e);
            },
        },
        None => defaults.circuit_breaker,
    };
    Ok(FailureManagerPlan { retry_budget, timeouts, circuit_breaker })
}

/// A failure manager that destinations with the same policies share.
#[derive(Debug)]
pub struct FailureManagerEntry {
    pub key: FailureManagerKey,
    pub plan: FailureManagerPlan,
}

impl DeepView for FailureManagerEntry {
    type V = (FailureKeyView, FailureManagerPlan);

    open spec fn deep_view(&self) -> (FailureKeyView, FailureManagerPlan) {
        (self.key.deep_view(), self.plan)
    }
}

fn same_text(a: &Option<String>, b: &Option<String>) -> (r: bool)
    ensures
        r == (a.deep_view() == b.deep_view()),
{
    match (a, b) {
        (Some(x), Some(y)) => str_eq(x.as_str(), y.as_str()),
        (None, None) => true,
        _ => false,
    }
}

/// Whether a table has a failure manager for the given policies.
pub open spec fn has_manager(
    table: Seq<(FailureKeyView, FailureManagerPlan)>,
    key: FailureKeyView,
) -> bool {
    exists|i: int| 0 <= i < table.len() && (#[trigger] table[i]).0 == key
}

/// A table with a failure manager for the given policies, if any are given.
pub open spec fn with_manager(
    config: WorkspaceConfig,
    defaults: EngineDefaults,
    key: FailureKeyView,
    table: Seq<(FailureKeyView, FailureManagerPlan)>,
) -> Result<Seq<(FailureKeyView, FailureManagerPlan)>, Seq<char>> {
    if key.retry_budget is None && key.timeout_hierarchy is None && key.circuit_breaker is None {
        Ok(table)
    } else if has_manager(table, key) {
        Ok(table)
    } else {
        match failure_plan(config, defaults, key) {
            Ok(plan) => Ok(table.push((key, plan))),
            Err(e) => Err(e),
        }
    }
}

fn manager_known(table: &Vec<FailureManagerEntry>, key: &FailureManagerKey) -> (r: bool)
    ensures
        r == has_manager(table.deep_view(), key.deep_view()),
{
    let ghost all = table.deep_view();
    let mut i: usize = 0;
    while i < table.len()
        invariant
            i <= table@.len(),
            all == table.deep_view(),
            forall|j: int| 0 <= j < i ==> (#[trigger] all[j]).0 != key.deep_view(),
        decreases table@.len() - i,
    {
        proof {
            assert(all[i as int] == table@[i as int].deep_view());
        }
        if same_text(&table[i].key.retry_budget, &key.retry_budget) && same_text(
            &table[i].key.timeout_hierarchy,
            &key.timeout_hierarchy,
        ) && same_text(&table[i].key.circuit_breaker, &key.circuit_breaker) {
            proof {
                assert(all[i as int].0 == key.deep_view());
            }
            return true;
        }
        i = i + 1;
    }
    false
}

/// Finds or plans the failure manager for the given policies: none where no policy is given.
pub fn resolve_destination_failure_manager(
    config: &WorkspaceConfig,
    defaults: &EngineDefaults,
    table: &mut Vec<FailureManagerEntry>,
    policy: &EffectiveRouteDestinationPolicy,
) -> (r: Result<Option<FailureManagerKey>, ServeError>)
    ensures
        ({
            let key = failure_key(policy.deep_view());
            match with_manager(*config, *defaults, key, old(table).deep_view()) {
                Ok(after) => {
                    &&& final(table).deep_view() == after
                    &&& r matches Ok(manager)
                    &&& manager.deep_view() == (if key.retry_budget is None
                        && key.timeout_hierarchy is None && key.circuit_breaker is None {
                        None::<FailureKeyView>
                    } else {
                        Some(key)
                    })
                },
                Err(message) => r matches Err(e) && e.message@ == message,
            }
        }),
{
    if policy.retry_budget.is_none() && policy.timeout_hierarchy.is_none()
        && policy.circuit_breaker.is_none() {
        return Ok(None);
    }
    let key = FailureManagerKey {
        retry_budget: copy_text(&policy.retry_budget),
        timeout_hierarchy: copy_text(&policy.timeout_hierarchy),
        circuit_breaker: copy_text(&policy.circuit_breaker),
    };
    proof {
        assert(key.deep_view() == failure_key(policy.deep_view()));
    }
    if !manager_known(table, &key) {
        let plan = match plan_failures(config, defaults, &key) {
            Ok(plan) => plan,
            Err(e) => {
                return Err(e);
            },
        };
        let ghost before = table.deep_view();
        let entry = FailureManagerEntry {
            key: FailureManagerKey {
                retry_budget: copy_text(&policy.retry_budget),
                timeout_hierarchy: copy_text(&policy.timeout_hierarchy),
                circuit_breaker: copy_text(&policy.circuit_breaker),
            },
            plan,
        };
        table.push(entry);
        proof {
            assert(table.deep_view() =~= before.push(entry.deep_view()));
            assert(entry.deep_view().0 == failure_key(policy.deep_view()));
        }
    }
    Ok(Some(key))
}

/// The policies by which failures are handled under the policies of a destination.
pub open spec fn failure_key(policy: EffectivePolicyView) -> FailureKeyView {
    FailureKeyView {
        retry_budget: policy.retry_budget,
        timeout_hierarchy: policy.timeout_hierarchy,
        circuit_breaker: policy.circuit_breaker,
    }
}

/// A copy of what a limit applies to.
pub fn compile_local_limit_scope(scope: &LocalLimitScopeConfig) -> (r: LocalLimitScopeConfig)
    ensures
        r == *scope,
{
    match scope {
        LocalLimitScopeConfig::Listener { name } => LocalLimitScopeConfig::Listener {
            name: name.clone(),
        },
        LocalLimitScopeConfig::Route { name } => LocalLimitScopeConfig::Route {
            name: name.clone(),
        },
        LocalLimitScopeConfig::RouteDestination { route, upstream_cluster } => {
            LocalLimitScopeConfig::RouteDestination {
                route: route.clone(),
                upstream_cluster: upstream_cluster.clone(),
            }
        },
        LocalLimitScopeConfig::UpstreamCluster { name } => LocalLimitScopeConfig::UpstreamCluster {
            name: name.clone(),
        },
    }
}

/// A table of limiters with those of the first `n` names, each under its name.
pub open spec fn with_limiters<S>(
    list: Seq<NamedPolicy<S>>,
    kind: Seq<char>,
    names: Seq<Seq<char>>,
    table: Map<Seq<char>, S>,
    n: nat,
) -> Result<Map<Seq<char>, S>, Seq<char>>
    decreases n,
{
    if n == 0 {
        Ok(table)
    } else {
        match with_limiters(list, kind, names, table, (n - 1) as nat) {
            Err(e) => Err(e),
            Ok(before) => if before.contains_key(names[n - 1]) {
                Ok(before)
            } else {
                match required_policy(list, kind, names[n - 1]) {
                    Ok(policy) => Ok(before.insert(names[n - 1], policy)),
                    Err(e) => Err(e),
                }
            },
        }
    }
}

proof fn lemma_limiters_fail_early<S>(
    list: Seq<NamedPolicy<S>>,
    kind: Seq<char>,
    names: Seq<Seq<char>>,
    table: Map<Seq<char>, S>,
    n: nat,
    m: nat,
)
    requires
        n <= m,
        with_limiters(list, kind, names, table, n) is Err,
    ensures
        with_limiters(list, kind, names, table, m) == with_limiters(list, kind, names, table, n),
    decreases m,
{
    if n < m {
        lemma_limiters_fail_early(list, kind, names, table, n, (m - 1) as nat);
    }
}

/// Finds or plans the limiter of a rate-limit policy.
pub fn resolve_named_local_rate_limiter(
    config: &WorkspaceConfig,
    table: &mut NamedMap<LocalRateLimitPolicyConfig>,
    policy_name: &str,
) -> (r: Result<(), ServeError>)
    ensures
        if old(table)@.contains_key(policy_name@) {
            r is Ok && final(table)@ == old(table)@
        } else {
            match required_policy(
                config.policies.local_rate_limits@,
                "local rate-limit"@,
                policy_name@,
            ) {
                Ok(policy) => r is Ok && final(table)@ == old(table)@.insert(policy_name@, policy),
                Err(message) => r matches Err(e) && e.message@ == message,
            }
        },
{
    if table.contains_key(policy_name) {
        return Ok(());
    }
    match require_policy(&config.policies.local_rate_limits, "local rate-limit", policy_name) {
        Ok(policy) => {
            let limiter = LocalRateLimitPolicyConfig {
                scope: compile_local_limit_scope(&policy.scope),
                key_kind: policy.key_kind,
                requests_per_window: policy.requests_per_window,
                window_ms: policy.window_ms,
                max_tracked_keys: policy.max_tracked_keys,
            };
            table.insert(text(policy_name), limiter);
            Ok(())
        },
        Err(e) => Err(e),
    }
}

/// Finds or plans the limiter of a concurrency-limit policy.
pub fn resolve_named_local_concurrency_limiter(
    config: &WorkspaceConfig,
    table: &mut NamedMap<LocalConcurrencyLimitPolicyConfig>,
    policy_name: &str,
) -> (r: Result<(), ServeError>)
    ensures
        if old(table)@.contains_key(policy_name@) {
            r is Ok && final(table)@ == old(table)@
        } else {
            match required_policy(
                config.policies.local_concurrency_limits@,
                "local concurrency-limit"@,
                policy_name@,
            ) {
                Ok(policy) => r is Ok && final(table)@ == old(table)@.insert(policy_name@, policy),
                Err(message) => r matches Err(e) && e.message@ == message,
            }
        },
{
    if table.contains_key(policy_name) {
        return Ok(());
    }
    match require_policy(
        &config.policies.local_concurrency_limits,
        "local concurrency-limit",
        policy_name,
    ) {
        Ok(policy) => {
            let limiter = LocalConcurrencyLimitPolicyConfig {
                scope: compile_local_limit_scope(&policy.scope),
                key_kind: policy.key_kind,
                max_concurrent: policy.max_concurrent,
                max_tracked_keys: policy.max_tracked_keys,
            };
            table.insert(text(policy_name), limiter);
            Ok(())
        },
        Err(e) => Err(e),
    }
}

fn add_rate_limiters(
    config: &WorkspaceConfig,
    table: &mut NamedMap<LocalRateLimitPolicyConfig>,
    names: &Vec<String>,
) -> (r: Result<(), ServeError>)
    ensures
        match with_limiters(
            config.policies.local_rate_limits@,
            "local rate-limit"@,
            names.deep_view(),
            old(table)@,
            names@.len(),
        ) {
            Ok(after) => r is Ok && final(table)@ == after,
            Err(message) => r matches Err(e) && e.message@ == message,
        },
{
    let ghost before = table@;
    let ghost all = names.deep_view();
    let mut i: usize = 0;
    while i < names.len()
        invariant
            i <= names@.len(),
            all == names.deep_view(),
            before == old(table)@,
            with_limiters(
                config.policies.local_rate_limits@,
                "local rate-limit"@,
                all,
                before,
                i as nat,
            ) == Ok::<Map<Seq<char>, LocalRateLimitPolicyConfig>, Seq<char>>(table@),
        decreases names@.len() - i,
    {
        proof {
            assert(all[i as int] == names@[i as int]@);
        }
        match resolve_named_local_rate_limiter(config, table, names[i].as_str()) {
            Ok(()) => {},
            Err(e) => {
                proof {
                    lemma_limiters_fail_early(
                        config.policies.local_rate_limits@,
                        "local rate-limit"@,
                        all,
                        before,
                        (i + 1) as nat,
                        names@.len(),
                    );
                }
                return Err(e);
            },
        }
        i = i + 1;
    }
    Ok(())
}

fn add_concurrency_limiters(
    config: &WorkspaceConfig,
    table: &mut NamedMap<LocalConcurrencyLimitPolicyConfig>,
    names: &Vec<String>,
) -> (r: Result<(), ServeError>)
    ensures
        match with_limiters(
            config.policies.local_concurrency_limits@,
            "local concurrency-limit"@,
            names.deep_view(),
            old(table)@,
            names@.len(),
        ) {
            Ok(after) => r is Ok && final(table)@ == after,
            Err(message) => r matches Err(e) && e.message@ == message,
        },
{
    let ghost before = table@;
    let ghost all = names.deep_view();
    let mut i: usize = 0;
    while i < names.len()
        invariant
            i <= names@.len(),
            all == names.deep_view(),
            before == old(table)@,
            with_limiters(
                config.policies.local_concurrency_limits@,
                "local concurrency-limit"@,
                all,
                before,
                i as nat,
            ) == Ok::<Map<Seq<char>, LocalConcurrencyLimitPolicyConfig>, Seq<char>>(table@),
        decreases names@.len() - i,
    {
        proof {
            assert(all[i as int] == names@[i as int]@);
        }
        match resolve_named_local_concurrency_limiter(config, table, names[i].as_str()) {
            Ok(()) => {},
            Err(e) => {
                proof {
                    lemma_limiters_fail_early(
                        config.policies.local_concurrency_limits@,
                        "local concurrency-limit"@,
                        all,
                        before,
                        (i + 1) as nat,
                        names@.len(),
                    );
                }
                return Err(e);
            },
        }
        i = i + 1;
    }
    Ok(())
}

/// What is applied to the requests of a destination.
#[derive(Debug)]
pub struct RouteDestinationPolicyPlan {
    pub request_transform: Option<RequestTransformConfig>,
    pub response_transform: Option<ResponseTransformConfig>,
    pub traffic_mirror: Option<String>,
    pub fault_injection: Option<String>,
    /// The rate limiters by their names.
    pub rate_limiters: Vec<String>,
    /// The concurrency limiters by their names.
    pub concurrency_limiters: Vec<String>,
    pub failure_manager: Option<FailureManagerKey>,
    pub enforce_retry_budget: bool,
    pub enforce_timeout_hierarchy: bool,
    pub enforce_circuit_breaker: bool,
}

/// What is applied to the requests of a destination.
#[verifier::ext_equal]
pub struct DestinationPlanView {
    pub request_transform: Option<RequestTransformView>,
    pub response_transform: Option<ResponseTransformView>,
    pub traffic_mirror: Option<Seq<char>>,
    pub fault_injection: Option<Seq<char>>,
    pub rate_limiters: Seq<Seq<char>>,
    pub concurrency_limiters: Seq<Seq<char>>,
    pub failure_manager: Option<FailureKeyView>,
    pub enforce_retry_budget: bool,
    pub enforce_timeout_hierarchy: bool,
    pub enforce_circuit_breaker: bool,
}

impl DeepView for RouteDestinationPolicyPlan {
    type V = DestinationPlanView;

    open spec fn deep_view(&self) -> DestinationPlanView {
        DestinationPlanView {
            request_transform: self.request_transform.deep_view(),
            response_transform: self.response_transform.deep_view(),
            traffic_mirror: self.traffic_mirror.deep_view(),
            fault_injection: self.fault_injection.deep_view(),
            rate_limiters: self.rate_limiters.deep_view(),
            concurrency_limiters: self.concurrency_limiters.deep_view(),
            failure_manager: self.failure_manager.deep_view(),
            enforce_retry_budget: self.enforce_retry_budget,
            enforce_timeout_hierarchy: self.enforce_timeout_hierarchy,
            enforce_circuit_breaker: self.enforce_circuit_breaker,
        }
    }
}

/// The policy that a reference names; `None` where nothing is referred to.
pub open spec fn referred_policy(
    list: Seq<NamedPolicy<String>>,
    name: Option<Seq<char>>,
) -> Option<Seq<char>> {
    match name {
        Some(name) => match policy_named(list, name) {
            Some(policy) => Some(policy@),
            None => None,
        },
        None => None,
    }
}

/// Whether a reference, if there is one, names a policy of the list.
pub open spec fn reference_resolves(
    list: Seq<NamedPolicy<String>>,
    name: Option<Seq<char>>,
) -> bool {
    name matches Some(n) ==> policy_named(list, n) is Some
}

/// Whether the mirroring and fault policies that a destination refers to are there.
pub open spec fn policy_resolves(config: WorkspaceConfig, policy: EffectivePolicyView) -> bool {
    &&& reference_resolves(config.policies.traffic_mirrors@, policy.traffic_mirror)
    &&& reference_resolves(config.policies.fault_injections@, policy.fault_injection)
}

/// What is applied to the requests of a destination with the given policies.
pub open spec fn destination_plan(
    config: WorkspaceConfig,
    policy: EffectivePolicyView,
) -> DestinationPlanView {
    let key = failure_key(policy);
    DestinationPlanView {
        request_transform: policy.effective_request_transform,
        response_transform: policy.effective_response_transform,
        traffic_mirror: referred_policy(
            config.policies.traffic_mirrors@,
            policy.traffic_mirror,
        ),
        fault_injection: referred_policy(
            config.policies.fault_injections@,
            policy.fault_injection,
        ),
        rate_limiters: policy.local_rate_limits,
        concurrency_limiters: policy.local_concurrency_limits,
        failure_manager: if key.retry_budget is None && key.timeout_hierarchy is None
            && key.circuit_breaker is None {
            None
        } else {
            Some(key)
        },
        enforce_retry_budget: policy.retry_budget is Some,
        enforce_timeout_hierarchy: policy.timeout_hierarchy is Some,
        enforce_circuit_breaker: policy.circuit_breaker is Some,
    }
}

/// What destinations share.
#[derive(Debug)]
pub struct SharedLimits {
    pub rate_limiters: NamedMap<LocalRateLimitPolicyConfig>,
    pub concurrency_limiters: NamedMap<LocalConcurrencyLimitPolicyConfig>,
    pub failure_managers: Vec<FailureManagerEntry>,
}

/// What destinations share.
#[verifier::ext_equal]
pub struct SharedView {
    pub rate_limiters: Map<Seq<char>, LocalRateLimitPolicyConfig>,
    pub concurrency_limiters: Map<Seq<char>, LocalConcurrencyLimitPolicyConfig>,
    pub failure_managers: Seq<(FailureKeyView, FailureManagerPlan)>,
}

impl DeepView for SharedLimits {
    type V = SharedView;

    open spec fn deep_view(&self) -> SharedView {
        SharedView {
            rate_limiters: self.rate_limiters@,
            concurrency_limiters: self.concurrency_limiters@,
            failure_managers: self.failure_managers.deep_view(),
        }
    }
}

/// Nothing is shared yet.
pub open spec fn nothing_shared() -> SharedView {
    SharedView {
        rate_limiters: Map::empty(),
        concurrency_limiters: Map::empty(),
        failure_managers: Seq::empty(),
    }
}

/// What is shared after one destination more.
pub open spec fn shared_with(
    config: WorkspaceConfig,
    defaults: EngineDefaults,
    policy: EffectivePolicyView,
    shared: SharedView,
) -> Result<SharedView, Seq<char>> {
    match with_limiters(
        config.policies.local_rate_limits@,
        "local rate-limit"@,
        policy.local_rate_limits,
        shared.rate_limiters,
        policy.local_rate_limits.len(),
    ) {
        Err(e) => Err(e),
        Ok(rate_limiters) => match with_limiters(
            config.policies.local_concurrency_limits@,
            "local concurrency-limit"@,
            policy.local_concurrency_limits,
            shared.concurrency_limiters,
            policy.local_concurrency_limits.len(),
        ) {
            Err(e) => Err(e),
            Ok(concurrency_limiters) => match with_manager(
                config,
                defaults,
                failure_key(policy),
                shared.failure_managers,
            ) {
                Err(e) => Err(e),
                Ok(failure_managers) => Ok(
                    SharedView { rate_limiters, concurrency_limiters, failure_managers },
                ),
            },
        },
    }
}

fn find_reference(list: &Vec<NamedPolicy<String>>, name: &Option<String>) -> (r: Option<String>)
    requires
        reference_resolves(list@, name.deep_view()),
    ensures
        r.deep_view() == referred_policy(list@, name.deep_view()),
{
    match name {
        Some(name) => match find_policy(list, name.as_str()) {
            Some(policy) => Some(policy.clone()),
            None => None,
        },
        None => None,
    }
}

fn share_limits(
    config: &WorkspaceConfig,
    defaults: &EngineDefaults,
    policy: &EffectiveRouteDestinationPolicy,
    shared: &mut SharedLimits,
) -> (r: Result<Option<FailureManagerKey>, ServeError>)
    ensures
        match shared_with(*config, *defaults, policy.deep_view(), old(shared).deep_view()) {
            Ok(after) => {
                &&& final(shared).deep_view() == after
                &&& r matches Ok(manager)
                &&& manager.deep_view() == destination_plan(
                    *config,
                    policy.deep_view(),
                ).failure_manager
            },
            Err(message) => r matches Err(e) && e.message@ == message,
        },
{
    match add_rate_limiters(config, &mut shared.rate_limiters, &policy.local_rate_limits) {
        Ok(()) => {},
        Err(e) => {
            return Err(e);
        },
    }
    match add_concurrency_limiters(
        config,
        &mut shared.concurrency_limiters,
        &policy.local_concurrency_limits,
    ) {
        Ok(()) => {},
        Err(e) => {
            return Err(e);
        },
    }
    resolve_destination_failure_manager(config, defaults, &mut shared.failure_managers, policy)
}

fn plan_destination(
    config: &WorkspaceConfig,
    defaults: &EngineDefaults,
    policy: &EffectiveRouteDestinationPolicy,
    shared: &mut SharedLimits,
) -> (r: Result<RouteDestinationPolicyPlan, ServeError>)
    requires
        shared_with(*config, *defaults, policy.deep_view(), old(shared).deep_view()) is Ok
            ==> policy_resolves(*config, policy.deep_view()),
    ensures
        match shared_with(*config, *defaults, policy.deep_view(), old(shared).deep_view()) {
            Ok(after) => {
                &&& final(shared).deep_view() == after
                &&& r matches Ok(plan)
                &&& plan.deep_view() == destination_plan(*config, policy.deep_view())
            },
            Err(message) => r matches Err(e) && e.message@ == message,
        },
{
    let failure_manager = match share_limits(config, defaults, policy, shared) {
        Ok(manager) => manager,
        Err(e) => {
            return Err(e);
        },
    };
    let plan = RouteDestinationPolicyPlan {
        request_transform: match &policy.effective_request_transform {
            Some(t) => Some(copy_request_transform(t)),
            None => None,
        },
        response_transform: match &policy.effective_response_transform {
            Some(t) => Some(copy_response_transform(t)),
            None => None,
        },
        traffic_mirror: find_reference(&config.policies.traffic_mirrors, &policy.traffic_mirror),
        fault_injection: find_reference(
            &config.policies.fault_injections,
            &policy.fault_injection,
        ),
        rate_limiters: copy_texts(&policy.local_rate_limits),
        concurrency_limiters: copy_texts(&policy.local_concurrency_limits),
        failure_manager,
        enforce_retry_budget: policy.retry_budget.is_some(),
        enforce_timeout_hierarchy: policy.timeout_hierarchy.is_some(),
        enforce_circuit_breaker: policy.circuit_breaker.is_some(),
    };
    proof {
        assert(plan.deep_view() =~= destination_plan(*config, policy.deep_view()));
    }
    Ok(plan)
}

/// The plans of the first `n` destinations of a route by their clusters, and what is shared
/// afterwards.
pub open spec fn route_plans(
    config: WorkspaceConfig,
    defaults: EngineDefaults,
    policies: Seq<EffectivePolicyView>,
    shared: SharedView,
    n: nat,
) -> Result<(Map<Seq<char>, DestinationPlanView>, SharedView), Seq<char>>
    decreases n,
{
    if n == 0 {
        Ok((Map::empty(), shared))
    } else {
        match route_plans(config, defaults, policies, shared, (n - 1) as nat) {
            Err(e) => Err(e),
            Ok((plans, before)) => match shared_with(config, defaults, policies[n - 1], before) {
                Err(e) => Err(e),
                Ok(after) => Ok(
                    (
                        plans.insert(
                            policies[n - 1].upstream_cluster,
                            destination_plan(config, policies[n - 1]),
                        ),
                        after,
                    ),
                ),
            },
        }
    }
}

proof fn lemma_route_plans_fail_early(
    config: WorkspaceConfig,
    defaults: EngineDefaults,
    policies: Seq<EffectivePolicyView>,
    shared: SharedView,
    n: nat,
    m: nat,
)
    requires
        n <= m,
        route_plans(config, defaults, policies, shared, n) is Err,
    ensures
        route_plans(config, defaults, policies, shared, m) == route_plans(
            config,
            defaults,
            policies,
            shared,
            n,
        ),
    decreases m,
{
    if n < m {
        lemma_route_plans_fail_early(config, defaults, policies, shared, n, (m - 1) as nat);
    }
}

/// Whether the mirroring and fault policies of a route's destinations are there, as far as they
/// are looked up. Those of a destination are looked up when its limits and those of the
/// destinations before it have been found.
pub open spec fn route_lookups_resolve(
    config: WorkspaceConfig,
    defaults: EngineDefaults,
    policies: Seq<EffectivePolicyView>,
    shared: SharedView,
) -> bool {
    forall|i: int|
        0 <= i < policies.len() && route_plans(
            config,
            defaults,
            policies,
            shared,
            (i + 1) as nat,
        ) is Ok ==> policy_resolves(config, #[trigger] policies[i])
}

fn plan_route(
    config: &WorkspaceConfig,
    defaults: &EngineDefaults,
    policies: &Vec<EffectiveRouteDestinationPolicy>,
    shared: &mut SharedLimits,
) -> (r: Result<NamedMap<RouteDestinationPolicyPlan>, ServeError>)
    requires
        route_lookups_resolve(
            *config,
            *defaults,
            policies.deep_view(),
            old(shared).deep_view(),
        ),
    ensures
        match route_plans(
            *config,
            *defaults,
            policies.deep_view(),
            old(shared).deep_view(),
            policies@.len(),
        ) {
            Ok((plans, after)) => {
                &&& final(shared).deep_view() == after
                &&& r matches Ok(map)
                &&& map.deep_view() == plans
            },
            Err(message) => r matches Err(e) && e.message@ == message,
        },
{
    let ghost all = policies.deep_view();
    let ghost start = shared.deep_view();
    let mut out: NamedMap<RouteDestinationPolicyPlan> = NamedMap::new();
    let mut i: usize = 0;
    proof {
        assert(out.deep_view() =~= Map::<Seq<char>, DestinationPlanView>::empty());
    }
    while i < policies.len()
        invariant
            i <= policies@.len(),
            all == policies.deep_view(),
            start == old(shared).deep_view(),
            route_lookups_resolve(*config, *defaults, all, start),
            route_plans(*config, *defaults, all, start, i as nat) == Ok::<
                (Map<Seq<char>, DestinationPlanView>, SharedView),
                Seq<char>,
            >((out.deep_view(), shared.deep_view())),
        decreases policies@.len() - i,
    {
        proof {
            assert(all[i as int] == policies@[i as int].deep_view());
        }
        match plan_destination(config, defaults, &policies[i], shared) {
            Ok(plan) => {
                let ghost before = out.deep_view();
                let ghost view = plan.deep_view();
                out.insert(policies[i].upstream_cluster.clone(), plan);
                proof {
                    assert(out.deep_view() =~= before.insert(all[i as int].upstream_cluster, view));
                }
            },
            Err(e) => {
                proof {
                    lemma_route_plans_fail_early(
                        *config,
                        *defaults,
                        all,
                        start,
                        (i + 1) as nat,
                        policies@.len(),
                    );
                }
                return Err(e);
            },
        }
        i = i + 1;
    }
    Ok(out)
}

/// What is applied to the requests of each destination of each route.
#[derive(Debug)]
pub struct DestinationPolicyPlans {
    pub routes: NamedMap<NamedMap<RouteDestinationPolicyPlan>>,
    pub shared: SharedLimits,
}

/// What is applied to the requests of each destination of each route.
#[verifier::ext_equal]
pub struct DestinationPlansView {
    pub routes: Map<Seq<char>, Map<Seq<char>, DestinationPlanView>>,
    pub shared: SharedView,
}

impl DeepView for DestinationPolicyPlans {
    type V = DestinationPlansView;

    open spec fn deep_view(&self) -> DestinationPlansView {
        DestinationPlansView {
            routes: self.routes.deep_view(),
            shared: self.shared.deep_view(),
        }
    }
}

/// The plans for the first `n` routes, taken in the order of their names.
pub open spec fn plans_in_order(
    config: WorkspaceConfig,
    defaults: EngineDefaults,
    policies: Map<Seq<char>, Seq<EffectivePolicyView>>,
    order: Seq<Seq<char>>,
    n: nat,
) -> Result<DestinationPlansView, Seq<char>>
    decreases n,
{
    if n == 0 {
        Ok(DestinationPlansView { routes: Map::empty(), shared: nothing_shared() })
    } else {
        match plans_in_order(config, defaults, policies, order, (n - 1) as nat) {
            Err(e) => Err(e),
            Ok(before) => match route_plans(
                config,
                defaults,
                policies[order[n - 1]],
                before.shared,
                policies[order[n - 1]].len(),
            ) {
                Err(e) => Err(e),
                Ok((plans, shared)) => Ok(
                    DestinationPlansView {
                        routes: before.routes.insert(order[n - 1], plans),
                        shared,
                    },
                ),
            },
        }
    }
}

proof fn lemma_plans_fail_early(
    config: WorkspaceConfig,
    defaults: EngineDefaults,
    policies: Map<Seq<char>, Seq<EffectivePolicyView>>,
    order: Seq<Seq<char>>,
    n: nat,
    m: nat,
)
    requires
        n <= m,
        plans_in_order(config, defaults, policies, order, n) is Err,
    ensures
        plans_in_order(config, defaults, policies, order, m) == plans_in_order(
            config,
            defaults,
            policies,
            order,
            n,
        ),
    decreases m,
{
    if n < m {
        lemma_plans_fail_early(config, defaults, policies, order, n, (m - 1) as nat);
    }
}

/// Whether the mirroring and fault policies of all routes' destinations are there, as far as they
/// are looked up: those of a route, when the routes before it in the order of names are planned.
pub open spec fn lookups_resolve(
    config: WorkspaceConfig,
    defaults: EngineDefaults,
    policies: Map<Seq<char>, Seq<EffectivePolicyView>>,
) -> bool {
    forall|i: int|
        0 <= i < name_order(policies).len() ==> match plans_in_order(
            config,
            defaults,
            policies,
            name_order(policies),
            i as nat,
        ) {
            Ok(before) => route_lookups_resolve(
                config,
                defaults,
                policies[#[trigger] name_order(policies)[i]],
                before.shared,
            ),
            Err(_) => true,
        }
}

/// The plans for all routes, taken in the order of their names.
pub open spec fn destination_plans(
    config: WorkspaceConfig,
    defaults: EngineDefaults,
    policies: Map<Seq<char>, Seq<EffectivePolicyView>>,
) -> Result<DestinationPlansView, Seq<char>> {
    plans_in_order(config, defaults, policies, name_order(policies), name_order(policies).len())
}

/// Plans what is applied to the requests of each destination of each route. Routes are taken in
/// the order of their names, so the first of them that cannot be planned decides the failure.
pub fn compile_route_destination_policy_runtime(
    config: &WorkspaceConfig,
    defaults: &EngineDefaults,
    diagnostics: &NamedMap<Vec<EffectiveRouteDestinationPolicy>>,
) -> (r: Result<DestinationPolicyPlans, ServeError>)
    requires
        lookups_resolve(*config, *defaults, diagnostics.deep_view()),
    ensures
        agrees(r, destination_plans(*config, *defaults, diagnostics.deep_view())),
{
    let ghost all = diagnostics.deep_view();
    let ghost order = diagnostics.names();
    let mut plans = DestinationPolicyPlans {
        routes: NamedMap::new(),
        shared: SharedLimits {
            rate_limiters: NamedMap::new(),
            concurrency_limiters: NamedMap::new(),
            failure_managers: Vec::new(),
        },
    };
    let total: usize = diagnostics.len();
    let mut i: usize = 0;
    proof {
        assert(plans.shared.deep_view() =~= nothing_shared());
        assert(plans.routes.deep_view() =~= Map::<
            Seq<char>,
            Map<Seq<char>, DestinationPlanView>,
        >::empty());
        assert(ordered_names(all, order)) by {
            assert forall|k: Seq<char>| #[trigger] all.contains_key(k) <==> order.contains(k) by {
                assert(diagnostics@.contains_key(k) <==> order.contains(k));
            }
        }
        order_is_unique(all, order, order);
    }
    while i < total
        invariant
            i <= total,
            total == order.len(),
            all == diagnostics.deep_view(),
            order == diagnostics.names(),
            ordered_names(all, order),
            order == name_order(all),
            lookups_resolve(*config, *defaults, all),
            plans_in_order(*config, *defaults, all, order, i as nat) == Ok::<
                DestinationPlansView,
                Seq<char>,
            >(plans.deep_view()),
        decreases total - i,
    {
        let name = diagnostics.name_at(i).clone();
        let policies = diagnostics.value_at(i);
        proof {
            assert(all[order[i as int]] == policies.deep_view());
        }
        match plan_route(config, defaults, policies, &mut plans.shared) {
            Ok(map) => {
                let ghost before = plans.routes.deep_view();
                let ghost view = map.deep_view();
                plans.routes.insert(name, map);
                proof {
                    assert(plans.routes.deep_view() =~= before.insert(order[i as int], view));
                }
            },
            Err(e) => {
                proof {
                    lemma_plans_fail_early(
                        *config,
                        *defaults,
                        all,
                        order,
                        (i + 1) as nat,
                        order.len(),
                    );
                }
                return Err(e);
            },
        }
        i = i + 1;
    }
    Ok(plans)
}

fn check_policy(config: &WorkspaceConfig, policy: &EffectiveRouteDestinationPolicy) -> (r: bool)
    ensures
        r == policy_resolves(*config, policy.deep_view()),
{
    let mirror = match &policy.traffic_mirror {
        Some(name) => find_policy(&config.policies.traffic_mirrors, name.as_str()).is_some(),
        None => true,
    };
    let fault = match &policy.fault_injection {
        Some(name) => find_policy(&config.policies.fault_injections, name.as_str()).is_some(),
        None => true,
    };
    mirror && fault
}

fn check_route_lookups(
    config: &WorkspaceConfig,
    defaults: &EngineDefaults,
    policies: &Vec<EffectiveRouteDestinationPolicy>,
    shared: &mut SharedLimits,
) -> (r: Result<bool, ServeError>)
    ensures
        ({
            let resolve = route_lookups_resolve(
                *config,
                *defaults,
                policies.deep_view(),
                old(shared).deep_view(),
            );
            let plans = route_plans(
                *config,
                *defaults,
                policies.deep_view(),
                old(shared).deep_view(),
                policies@.len(),
            );
            match r {
                Ok(true) => resolve && plans is Ok && final(shared).deep_view() == (plans->Ok_0).1,
                Ok(false) => !resolve,
                Err(_) => resolve && plans is Err,
            }
        }),
{
    let ghost all = policies.deep_view();
    let ghost start = shared.deep_view();
    let mut i: usize = 0;
    while i < policies.len()
        invariant
            i <= policies@.len(),
            all == policies.deep_view(),
            start == old(shared).deep_view(),
            forall|j: int| 0 <= j < i ==> policy_resolves(*config, #[trigger] all[j]),
            route_plans(*config, *defaults, all, start, i as nat) is Ok,
            (route_plans(*config, *defaults, all, start, i as nat)->Ok_0).1 == shared.deep_view(),
        decreases policies@.len() - i,
    {
        proof {
            assert(all[i as int] == policies@[i as int].deep_view());
        }
        match share_limits(config, defaults, &policies[i], shared) {
            Ok(_) => {},
            Err(e) => {
                proof {
                    let failed = (i + 1) as nat;
                    assert forall|j: int|
                        0 <= j < all.len() && route_plans(
                            *config,
                            *defaults,
                            all,
                            start,
                            (j + 1) as nat,
                        ) is Ok implies policy_resolves(*config, #[trigger] all[j]) by {
                        if i <= j {
                            lemma_route_plans_fail_early(
                                *config,
                                *defaults,
                                all,
                                start,
                                failed,
                                (j + 1) as nat,
                            );
                        }
                    }
                    lemma_route_plans_fail_early(
                        *config,
                        *defaults,
                        all,
                        start,
                        failed,
                        all.len(),
                    );
                }
                return Err(e);
            },
        }
        if !check_policy(config, &policies[i]) {
            return Ok(false);
        }
        i = i + 1;
    }
    Ok(true)
}

/// Checks that the mirroring and fault policies of all routes' destinations are there, as far as
/// they are looked up.
pub fn check_lookups(
    config: &WorkspaceConfig,
    defaults: &EngineDefaults,
    diagnostics: &NamedMap<Vec<EffectiveRouteDestinationPolicy>>,
) -> (r: bool)
    ensures
        r == lookups_resolve(*config, *defaults, diagnostics.deep_view()),
{
    let ghost all = diagnostics.deep_view();
    let ghost order = diagnostics.names();
    let mut shared = SharedLimits {
        rate_limiters: NamedMap::new(),
        concurrency_limiters: NamedMap::new(),
        failure_managers: Vec::new(),
    };
    let total: usize = diagnostics.len();
    let mut i: usize = 0;
    proof {
        assert(shared.deep_view() =~= nothing_shared());
        assert(ordered_names(all, order)) by {
            assert forall|k: Seq<char>| #[trigger] all.contains_key(k) <==> order.contains(k) by {
                assert(diagnostics@.contains_key(k) <==> order.contains(k));
            }
        }
        order_is_unique(all, order, order);
    }
    while i < total
        invariant
            i <= total,
            total == order.len(),
            all == diagnostics.deep_view(),
            order == diagnostics.names(),
            ordered_names(all, order),
            order == name_order(all),
            forall|j: int|
                0 <= j < i ==> match plans_in_order(*config, *defaults, all, order, j as nat) {
                    Ok(before) => route_lookups_resolve(
                        *config,
                        *defaults,
                        all[#[trigger] order[j]],
                        before.shared,
                    ),
                    Err(_) => true,
                },
            plans_in_order(*config, *defaults, all, order, i as nat) is Ok,
            (plans_in_order(*config, *defaults, all, order, i as nat)->Ok_0).shared
                == shared.deep_view(),
        decreases total - i,
    {
        let policies = diagnostics.value_at(i);
        proof {
            assert(all[order[i as int]] == policies.deep_view());
        }
        match check_route_lookups(config, defaults, policies, &mut shared) {
            Ok(true) => {},
            Ok(false) => {
                return false;
            },
            Err(_) => {
                proof {
                    assert forall|j: int| 0 <= j < order.len() implies match plans_in_order(
                        *config,
                        *defaults,
                        all,
                        order,
                        j as nat,
                    ) {
                        Ok(before) => route_lookups_resolve(
                            *config,
                            *defaults,
                            all[#[trigger] order[j]],
                            before.shared,
                        ),
                        Err(_) => true,
                    } by {
                        if i < j {
                            lemma_plans_fail_early(
                                *config,
                                *defaults,
                                all,
                                order,
                                (i + 1) as nat,
                                j as nat,
                            );
                        }
                    }
                }
                return true;
            },
        }
        i = i + 1;
    }
    true
}

} // verus!
