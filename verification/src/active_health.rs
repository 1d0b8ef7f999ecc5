//! Which pools of a listener are probed while it runs.

use crate::compile_routes::RoutePoolPlan;
use crate::compile_runtime::ManagedProxyConfig;
use crate::named_map::NamedMap;
use crate::text::{
    join, joined, text_before, text_order, text_order_is_irreflexive, text_order_is_transitive, texts,
    TextOrder,
};
use vstd::prelude::*;
use vstd::string::*;

verus! {

/// How often pools are probed, in milliseconds.
pub const ACTIVE_HEALTH_PROBE_INTERVAL_MS: u64 = 500;

/// How long a probe may take, in milliseconds.
pub const ACTIVE_HEALTH_PROBE_TIMEOUT_MS: u64 = 150;

/// The clusters of a route's pool.
pub open spec fn cluster_names(pool: RoutePoolPlan) -> Seq<Seq<char>> {
    Seq::new(pool.destinations@.len(), |i: int| pool.destinations@[i].cluster@)
}

/// The clusters of a route's pool in one text. Pools with the same clusters are probed once.
pub open spec fn probe_scope(pool: RoutePoolPlan) -> Seq<char> {
    joined(cluster_names(pool), ","@)
}

/// The scopes of the first `n` pools, each with the route whose pool is probed for it: the first
/// in the order of the routes' names.
pub open spec fn probe_scopes(pools: Seq<RoutePoolPlan>, n: nat) -> Map<Seq<char>, Seq<char>>
    decreases n,
{
    if n == 0 {
        Map::empty()
    } else {
        let before = probe_scopes(pools, (n - 1) as nat);
        let scope = probe_scope(pools[n - 1]);
        let route = pools[n - 1].route@;
        if before.contains_key(scope) && !text_before(route, before[scope]) {
            before
        } else {
            before.insert(scope, route)
        }
    }
}

/// The pools of a listener that are probed: none over HTTP/3.
pub open spec fn probed_pools(proxy: ManagedProxyConfig) -> Seq<RoutePoolPlan> {
    match proxy {
        ManagedProxyConfig::Http1(plan) => plan.backends.route_pools@,
        ManagedProxyConfig::Http2(plan) => plan.backends.route_pools@,
        ManagedProxyConfig::Https { plan, .. } => plan.backends.route_pools@,
        ManagedProxyConfig::Http3 { .. } => Seq::empty(),
    }
}

fn scope_of(pool: &RoutePoolPlan) -> (r: String)
    ensures
        r@ == probe_scope(*pool),
{
    let mut names: Vec<String> = Vec::new();
    let mut i: usize = 0;
    while i < pool.destinations.len()
        invariant
            i <= pool.destinations@.len(),
            names@.len() == i,
            forall|j: int|
                0 <= j < i ==> (#[trigger] names@[j])@ == pool.destinations@[j].cluster@,
        decreases pool.destinations@.len() - i,
    {
        names.push(pool.destinations[i].cluster.clone());
        i = i + 1;
    }
    proof {
        assert(texts(names@) =~= cluster_names(*pool));
    }
    join(&names, ",")
}

fn collect_scopes(pools: &Vec<RoutePoolPlan>) -> (r: NamedMap<String>)
    ensures
        r.deep_view() == probe_scopes(pools@, pools@.len()),
{
    let mut out: NamedMap<String> = NamedMap::new();
    let mut i: usize = 0;
    proof {
        assert(out.deep_view() =~= Map::<Seq<char>, Seq<char>>::empty());
    }
    while i < pools.len()
        invariant
            i <= pools@.len(),
            out.deep_view() == probe_scopes(pools@, i as nat),
        decreases pools@.len() - i,
    {
        let scope = scope_of(&pools[i]);
        let ghost before = out.deep_view();
        let taken = match out.get(scope.as_str()) {
            Some(route) => {
                proof {
                    assert(before.contains_key(scope@) && before[scope@] == route@);
                    let own = pools@[i as int].route@;
                    text_order_is_irreflexive(own);
                    if text_before(own, route@) && text_before(route@, own) {
                        text_order_is_transitive(own, route@, own);
                    }
                }
                match text_order(pools[i].route.as_str(), route.as_str()) {
                    TextOrder::Before => false,
                    _ => true,
                }
            },
            None => {
                proof {
                    assert(!before.contains_key(scope@));
                }
                false
            },
        };
        if !taken {
            let route = pools[i].route.clone();
            let ghost name = scope@;
            out.insert(scope, route);
            proof {
                assert(out.deep_view() =~= before.insert(name, route@));
            }
        }
        i = i + 1;
    }
    out
}

/// The scopes that are probed, each with the route whose pool is probed for it.
pub fn collect_active_probe_pools(proxy: &ManagedProxyConfig) -> (r: NamedMap<String>)
    ensures
        r.deep_view() == probe_scopes(probed_pools(*proxy), probed_pools(*proxy).len()),
{
    match proxy {
        ManagedProxyConfig::Http1(plan) => collect_scopes(&plan.backends.route_pools),
        ManagedProxyConfig::Http2(plan) => collect_scopes(&plan.backends.route_pools),
        ManagedProxyConfig::Https { plan, .. } => collect_scopes(&plan.backends.route_pools),
        ManagedProxyConfig::Http3 { .. } => {
            let out: NamedMap<String> = NamedMap::new();
            proof {
                assert(out.deep_view() =~= Map::<Seq<char>, Seq<char>>::empty());
            }
            out
        },
    }
}

/// The clusters of every pool are probed.
pub proof fn every_pool_is_probed(pools: Seq<RoutePoolPlan>, n: nat, i: int)
    requires
        0 <= i < n <= pools.len(),
    ensures
        probe_scopes(pools, n).contains_key(probe_scope(pools[i])),
    decreases n,
{
    if i < n - 1 {
        every_pool_is_probed(pools, (n - 1) as nat, i);
    }
}

/// What a probe tells of an endpoint.
#[derive(Debug, Clone, Copy, PartialEq, Eq, Structural)]
pub enum ProbeVerdict {
    Success,
    Failure,
}

/// How a probe ended.
#[derive(Debug, Clone, Copy, PartialEq, Eq, Structural)]
pub enum ProbeResult {
    Connected,
    Refused,
    TimedOut,
}

/// What a probe tells: only a connection that was made in time is a success.
pub fn judge_probe(result: ProbeResult) -> (r: ProbeVerdict)
    ensures
        r is Success <==> result is Connected,
{
    match result {
        ProbeResult::Connected => ProbeVerdict::Success,
        ProbeResult::Refused => ProbeVerdict::Failure,
        ProbeResult::TimedOut => ProbeVerdict::Failure,
    }
}

} // verus!
