//! The response caches of listeners, and the administration requests that empty them.

use crate::compile_policies::{listener_unknown_policy, listener_unknown_policy_error};
use crate::config::{
    agrees, find_policy, find_route, policy_named, route_named, HttpCachePolicyConfig,
    ListenerResourceConfig, WorkspaceConfig,
};
use crate::error::ServeError;
use crate::text::{str_eq, text};
use vstd::prelude::*;
use vstd::string::*;

verus! {

impl DeepView for HttpCachePolicyConfig {
    type V = HttpCachePolicyConfig;

    open spec fn deep_view(&self) -> HttpCachePolicyConfig {
        *self
    }
}

/// A copy of a cache policy.
pub fn copy_cache_policy(policy: &HttpCachePolicyConfig) -> (r: HttpCachePolicyConfig)
    ensures
        r == *policy,
{
    HttpCachePolicyConfig {
        purge_enabled: policy.purge_enabled,
        max_entries: policy.max_entries,
        max_bytes: policy.max_bytes,
        max_object_bytes: policy.max_object_bytes,
        rules: policy.rules.clone(),
    }
}

/// The cache policies that the first `n` routes of a listener refer to, each once.
pub open spec fn route_cache_names(
    config: WorkspaceConfig,
    listener: ListenerResourceConfig,
    n: nat,
) -> Seq<Seq<char>>
    decreases n,
{
    if n == 0 {
        Seq::empty()
    } else {
        let before = route_cache_names(config, listener, (n - 1) as nat);
        match route_named(config.routes@, listener.routes@[n - 1]@) {
            Some(route) => match route.policies.cache_policy {
                Some(name) => if before.contains(name@) {
                    before
                } else {
                    before.push(name@)
                },
                None => before,
            },
            None => before,
        }
    }
}

/// The cache policy with a name.
pub open spec fn cache_policy_named(
    config: WorkspaceConfig,
    listener: ListenerResourceConfig,
    name: Seq<char>,
) -> Result<Option<(Seq<char>, HttpCachePolicyConfig)>, Seq<char>> {
    match policy_named(config.policies.http_caches@, name) {
        Some(policy) => Ok(Some((name, policy))),
        None => Err(listener_unknown_policy(listener, "http cache"@, name)),
    }
}

/// The cache policy of a listener: its own, or else the one that its routes agree on.
pub open spec fn listener_cache_policy(
    config: WorkspaceConfig,
    listener: ListenerResourceConfig,
) -> Result<Option<(Seq<char>, HttpCachePolicyConfig)>, Seq<char>> {
    match listener.policies.cache_policy {
        Some(name) => cache_policy_named(config, listener, name@),
        None => {
            let names = route_cache_names(config, listener, listener.routes@.len());
            if names.len() == 0 {
                Ok(None)
            } else if names.len() > 1 {
                Err(
                    "listener "@ + listener.name@
                        + " references multiple route-level http cache policies, which serve mode does not support on a single listener"@,
                )
            } else {
                cache_policy_named(config, listener, names[0])
            }
        },
    }
}

fn find_cache_policy(config: &WorkspaceConfig, listener: &ListenerResourceConfig, name: &str) -> (r:
    Result<Option<(String, HttpCachePolicyConfig)>, ServeError>)
    ensures
        agrees(r, cache_policy_named(*config, *listener, name@)),
{
    match find_policy(&config.policies.http_caches, name) {
        Some(policy) => Ok(Some((text(name), copy_cache_policy(policy)))),
        None => Err(listener_unknown_policy_error(listener, "http cache", name)),
    }
}

fn holds_name(names: &Vec<String>, name: &str) -> (r: bool)
    ensures
        r == names.deep_view().contains(name@),
{
    let ghost all = names.deep_view();
    let mut i: usize = 0;
    while i < names.len()
        invariant
            i <= names@.len(),
            all == names.deep_view(),
            forall|j: int| 0 <= j < i ==> #[trigger] all[j] != name@,
        decreases names@.len() - i,
    {
        proof {
            assert(all[i as int] == names@[i as int]@);
        }
        if str_eq(names[i].as_str(), name) {
            return true;
        }
        i = i + 1;
    }
    false
}

/// Resolves the cache policy of a listener.
pub fn resolve_listener_http_cache_policy(
    config: &WorkspaceConfig,
    listener: &ListenerResourceConfig,
) -> (r: Result<Option<(String, HttpCachePolicyConfig)>, ServeError>)
    ensures
        agrees(r, listener_cache_policy(*config, *listener)),
{
    match &listener.policies.cache_policy {
        Some(name) => {
            return find_cache_policy(config, listener, name.as_str());
        },
        None => {},
    }
    let mut names: Vec<String> = Vec::new();
    let mut i: usize = 0;
    proof {
        assert(names.deep_view() =~= Seq::<Seq<char>>::empty());
    }
    while i < listener.routes.len()
        invariant
            i <= listener.routes@.len(),
            names.deep_view() == route_cache_names(*config, *listener, i as nat),
        decreases listener.routes@.len() - i,
    {
        match find_route(&config.routes, listener.routes[i].as_str()) {
            Some(route) => match &route.policies.cache_policy {
                Some(name) => {
                    if !holds_name(&names, name.as_str()) {
                        let ghost before = names.deep_view();
                        names.push(name.clone());
                        proof {
                            assert(names.deep_view() =~= before.push(name@));
                        }
                    }
                },
                None => {},
            },
            None => {},
        }
        i = i + 1;
    }
    if names.len() == 0 {
        return Ok(None);
    }
    if names.len() > 1 {
        let mut message = text("listener ");
        message.append(listener.name.as_str());
        message.append(
            " references multiple route-level http cache policies, which serve mode does not support on a single listener",
        );
        return Err(ServeError { message });
    }
    proof {
        assert(names.deep_view()[0] == names@[0]@);
    }
    find_cache_policy(config, listener, names[0].as_str())
}

/// The limits of a response cache.
#[derive(Debug, Clone, Copy, PartialEq, Eq, Structural)]
pub struct HttpCacheStoreConfig {
    pub max_entries: usize,
    pub max_bytes: usize,
    pub max_object_bytes: usize,
}

/// The limits of a cache with a policy. They must fit the machine's sizes.
pub fn http_cache_store_config(policy: &HttpCachePolicyConfig) -> (r: Result<
    HttpCacheStoreConfig,
    ServeError,
>)
    ensures
        match r {
            Ok(limits) => {
                &&& policy.max_bytes <= usize::MAX && policy.max_object_bytes <= usize::MAX
                &&& limits.max_entries == policy.max_entries
                &&& limits.max_bytes == policy.max_bytes
                &&& limits.max_object_bytes == policy.max_object_bytes
            },
            Err(e) => {
                &&& policy.max_bytes > usize::MAX || policy.max_object_bytes > usize::MAX
                &&& e.message@ == "out of range integral type conversion attempted"@
            },
        },
{
    if policy.max_bytes > usize::MAX as u64 || policy.max_object_bytes > usize::MAX as u64 {
        return Err(ServeError { message: text("out of range integral type conversion attempted") });
    }
    Ok(
        HttpCacheStoreConfig {
            max_entries: policy.max_entries,
            max_bytes: policy.max_bytes as usize,
            max_object_bytes: policy.max_object_bytes as usize,
        },
    )
}

/// What a purge looked for.
#[derive(Debug, Clone, Copy, PartialEq, Eq, Structural)]
pub enum HttpCachePurgeActionKind {
    ExactKey,
    PathPrefix,
}

/// What a purge came to.
#[derive(Debug, Clone, Copy, PartialEq, Eq, Structural)]
pub enum HttpCachePurgeResultKind {
    Purged,
    NoMatch,
    Rejected,
}

/// What a purge looked for, in words.
pub fn purge_action_name(action: HttpCachePurgeActionKind) -> (r: &'static str)
    ensures
        r@ == (match action {
            HttpCachePurgeActionKind::ExactKey => "exact_key"@,
            HttpCachePurgeActionKind::PathPrefix => "path_prefix"@,
        }),
{
    match action {
        HttpCachePurgeActionKind::ExactKey => "exact_key",
        HttpCachePurgeActionKind::PathPrefix => "path_prefix",
    }
}

/// What a purge came to, in words.
pub fn purge_result_name(result: HttpCachePurgeResultKind) -> (r: &'static str)
    ensures
        r@ == (match result {
            HttpCachePurgeResultKind::Purged => "purged"@,
            HttpCachePurgeResultKind::NoMatch => "no_match"@,
            HttpCachePurgeResultKind::Rejected => "rejected"@,
        }),
{
    match result {
        HttpCachePurgeResultKind::Purged => "purged",
        HttpCachePurgeResultKind::NoMatch => "no_match",
        HttpCachePurgeResultKind::Rejected => "rejected",
    }
}

/// What becomes of an invalidation that a peer sent.
#[derive(Debug, Clone, Copy, PartialEq, Eq, Structural)]
pub enum HttpCacheInvalidationApplyResult {
    Applied { purged_entries: usize },
    Duplicate,
}

/// The entries that an invalidation removed: none if it had come before.
pub fn invalidated_entries(result: HttpCacheInvalidationApplyResult) -> (r: usize)
    ensures
        r == (match result {
            HttpCacheInvalidationApplyResult::Applied { purged_entries } => purged_entries,
            HttpCacheInvalidationApplyResult::Duplicate => 0usize,
        }),
{
    match result {
        HttpCacheInvalidationApplyResult::Applied { purged_entries } => purged_entries,
        HttpCacheInvalidationApplyResult::Duplicate => 0,
    }
}

/// The failure of a request for a cache that is not there.
pub fn unknown_cache_scope(scope: &str) -> (r: String)
    ensures
        r@ == "unknown cache scope "@ + scope@,
{
    let mut out = text("unknown cache scope ");
    out.append(scope);
    out
}

} // verus!
