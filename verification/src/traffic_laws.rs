//! What holds of all requests that are handed on, of all probes of backends, and of what is told
//! before a configuration is applied.

use crate::active_health::{cluster_names, probe_scope, probe_scopes, probed_pools};
use crate::admin_audit::SnapshotMetadata;
use crate::admin_policy::CompiledAdminAuthPolicy;
use crate::compile_routes::RoutePoolPlan;
use crate::compile_runtime::{CompiledServeListener, ManagedProxyConfig};
use crate::config_preview::{
    change_words, diff_warnings, safety_warnings, ConfigValidationPreview, SnapshotDiff,
    SnapshotResourceChange,
};
use crate::http3::{
    bridged_headers, http3_report, readable_headers, status_class, target_or_root, visible_value,
    without_length, Http3RequestEnd, RawHeader,
};
use crate::listener_lifecycle::CurrentListenerIdentity;
use crate::named_map::{name_order, ordered_names};
use crate::reload_laws::{is_as_asked, plans_name_what_is_replaced};
use crate::secrets::{policy_owners, secret_material, AdminSecretHealthStatus, SecretReadings};
use crate::supervisor::{blocked_names, supported_names};
use crate::text::{
    decimal, lowered, text_before, text_order_is_irreflexive, text_order_is_transitive,
};
use vstd::prelude::*;
use vstd::string::*;

verus! {

/// Whether the bytes of a header's value are all visible characters, spaces or tabs.
pub open spec fn can_be_read(header: RawHeader) -> bool {
    forall|i: int|
        0 <= i < header.value@.len() ==> {
            let b = #[trigger] header.value@[i];
            32 <= b <= 126 || b == 9
        }
}

/// How many of the first `n` header fields can be read.
pub open spec fn readable(headers: Seq<RawHeader>, n: nat) -> nat
    decreases n,
{
    if n == 0 {
        0
    } else {
        readable(headers, (n - 1) as nat) + if can_be_read(headers[n - 1]) {
            1nat
        } else {
            0nat
        }
    }
}

/// Every header field that can be read is handed on, under its name in small letters and with its
/// value byte by byte, in the order of the fields; no other is.
#[verifier::rlimit(40)]
pub proof fn readable_headers_are_handed_on(headers: Seq<RawHeader>, n: nat)
    requires
        n <= headers.len(),
    ensures
        readable_headers(headers, n).len() == readable(headers, n),
        forall|i: int|
            0 <= i < n && can_be_read(#[trigger] headers[i]) ==> {
                let handed = readable_headers(headers, n)[readable(headers, i as nat) as int];
                &&& readable(headers, i as nat) < readable(headers, n)
                &&& handed.0 == lowered(headers[i].name@)
                &&& handed.1.len() == headers[i].value@.len()
                &&& forall|k: int|
                    0 <= k < handed.1.len() ==> #[trigger] handed.1[k]
                        == headers[i].value@[k] as char
            },
    decreases n,
{
    if n > 0 {
        readable_headers_are_handed_on(headers, (n - 1) as nat);
        let bytes = headers[n - 1].value@;
        assert(visible_value(bytes) is Some <==> can_be_read(headers[n - 1])) by {
            if can_be_read(headers[n - 1]) {
                assert forall|i: int| 0 <= i < bytes.len() implies crate::http3::is_visible(
                    #[trigger] bytes[i],
                ) by {}
            }
            if visible_value(bytes) is Some {
                assert forall|i: int| 0 <= i < bytes.len() implies {
                    let b = #[trigger] bytes[i];
                    32 <= b <= 126 || b == 9
                } by {
                    assert(crate::http3::is_visible(bytes[i]));
                }
            }
        }
    }
}

/// How many of the first `n` header fields say nothing of the length of the body.
pub open spec fn unmeasured(headers: Seq<(Seq<char>, Seq<char>)>, n: nat) -> nat
    decreases n,
{
    if n == 0 {
        0
    } else {
        unmeasured(headers, (n - 1) as nat) + if lowered(headers[n - 1].0)
            != "content-length"@ {
            1nat
        } else {
            0nat
        }
    }
}

proof fn lemma_unmeasured(headers: Seq<(Seq<char>, Seq<char>)>, n: nat)
    requires
        n <= headers.len(),
    ensures
        without_length(headers, n).len() == unmeasured(headers, n),
        forall|i: int|
            0 <= i < n && lowered((#[trigger] headers[i]).0) != "content-length"@ ==> unmeasured(
                headers,
                i as nat,
            ) < unmeasured(headers, n) && without_length(headers, n)[unmeasured(
                headers,
                i as nat,
            ) as int] == headers[i],
    decreases n,
{
    if n > 0 {
        lemma_unmeasured(headers, (n - 1) as nat);
    }
}

/// A request without a body keeps its header fields as they are. One with a body keeps, in their
/// order, those that say nothing of its length, and states its length behind them.
pub proof fn headers_are_kept_but_for_the_length(
    headers: Seq<(Seq<char>, Seq<char>)>,
    body_length: nat,
)
    ensures
        ({
            let handed = bridged_headers(headers, body_length);
            &&& body_length == 0 ==> handed == headers
            &&& body_length > 0 ==> {
                &&& handed.len() == unmeasured(headers, headers.len()) + 1
                &&& handed.last() == ("content-length"@, decimal(body_length))
                &&& forall|i: int|
                    0 <= i < headers.len() && lowered((#[trigger] headers[i]).0)
                        != "content-length"@ ==> unmeasured(headers, i as nat) < handed.len() - 1
                        && handed[unmeasured(headers, i as nat) as int] == headers[i]
            }
        }),
{
    lemma_unmeasured(headers, headers.len());
}

/// The target of a request is what it names, and the root where it names none.
pub proof fn unnamed_targets_are_the_root(target: Seq<char>)
    ensures
        target_or_root(Some(target)) == target,
        target_or_root(None) == "/"@,
{
}

/// A response is reported by the hundreds of its status, and a request that was not served by where
/// it failed.
pub proof fn responses_are_reported_by_their_hundreds(status: u16, end: Http3RequestEnd)
    ensures
        status_class(status) == (if status / 100 == 2 {
            "2xx"@
        } else if status / 100 == 3 {
            "3xx"@
        } else if status / 100 == 4 {
            "4xx"@
        } else if status / 100 == 5 {
            "5xx"@
        } else {
            "other"@
        }),
        http3_report(Http3RequestEnd::Served { status }) == ("served"@, status_class(status)),
        http3_report(end).0 == "served"@ <==> end is Served,
        !(end is Served) ==> http3_report(end).0 == "failed"@,
{
    reveal_strlit("served");
    reveal_strlit("failed");
    assert("served"@[0] == 's' && "failed"@[0] == 'f');
}

/// A scope is probed through the pool of a route that has its clusters, and of all these routes
/// through the one whose name comes first.
#[verifier::rlimit(40)]
pub proof fn pools_are_probed_through_the_first_route(
    pools: Seq<RoutePoolPlan>,
    n: nat,
    scope: Seq<char>,
)
    requires
        n <= pools.len(),
    ensures
        ({
            let probed = probe_scopes(pools, n);
            &&& probed.contains_key(scope) <==> exists|i: int|
                0 <= i < n && probe_scope(#[trigger] pools[i]) == scope
            &&& probed.contains_key(scope) ==> {
                &&& exists|i: int|
                    0 <= i < n && probe_scope(#[trigger] pools[i]) == scope && pools[i].route@
                        == probed[scope]
                &&& forall|i: int|
                    0 <= i < n && probe_scope(#[trigger] pools[i]) == scope ==> !text_before(
                        pools[i].route@,
                        probed[scope],
                    )
            }
        }),
    decreases n,
{
    if n > 0 {
        pools_are_probed_through_the_first_route(pools, (n - 1) as nat, scope);
        let before = probe_scopes(pools, (n - 1) as nat);
        let probed = probe_scopes(pools, n);
        let own = pools[n - 1].route@;
        if probe_scope(pools[n - 1]) == scope {
            text_order_is_irreflexive(own);
            if before.contains_key(scope) && text_before(own, before[scope]) {
                assert forall|i: int|
                    0 <= i < n && probe_scope(#[trigger] pools[i]) == scope implies !text_before(
                    pools[i].route@,
                    probed[scope],
                ) by {
                    if i < n - 1 && text_before(pools[i].route@, own) {
                        text_order_is_transitive(pools[i].route@, own, before[scope]);
                    }
                }
            }
        }
        if probed.contains_key(scope) {
            if probe_scope(pools[n - 1]) == scope && probed[scope] == own {
                assert(pools[n - 1].route@ == probed[scope]);
            } else {
                let i = choose|i: int|
                    0 <= i < n - 1 && probe_scope(#[trigger] pools[i]) == scope && pools[i].route@
                        == before[scope];
                assert(pools[i].route@ == probed[scope]);
            }
        }
    }
}

/// The pools of a listener are probed but over HTTP/3, and the clusters of a pool are those of its
/// destinations, in their order.
pub proof fn pools_are_probed_but_over_http3(proxy: ManagedProxyConfig, pool: RoutePoolPlan)
    ensures
        proxy is Http3 ==> probed_pools(proxy).len() == 0,
        proxy matches ManagedProxyConfig::Http1(plan) ==> probed_pools(proxy)
            == plan.backends.route_pools@,
        proxy matches ManagedProxyConfig::Http2(plan) ==> probed_pools(proxy)
            == plan.backends.route_pools@,
        proxy matches ManagedProxyConfig::Https { plan, .. } ==> probed_pools(proxy)
            == plan.backends.route_pools@,
        cluster_names(pool).len() == pool.destinations@.len(),
        forall|i: int|
            0 <= i < pool.destinations@.len() ==> #[trigger] cluster_names(pool)[i]
                == pool.destinations@[i].cluster@,
{
}

/// Whether a warning with a code stands in a list.
pub open spec fn warns(warnings: Seq<(Seq<char>, Seq<char>)>, code: Seq<char>) -> bool {
    exists|i: int| 0 <= i < warnings.len() && (#[trigger] warnings[i]).0 == code
}

proof fn lemma_warning_codes()
    ensures
        "listener_topology_changed"@.len() == 25,
        "route_table_changed"@.len() == 19,
        "upstream_clusters_changed"@.len() == 25,
        "listener_topology_changed"@ != "upstream_clusters_changed"@,
        "security_posture_changed"@.len() == 24,
        "bootstrap_apply"@.len() == 15,
        "listener_replacement_planned"@.len() == 28,
        "listener_rebind_required"@.len() == 24,
        "security_posture_changed"@ != "listener_rebind_required"@,
{
    reveal_strlit("listener_topology_changed");
    reveal_strlit("route_table_changed");
    reveal_strlit("upstream_clusters_changed");
    reveal_strlit("security_posture_changed");
    reveal_strlit("bootstrap_apply");
    reveal_strlit("listener_replacement_planned");
    reveal_strlit("listener_rebind_required");
    assert("listener_topology_changed"@[0] == 'l' && "upstream_clusters_changed"@[0] == 'u');
    assert("security_posture_changed"@[0] == 's' && "listener_rebind_required"@[0] == 'l');
}

#[verifier::rlimit(40)]
proof fn lemma_warns(
    one: Seq<(Seq<char>, Seq<char>)>,
    other: Seq<(Seq<char>, Seq<char>)>,
    code: Seq<char>,
)
    ensures
        warns(one + other, code) <==> warns(one, code) || warns(other, code),
{
    let all = one + other;
    if warns(one, code) {
        let i = choose|i: int| 0 <= i < one.len() && (#[trigger] one[i]).0 == code;
        assert(all[i] == one[i]);
    }
    if warns(other, code) {
        let i = choose|i: int| 0 <= i < other.len() && (#[trigger] other[i]).0 == code;
        assert(all[one.len() + i] == other[i]);
    }
    if warns(all, code) {
        let i = choose|i: int| 0 <= i < all.len() && (#[trigger] all[i]).0 == code;
        if i < one.len() {
            assert(one[i] == all[i]);
        } else {
            assert(other[i - one.len()] == all[i]);
        }
    }
}

proof fn lemma_warned(warning: Seq<(Seq<char>, Seq<char>)>, code: Seq<char>, given: bool)
    requires
        given ==> warning.len() == 1 && warning[0].0 == code,
        !given ==> warning.len() == 0,
    ensures
        forall|other: Seq<char>| #[trigger] warns(warning, other) <==> given && other == code,
{
    if given {
        assert(warning[0].0 == code);
    }
}

#[verifier::rlimit(40)]
proof fn lemma_diff_warnings(diff: Option<SnapshotDiff>, code: Seq<char>)
    ensures
        warns(diff_warnings(diff), code) <==> match diff {
            Some(diff) => {
                ||| code == "listener_topology_changed"@ && diff.listener_changes@.len() > 0
                ||| code == "route_table_changed"@ && diff.route_changes@.len() > 0
                ||| code == "upstream_clusters_changed"@ && diff.upstream_cluster_changes@.len() > 0
                ||| code == "security_posture_changed"@ && diff.security_changed
            },
            None => code == "bootstrap_apply"@,
        },
{
    match diff {
        Some(d) => {
            let a = crate::config_preview::change_warning(
                d.listener_changes@,
                "listener_topology_changed"@,
                "listener changes detected: "@,
            );
            let b = crate::config_preview::change_warning(
                d.route_changes@,
                "route_table_changed"@,
                "route matching changes detected: "@,
            );
            let c = crate::config_preview::change_warning(
                d.upstream_cluster_changes@,
                "upstream_clusters_changed"@,
                "upstream topology changes detected: "@,
            );
            let s = if d.security_changed {
                seq![
                    (
                        "security_posture_changed"@,
                        "workspace security settings changed; review trusted proxy, anonymous-source, and artifact verification posture before apply"@,
                    ),
                ]
            } else {
                Seq::empty()
            };
            lemma_warned(a, "listener_topology_changed"@, d.listener_changes@.len() > 0);
            lemma_warned(b, "route_table_changed"@, d.route_changes@.len() > 0);
            lemma_warned(c, "upstream_clusters_changed"@, d.upstream_cluster_changes@.len() > 0);
            lemma_warned(s, "security_posture_changed"@, d.security_changed);
            assert(diff_warnings(diff) == a + b + c + s);
            lemma_warns(a, b, code);
            lemma_warns(a + b, c, code);
            lemma_warns(a + b + c, s, code);
        },
        None => {
            lemma_warned(diff_warnings(diff), "bootstrap_apply"@, true);
        },
    }
}

/// What is warned of before a configuration is applied: each kind of change exactly where there is
/// one, that there is nothing to compare with where there is not, and a replacement and a blocked
/// change exactly where some listener runs, changes, and has room for its replacement or has none.
#[verifier::rlimit(40)]
pub proof fn warnings_are_given_where_they_hold(
    diff: Option<SnapshotDiff>,
    current: Map<Seq<char>, CurrentListenerIdentity>,
    candidates: Map<Seq<char>, CompiledServeListener>,
)
    requires
        ordered_names(candidates, name_order(candidates)),
    ensures
        ({
            let warnings = safety_warnings(diff, current, candidates);
            &&& warns(warnings, "bootstrap_apply"@) <==> diff is None
            &&& warns(warnings, "listener_topology_changed"@) <==> diff is Some
                && diff->0.listener_changes@.len() > 0
            &&& warns(warnings, "route_table_changed"@) <==> diff is Some
                && diff->0.route_changes@.len() > 0
            &&& warns(warnings, "upstream_clusters_changed"@) <==> diff is Some
                && diff->0.upstream_cluster_changes@.len() > 0
            &&& warns(warnings, "security_posture_changed"@) <==> diff is Some
                && diff->0.security_changed
            &&& warns(warnings, "listener_replacement_planned"@) <==> exists|name: Seq<char>|
                changes_with_room(current, candidates, name)
            &&& warns(warnings, "listener_rebind_required"@) <==> exists|name: Seq<char>|
                changes_without_room(current, candidates, name)
        }),
{
    lemma_warning_codes();
    let first = diff_warnings(diff);
    let planned = supported_names(current, candidates).map_values(
        |name: Seq<char>| crate::config_preview::replacement_warning(name),
    );
    let rebinds = blocked_names(current, candidates).map_values(
        |name: Seq<char>| crate::config_preview::rebind_warning(name),
    );
    assert forall|code: Seq<char>| #[trigger] warns(
        safety_warnings(diff, current, candidates),
        code,
    ) <==> warns(first, code) || (code == "listener_replacement_planned"@ && planned.len() > 0) || (
    code == "listener_rebind_required"@ && rebinds.len() > 0) by {
        lemma_warns(first, planned, code);
        lemma_warns(first + planned, rebinds, code);
        if planned.len() > 0 {
            assert(planned[0].0 == "listener_replacement_planned"@);
        }
        if rebinds.len() > 0 {
            assert(rebinds[0].0 == "listener_rebind_required"@);
        }
    }
    lemma_diff_warnings(diff, "bootstrap_apply"@);
    lemma_diff_warnings(diff, "listener_topology_changed"@);
    lemma_diff_warnings(diff, "route_table_changed"@);
    lemma_diff_warnings(diff, "upstream_clusters_changed"@);
    lemma_diff_warnings(diff, "security_posture_changed"@);
    lemma_diff_warnings(diff, "listener_replacement_planned"@);
    lemma_diff_warnings(diff, "listener_rebind_required"@);
    let supported = supported_names(current, candidates);
    let blocked = blocked_names(current, candidates);
    if planned.len() > 0 {
        assert(supported.contains(supported[0]));
        plans_name_what_is_replaced(current, candidates, supported[0]);
        assert(changes_with_room(current, candidates, supported[0]));
    }
    if exists|name: Seq<char>| changes_with_room(current, candidates, name) {
        let name = choose|name: Seq<char>| changes_with_room(current, candidates, name);
        plans_name_what_is_replaced(current, candidates, name);
    }
    if rebinds.len() > 0 {
        assert(blocked.contains(blocked[0]));
        plans_name_what_is_replaced(current, candidates, blocked[0]);
        assert(changes_without_room(current, candidates, blocked[0]));
    }
    if exists|name: Seq<char>| changes_without_room(current, candidates, name) {
        let name = choose|name: Seq<char>| changes_without_room(current, candidates, name);
        plans_name_what_is_replaced(current, candidates, name);
    }
}

/// Whether a listener runs, changes, and can be opened beside the running socket.
pub open spec fn changes_with_room(
    current: Map<Seq<char>, CurrentListenerIdentity>,
    candidates: Map<Seq<char>, CompiledServeListener>,
    name: Seq<char>,
) -> bool {
    &&& current.contains_key(name) && candidates.contains_key(name)
    &&& !is_as_asked(current[name], candidates[name])
    &&& current[name].local_addr != candidates[name].bind_address
}

/// Whether a listener runs, changes, and cannot be opened beside the running socket.
pub open spec fn changes_without_room(
    current: Map<Seq<char>, CurrentListenerIdentity>,
    candidates: Map<Seq<char>, CompiledServeListener>,
    name: Seq<char>,
) -> bool {
    &&& current.contains_key(name) && candidates.contains_key(name)
    &&& !is_as_asked(current[name], candidates[name])
    &&& current[name].local_addr == candidates[name].bind_address
}

/// A preview tells how a configuration would be applied: not at all where some listener has no room,
/// by overlap where some listener is replaced, and in place otherwise. It never puts at risk what is
/// served, and names the versions of both snapshots.
#[verifier::rlimit(40)]
pub proof fn previews_tell_how_a_configuration_is_applied(
    preview: ConfigValidationPreview,
    config_path: Seq<char>,
    diff: Option<SnapshotDiff>,
    active: Option<SnapshotMetadata>,
    candidate: SnapshotMetadata,
    current: Map<Seq<char>, CurrentListenerIdentity>,
    candidates: Map<Seq<char>, CompiledServeListener>,
)
    requires
        ordered_names(candidates, name_order(candidates)),
        preview.previews(config_path, diff, active, candidate, current, candidates),
    ensures
        ({
            let blocked = exists|name: Seq<char>| changes_without_room(current, candidates, name);
            let replaced = exists|name: Seq<char>| changes_with_room(current, candidates, name);
            &&& preview.apply_preview.strategy@ == (if blocked {
                "blocked_requires_rebind"@
            } else if replaced {
                "overlap_and_drain_replacement"@
            } else {
                "in_place_or_additive_swap"@
            })
            &&& preview.apply_preview.rollback_safe
            &&& preview.config_path@ == config_path
            &&& preview.compatibility.candidate_api_version == candidate.api_version
            &&& preview.compatibility.snapshot_format_version == candidate.format_version
            &&& active is Some ==> preview.compatibility.active_api_version
                == active->0.api_version
            &&& active is None ==> preview.compatibility.active_api_version is None
        }),
{
    let supported = supported_names(current, candidates);
    let blocked = blocked_names(current, candidates);
    if supported.len() > 0 {
        assert(supported.contains(supported[0]));
        plans_name_what_is_replaced(current, candidates, supported[0]);
        assert(changes_with_room(current, candidates, supported[0]));
    }
    if exists|name: Seq<char>| changes_with_room(current, candidates, name) {
        let name = choose|name: Seq<char>| changes_with_room(current, candidates, name);
        plans_name_what_is_replaced(current, candidates, name);
    }
    if blocked.len() > 0 {
        assert(blocked.contains(blocked[0]));
        plans_name_what_is_replaced(current, candidates, blocked[0]);
        assert(changes_without_room(current, candidates, blocked[0]));
    }
    if exists|name: Seq<char>| changes_without_room(current, candidates, name) {
        let name = choose|name: Seq<char>| changes_without_room(current, candidates, name);
        plans_name_what_is_replaced(current, candidates, name);
    }
}

/// Changes are told by their names and their kinds, in their order.
pub proof fn changes_are_told_by_name_and_kind(changes: Seq<SnapshotResourceChange>)
    ensures
        change_words(changes).len() == changes.len(),
        forall|i: int|
            0 <= i < changes.len() ==> #[trigger] change_words(changes)[i] == changes[i].name@ + ":"@
                + changes[i].kind@,
{
}

/// A secret is reported as healthy exactly where it is found, under the name of who needs it, and as
/// one that can change while the listener runs exactly where it comes from a file.
pub proof fn secrets_are_healthy_where_they_are_found(
    status: AdminSecretHealthStatus,
    owner: (Seq<char>, Seq<char>, Seq<char>),
    secret_env: Seq<char>,
    legacy: Seq<char>,
    readings: SecretReadings,
)
    requires
        status.reports(owner, secret_env, legacy, readings),
    ensures
        status.healthy <==> secret_material(secret_env, legacy, readings) is Ok,
        status.healthy ==> status.state@ == "loaded"@,
        status.listener@ == owner.0,
        status.actor@ == owner.1,
        status.auth_mode@ == owner.2,
        status.secret_env@ == secret_env,
        status.supports_rotation_without_reload <==> status.source_kind@ == "file"@,
{
    reveal_strlit("file");
    reveal_strlit("env");
    assert("file"@.len() == 4 && "env"@.len() == 3);
}

/// Secrets are needed by whom a policy names: by the bearers of the one secret, or by each operator,
/// in the order of their names.
pub proof fn secrets_are_needed_by_whom_a_policy_names(
    listener: Seq<char>,
    auth: CompiledAdminAuthPolicy,
)
    ensures
        ({
            let owners = policy_owners(listener, auth);
            &&& auth matches CompiledAdminAuthPolicy::Bearer { secret_env, .. } ==> owners.len() == 1
                && owners[0] == ((listener, "shared-bearer"@, "bearer"@), secret_env@)
            &&& auth matches CompiledAdminAuthPolicy::SignedHeaders { operators, .. } ==> {
                let order = name_order(operators@);
                &&& owners.len() == order.len()
                &&& forall|i: int|
                    0 <= i < owners.len() ==> #[trigger] owners[i] == (
                        (listener, order[i], "signed_headers"@),
                        operators@[order[i]].secret_env@,
                    )
            }
        }),
{
}

} // verus!
