//! What holds of all that is said of refusals, of changes and of warnings: it names what it is about.

use crate::admin_auth::{
    filled_header, header_named, judge, request_signature, AuthInput, FailureView,
};
use crate::admin_policy::{AdminPermission, CompiledAdminPolicy};
use crate::compile_runtime::CompiledServeListener;
use crate::config_preview::{
    apply_strategy, change_summary, diff_warnings, rebind_warning, replacement_warning,
    safety_warnings, SnapshotDiff, SnapshotResourceChange,
};
use crate::listener_lifecycle::CurrentListenerIdentity;
use crate::reload_plan::{ReloadApplyOutcome, ReloadAuditPlan, WarmRestartApplyOutcome};
use crate::report_laws::{lemma_told, lemma_told_within, tells};
use crate::secrets::secret_material;
use crate::supervisor::{blocked_names, supported_names};
use crate::text::{decimal, joined, unsigned};
use vstd::prelude::*;
use vstd::string::*;

verus! {

/// The word for a permission.
pub open spec fn permission_word(permission: AdminPermission) -> Seq<char> {
    match permission {
        AdminPermission::Read => "read"@,
        AdminPermission::Audit => "audit"@,
        AdminPermission::Write => "write"@,
    }
}

/// Whether a refusal says the given words to the client and keeps the given detail.
pub open spec fn says(
    judged: Result<crate::admin_auth::ContextView, FailureView>,
    body: Seq<char>,
    detail: Seq<char>,
) -> bool {
    judged matches Err(failure) && failure.body == body && failure.detail == detail
}

/// What a request with the shared secret is told that is refused, and what is kept of it.
pub proof fn refused_bearers_are_told_why(
    input: AuthInput,
    policy: CompiledAdminPolicy,
    nonces: Map<Seq<char>, u128>,
    now: u128,
)
    requires
        policy.auth is Bearer,
    ensures
        ({
            let token = input.head.authorization_bearer;
            let found = secret_material(
                (policy.auth->Bearer_secret_env)@,
                input.legacy_secret,
                input.readings,
            );
            let judged = judge(input, policy, nonces, now).0;
            let right = token is Some && found is Ok && token->0@ == (found->Ok_0).value;
            &&& token is None ==> says(
                judged,
                "admin authorization required\n"@,
                "missing bearer token"@,
            ) && judged->Err_0.actor == "anonymous"@
            &&& token is Some && found is Err ==> says(
                judged,
                "admin authorization unavailable\n"@,
                (found->Err_0).detail,
            ) && judged->Err_0.actor == "shared-bearer"@
            &&& token is Some && found is Ok && !right ==> says(
                judged,
                "admin authorization required\n"@,
                "bearer token mismatch"@,
            ) && judged->Err_0.actor == "shared-bearer"@
            &&& right && !(policy.auth->Bearer_permissions).has(input.permission) ==> says(
                judged,
                "admin action not permitted\n"@,
                "shared bearer lacks "@ + permission_word(input.permission) + " permission"@,
            ) && judged->Err_0.actor == "shared-bearer"@
        }),
{
}

/// What a signed request is told that is refused before its signature is looked at, and what is kept
/// of it.
pub proof fn refused_operators_are_told_why(
    input: AuthInput,
    policy: CompiledAdminPolicy,
    nonces: Map<Seq<char>, u128>,
    now: u128,
)
    requires
        policy.auth is SignedHeaders,
    ensures
        ({
            let judged = judge(input, policy, nonces, now).0;
            let operators = (policy.auth->operators)@;
            let actor = filled_header(input.head, "x-lb-admin-actor"@);
            let stamp = header_named(input.head.headers@, "x-lb-admin-timestamp"@);
            let known = actor is Some && operators.contains_key(actor->0);
            let permitted = known && operators[actor->0].permissions.has(input.permission);
            let time = unsigned(stamp->0, 10, u64::MAX as nat);
            let required = "signed admin authorization required\n"@;
            &&& actor is None ==> says(judged, required, "missing x-lb-admin-actor header"@)
                && judged->Err_0.actor == "anonymous"@
            &&& actor is Some && !known ==> says(judged, required, "unknown admin operator"@)
            &&& known && !permitted ==> says(
                judged,
                "admin action not permitted\n"@,
                "operator lacks "@ + permission_word(input.permission) + " permission"@,
            )
            &&& permitted && stamp is None ==> says(
                judged,
                required,
                "missing x-lb-admin-timestamp header"@,
            )
            &&& permitted && stamp is Some && time is None ==> says(
                judged,
                required,
                "invalid x-lb-admin-timestamp header"@,
            )
            &&& permitted && stamp is Some && time is Some && (time->0 > input.now_secs
                + policy.auth->max_clock_skew_secs || time->0 + policy.auth->max_clock_skew_secs
                < input.now_secs) ==> says(
                judged,
                "signed admin timestamp rejected\n"@,
                "signed admin timestamp exceeded clock skew allowance"@,
            )
        }),
{
}

/// A request of a known operator in time whose signature is not the one over its own contents is
/// refused, and is told what it lacks.
pub proof fn wrong_signatures_are_refused(
    input: AuthInput,
    policy: CompiledAdminPolicy,
    nonces: Map<Seq<char>, u128>,
    now: u128,
    actor: Seq<char>,
    timestamp: u64,
)
    requires
        policy.auth is SignedHeaders,
        filled_header(input.head, "x-lb-admin-actor"@) == Some(actor),
        (policy.auth->operators)@.contains_key(actor),
        (policy.auth->operators)@[actor].permissions.has(input.permission),
        header_named(input.head.headers@, "x-lb-admin-timestamp"@) matches Some(stamp) && unsigned(
            stamp,
            10,
            u64::MAX as nat,
        ) == Some(timestamp as nat),
        timestamp <= input.now_secs + policy.auth->max_clock_skew_secs,
        input.now_secs <= timestamp + policy.auth->max_clock_skew_secs,
    ensures
        ({
            let (judged, after) = judge(input, policy, nonces, now);
            let nonce = filled_header(input.head, "x-lb-admin-nonce"@);
            let signature = filled_header(input.head, "x-lb-admin-signature"@);
            let found = secret_material(
                (policy.auth->operators)@[actor].secret_env@,
                input.legacy_secret,
                input.readings,
            );
            let signed = nonce is Some && signature is Some;
            let required = "signed admin authorization required\n"@;
            &&& nonce is None ==> says(judged, required, "missing x-lb-admin-nonce header"@)
            &&& nonce is Some && signature is None ==> says(
                judged,
                required,
                "missing x-lb-admin-signature header"@,
            )
            &&& signed && found is Err ==> says(
                judged,
                "admin authorization unavailable\n"@,
                (found->Err_0).detail,
            )
            &&& signed && found is Ok && signature->0 != request_signature(
                (found->Ok_0).value,
                actor,
                input.head.method@,
                input.head.target@,
                timestamp,
                nonce->0,
                input.body,
            ) ==> says(judged, required, "signed admin signature mismatch"@) && judged->Err_0.status
                == "401 Unauthorized"@ && after == nonces
        }),
{
}

/// The names of a list with a comma and a space between each and the next.
pub open spec fn names(list: Vec<String>) -> Seq<char> {
    joined(Seq::new(list@.len(), |i: int| list@[i]@), ", "@)
}

proof fn lemma_names(list: Vec<String>)
    ensures
        crate::reload_plan::name_list(list@) == names(list),
{
    assert(crate::text::texts(list@) =~= Seq::new(list@.len(), |i: int| list@[i]@));
}

/// What is said as a reload starts names the listeners that block it, or else those that it replaces.
pub proof fn starting_reloads_name_their_listeners(plan: ReloadAuditPlan)
    ensures
        plan.blocked_replacements@.len() > 0 ==> plan.start_detail_text()
            == "reload started; candidate still contains disruptive listener changes for: "@ + names(
            plan.blocked_replacements,
        ),
        plan.blocked_replacements@.len() == 0 && plan.supported_replacements@.len() > 0 ==> tells(
            plan.start_detail_text(),
            "reload started; overlap-and-drain replacement planned for: "@,
            names(plan.supported_replacements),
        ),
        plan.blocked_replacements@.len() > 0 ==> plan.restart_start_detail_text()
            == "warm restart started; replacement cannot be staged safely for: "@ + names(
            plan.blocked_replacements,
        ),
        plan.blocked_replacements@.len() == 0 && plan.supported_replacements@.len() > 0
            ==> plan.restart_start_detail_text()
            == "warm restart started; overlap-and-drain restart planned for: "@ + names(
            plan.supported_replacements,
        ),
{
    lemma_told();
    lemma_names(plan.blocked_replacements);
    lemma_names(plan.supported_replacements);
}

/// What is said of a reload that was applied tells how many listeners were drained, and how many of
/// them in time; where some were not, it names them and tells how many.
pub proof fn applied_reloads_tell_their_drains(plan: ReloadAuditPlan, outcome: ReloadApplyOutcome)
    ensures
        ({
            let late = outcome.drain_timed_out_replacements@.len() > 0;
            let told = plan.success_detail_text(outcome);
            let plain = outcome.success_detail();
            &&& tells(plain, "configuration applied; drained_listeners="@, decimal(
                outcome.drained_listener_count as nat,
            ))
            &&& tells(
                plain,
                " completed_drains="@,
                decimal(outcome.completed_drain_count as nat),
            )
            &&& tells(told, " completed_drains="@, decimal(outcome.completed_drain_count as nat))
            &&& late ==> tells(
                told,
                "configuration applied; replacement stayed active but drain timeout expired for: "@,
                names(outcome.drain_timed_out_replacements),
            ) && tells(told, " drain_timeouts="@, decimal(outcome.drain_timeout_count as nat))
                && tells(plain, " drain_timeouts="@, decimal(outcome.drain_timeout_count as nat))
                && tells(
                plain,
                " (timed out replacements: "@,
                names(outcome.drain_timed_out_replacements),
            )
            &&& !late && plan.supported_replacements@.len() > 0 ==> tells(
                told,
                "configuration applied; overlap-and-drain replacement completed for: "@,
                names(plan.supported_replacements),
            )
        }),
{
    lemma_told();
    lemma_names(plan.supported_replacements);
    lemma_names(outcome.drain_timed_out_replacements);
}

/// What is said of a warm restart that was applied tells how many listeners were restarted, and how
/// many of them drained in time; where some were not, it names them and tells how many.
pub proof fn applied_restarts_tell_their_drains(
    plan: ReloadAuditPlan,
    outcome: WarmRestartApplyOutcome,
)
    ensures
        ({
            let late = outcome.drain_timeout_count > 0
                || outcome.drain_timed_out_replacements@.len() > 0;
            let told = plan.restart_success_detail_text(outcome);
            let restarted = decimal(outcome.restarted_listener_count as nat);
            &&& late ==> tells(
                told,
                "warm restart applied with drain timeout; restarted_listeners="@,
                restarted,
            ) && tells(told, " drain_timeouts="@, decimal(outcome.drain_timeout_count as nat))
                && tells(
                told,
                " timed_out_listeners="@,
                names(outcome.drain_timed_out_replacements),
            )
            &&& !late ==> tells(told, "warm restart applied; restarted_listeners="@, restarted)
            &&& tells(told, " completed_drains="@, decimal(outcome.completed_drain_count as nat))
        }),
{
    lemma_told();
    lemma_names(outcome.drain_timed_out_replacements);
}

/// What is said of a change that failed tells why, and names the listeners that block it, or else
/// those that were kept as they are.
pub proof fn failed_changes_tell_why(plan: ReloadAuditPlan, error: Seq<char>)
    ensures
        ({
            let blocked = plan.blocked_replacements@.len() > 0;
            let overlaps = plan.supported_replacements@.len() > 0;
            let reload = plan.failure_detail_text(error);
            let restart = plan.restart_failure_detail_text(error);
            &&& tells(reload, "reload failed: "@, error)
            &&& tells(restart, "warm restart failed: "@, error)
            &&& blocked ==> tells(
                reload,
                "; candidate still required disruptive retirement for: "@,
                names(plan.blocked_replacements),
            ) && tells(
                restart,
                "; replacement cannot be staged for: "@,
                names(plan.blocked_replacements),
            )
            &&& !blocked && overlaps ==> tells(
                reload,
                "; active listeners were preserved while replacement stayed rollback-safe for: "@,
                names(plan.supported_replacements),
            )
        }),
{
    lemma_told();
    lemma_names(plan.blocked_replacements);
    lemma_names(plan.supported_replacements);
}

/// Whether a warning stands in a list.
pub open spec fn is_given(
    warnings: Seq<(Seq<char>, Seq<char>)>,
    code: Seq<char>,
    message: Seq<char>,
) -> bool {
    exists|i: int| 0 <= i < warnings.len() && #[trigger] warnings[i] == (code, message)
}

/// The changes of a list, each with its name and its kind, in one line.
pub open spec fn listed(changes: Vec<SnapshotResourceChange>) -> Seq<char> {
    joined(
        Seq::new(changes@.len(), |i: int| changes@[i].name@ + ":"@ + changes@[i].kind@),
        ", "@,
    )
}

proof fn lemma_listed(changes: Vec<SnapshotResourceChange>)
    ensures
        change_summary(changes@) == listed(changes),
{
    assert(crate::config_preview::change_words(changes@) =~= Seq::new(
        changes@.len(),
        |i: int| changes@[i].name@ + ":"@ + changes@[i].kind@,
    ));
}

/// Warnings of changes list what changes, each kind in a warning of its own.
pub proof fn warnings_list_what_changes(
    diff: SnapshotDiff,
    current: Map<Seq<char>, CurrentListenerIdentity>,
    candidates: Map<Seq<char>, CompiledServeListener>,
)
    ensures
        ({
            let warnings = safety_warnings(Some(diff), current, candidates);
            &&& diff.listener_changes@.len() > 0 ==> is_given(
                warnings,
                "listener_topology_changed"@,
                "listener changes detected: "@ + listed(diff.listener_changes),
            )
            &&& diff.route_changes@.len() > 0 ==> is_given(
                warnings,
                "route_table_changed"@,
                "route matching changes detected: "@ + listed(diff.route_changes),
            )
            &&& diff.upstream_cluster_changes@.len() > 0 ==> is_given(
                warnings,
                "upstream_clusters_changed"@,
                "upstream topology changes detected: "@ + listed(diff.upstream_cluster_changes),
            )
        }),
{
    lemma_listed(diff.listener_changes);
    lemma_listed(diff.route_changes);
    lemma_listed(diff.upstream_cluster_changes);
    let all = safety_warnings(Some(diff), current, candidates);
    let first = diff_warnings(Some(diff));
    assert forall|i: int| 0 <= i < first.len() implies #[trigger] all[i] == first[i] by {}
    let a = if diff.listener_changes@.len() > 0 {
        1int
    } else {
        0int
    };
    let b = if diff.route_changes@.len() > 0 {
        1int
    } else {
        0int
    };
    if a == 1 {
        assert(first[0] == (
            "listener_topology_changed"@,
            "listener changes detected: "@ + listed(diff.listener_changes),
        ));
        assert(all[0] == first[0]);
    }
    if b == 1 {
        assert(first[a] == (
            "route_table_changed"@,
            "route matching changes detected: "@ + listed(diff.route_changes),
        ));
        assert(all[a] == first[a]);
    }
    if diff.upstream_cluster_changes@.len() > 0 {
        assert(first[a + b] == (
            "upstream_clusters_changed"@,
            "upstream topology changes detected: "@ + listed(diff.upstream_cluster_changes),
        ));
        assert(all[a + b] == first[a + b]);
    }
}

/// Every listener that is replaced and every one that blocks the change has a warning of its own that
/// names it.
pub proof fn warnings_name_their_listener(
    diff: Option<SnapshotDiff>,
    current: Map<Seq<char>, CurrentListenerIdentity>,
    candidates: Map<Seq<char>, CompiledServeListener>,
    name: Seq<char>,
)
    ensures
        ({
            let warnings = safety_warnings(diff, current, candidates);
            &&& supported_names(current, candidates).contains(name) ==> is_given(
                warnings,
                "listener_replacement_planned"@,
                "listener "@ + name
                    + " changes bind or protocol semantics and will be staged through replacement plus drain instead of an in-place swap"@,
            )
            &&& blocked_names(current, candidates).contains(name) ==> is_given(
                warnings,
                "listener_rebind_required"@,
                "listener "@ + name
                    + " cannot be staged safely on a new socket before retiring the current live listener, so reload will still be rejected"@,
            )
        }),
{
    let all = safety_warnings(diff, current, candidates);
    let first = diff_warnings(diff);
    let supported = supported_names(current, candidates);
    let blocked = blocked_names(current, candidates);
    if supported.contains(name) {
        let i = choose|i: int| 0 <= i < supported.len() && supported[i] == name;
        assert(all[first.len() + i] == replacement_warning(name));
    }
    if blocked.contains(name) {
        let i = choose|i: int| 0 <= i < blocked.len() && blocked[i] == name;
        assert(all[first.len() + supported.len() + i] == rebind_warning(name));
    }
}

/// The summary of a preview names the listeners that block the change, or else those that are
/// replaced.
pub proof fn summaries_name_their_listeners(supported: Seq<Seq<char>>, blocked: Seq<Seq<char>>)
    ensures
        blocked.len() > 0 ==> tells(
            apply_strategy(supported, blocked).1,
            "reload would still be blocked because these listeners cannot be overlap-replaced on their current live socket: "@,
            joined(blocked, ", "@),
        ),
        blocked.len() == 0 && supported.len() > 0 ==> tells(
            apply_strategy(supported, blocked).1,
            "replacement listeners can be started before retirement for: "@,
            joined(supported, ", "@),
        ),
{
    lemma_told();
    lemma_told_within();
}

} // verus!
