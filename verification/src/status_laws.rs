//! What holds of all reports of listeners: when they are ready and why not, how loaded they are, and
//! how their protection and their replacement stand.

use crate::compile_policies::CompiledListenerAbuseProtectionPolicy;
use crate::config::ListenerClassConfig;
use crate::listener_lifecycle::{
    ListenerLifecycleEntry, ListenerLifecycleModel, ListenerLifecycleState,
};
use crate::listener_status::{
    abuse_reasons, with_reason, AbuseRejectionCodes, ListenerAbuseProtectionSnapshot,
    ListenerAbuseProtectionStatus, ListenerReplacementStatus, ListenerStatus, ReloadHealthState,
};
use crate::overload::{
    abuse_rejection_body, abuse_rejection_reply, counted_snapshot, event_code, kind_word, state_at,
    state_name, state_word, ConnectionKind, OverloadEventKind, OverloadState,
};
use crate::readiness::{
    evaluated, in_scope, listener_reasons, some_public, state_reasons, with_abuse_reasons,
    with_listener_reasons, with_overload_reason, with_reasons, workspace_reasons,
    ListenerReadinessStatus, WorkspaceReadinessStatus,
};
use crate::text::{decimal, texts};
use vstd::prelude::*;
use vstd::string::*;
use vstd::utf8::encode_utf8;

verus! {

/// Whether a code stands in a list.
pub open spec fn gives(codes: Vec<String>, code: Seq<char>) -> bool {
    exists|i: int| 0 <= i < codes@.len() && (#[trigger] codes@[i])@ == code
}

proof fn lemma_gives(codes: Vec<String>, code: Seq<char>)
    ensures
        gives(codes, code) <==> texts(codes@).contains(code),
{
    let all = texts(codes@);
    if gives(codes, code) {
        let i = choose|i: int| 0 <= i < codes@.len() && (#[trigger] codes@[i])@ == code;
        assert(all[i] == code);
    }
    if all.contains(code) {
        let i = choose|i: int| 0 <= i < all.len() && all[i] == code;
        assert(codes@[i]@ == code);
    }
}

/// Whether the replacement of a listener failed.
pub open spec fn replacement_failed(listener: ListenerStatus) -> bool {
    listener.replacement.failed_start is Some || listener.replacement.state@
        == "failed_start_preserved"@
}

/// Whether a listener runs, is neither overloaded nor saturated, and was not left behind by a
/// replacement that failed.
pub open spec fn is_serving(listener: ListenerStatus) -> bool {
    &&& listener.state@ == "running"@
    &&& listener.overload_state@ != "shedding"@
    &&& listener.overload_state@ != "brownout"@
    &&& !replacement_failed(listener)
    &&& !gives(listener.abuse_protection.reason_codes, "tracked_source_capacity_saturated"@)
    &&& !gives(listener.abuse_protection.reason_codes, "handshake_guard_saturated"@)
}

#[verifier::rlimit(40)]
proof fn lemma_reason_words()
    ensures
        "running"@ != "draining"@,
        "shedding"@ != "brownout"@,
        "tracked_source_capacity_saturated"@ != "handshake_guard_saturated"@,
        "listener_draining"@.len() == 17,
        "listener_not_running"@.len() == 20,
        "listener_overload_shedding"@.len() == 26,
        "listener_overload_brownout"@.len() == 26,
        "listener_overload_shedding"@ != "listener_overload_brownout"@,
        "listener_replacement_failed"@.len() == 27,
        "listener_abuse_source_tracking_saturated"@.len() == 40,
        "listener_abuse_handshake_saturated"@.len() == 34,
        "reload_failed"@.len() == 13,
        "no_serving_listeners"@.len() == 20,
        "no_serving_listeners"@ != "listener_not_running"@,
{
    reveal_strlit("running");
    reveal_strlit("draining");
    reveal_strlit("shedding");
    reveal_strlit("brownout");
    reveal_strlit("tracked_source_capacity_saturated");
    reveal_strlit("handshake_guard_saturated");
    reveal_strlit("listener_draining");
    reveal_strlit("listener_not_running");
    reveal_strlit("listener_overload_shedding");
    reveal_strlit("listener_overload_brownout");
    reveal_strlit("listener_replacement_failed");
    reveal_strlit("listener_abuse_source_tracking_saturated");
    reveal_strlit("listener_abuse_handshake_saturated");
    reveal_strlit("reload_failed");
    reveal_strlit("no_serving_listeners");
    assert("running"@.len() == 7 && "draining"@.len() == 8);
    assert("shedding"@[0] == 's' && "brownout"@[0] == 'b');
    assert("tracked_source_capacity_saturated"@[0] == 't' && "handshake_guard_saturated"@[0] == 'h');
    assert("listener_overload_shedding"@[18] == 's' && "listener_overload_brownout"@[18] == 'b');
    assert("no_serving_listeners"@[0] == 'n' && "listener_not_running"@[0] == 'l');
}

#[verifier::rlimit(40)]
proof fn lemma_with_reason(reasons: Seq<Seq<char>>, reason: Seq<char>, code: Seq<char>)
    ensures
        with_reason(reasons, reason).contains(code) <==> reasons.contains(code) || code == reason,
{
    let after = with_reason(reasons, reason);
    if reasons.contains(code) {
        let i = choose|i: int| 0 <= i < reasons.len() && reasons[i] == code;
        assert(after[i] == code);
    }
    if code == reason && !reasons.contains(reason) {
        assert(after[reasons.len() as int] == code);
    }
    if after.contains(code) && !reasons.contains(code) {
        let i = choose|i: int| 0 <= i < after.len() && after[i] == code;
        if i < reasons.len() {
            assert(reasons[i] == code);
        }
    }
}

#[verifier::rlimit(40)]
proof fn lemma_abuse_reasons(
    reasons: Seq<Seq<char>>,
    codes: Seq<Seq<char>>,
    n: nat,
    code: Seq<char>,
)
    requires
        n <= codes.len(),
    ensures
        with_abuse_reasons(reasons, codes, n).contains(code) <==> reasons.contains(code) || (code
            == "listener_abuse_source_tracking_saturated"@ && codes.take(n as int).contains(
            "tracked_source_capacity_saturated"@,
        )) || (code == "listener_abuse_handshake_saturated"@ && codes.take(n as int).contains(
            "handshake_guard_saturated"@,
        )),
    decreases n,
{
    lemma_reason_words();
    if n > 0 {
        let before = with_abuse_reasons(reasons, codes, (n - 1) as nat);
        lemma_abuse_reasons(reasons, codes, (n - 1) as nat, code);
        lemma_with_reason(before, "listener_abuse_source_tracking_saturated"@, code);
        lemma_with_reason(before, "listener_abuse_handshake_saturated"@, code);
        let shorter = codes.take(n - 1);
        let longer = codes.take(n as int);
        assert(longer =~= shorter.push(codes[n - 1]));
        lemma_push(shorter, codes[n - 1], "tracked_source_capacity_saturated"@);
        lemma_push(shorter, codes[n - 1], "handshake_guard_saturated"@);
    } else {
        assert(codes.take(0).len() == 0);
    }
}

#[verifier::rlimit(40)]
proof fn lemma_push(list: Seq<Seq<char>>, last: Seq<char>, code: Seq<char>)
    ensures
        list.push(last).contains(code) <==> list.contains(code) || last == code,
{
    let longer = list.push(last);
    if list.contains(code) {
        let i = choose|i: int| 0 <= i < list.len() && list[i] == code;
        assert(longer[i] == code);
    }
    if last == code {
        assert(longer[list.len() as int] == code);
    }
    if longer.contains(code) && last != code {
        let i = choose|i: int| 0 <= i < longer.len() && longer[i] == code;
        assert(list[i] == code);
    }
}

/// Whether a code is a reason for which a listener is not ready.
pub open spec fn hinders(listener: ListenerStatus, code: Seq<char>) -> bool {
    ||| code == "listener_draining"@ && listener.state@ == "draining"@
    ||| code == "listener_not_running"@ && listener.state@ != "running"@ && listener.state@
        != "draining"@
    ||| code == "listener_overload_shedding"@ && listener.overload_state@ == "shedding"@
    ||| code == "listener_overload_brownout"@ && listener.overload_state@ == "brownout"@
    ||| code == "listener_replacement_failed"@ && replacement_failed(listener)
    ||| code == "listener_abuse_source_tracking_saturated"@ && gives(
        listener.abuse_protection.reason_codes,
        "tracked_source_capacity_saturated"@,
    )
    ||| code == "listener_abuse_handshake_saturated"@ && gives(
        listener.abuse_protection.reason_codes,
        "handshake_guard_saturated"@,
    )
}

#[verifier::rlimit(40)]
proof fn lemma_listener_reasons(listener: ListenerStatus, code: Seq<char>)
    ensures
        listener_reasons(listener).contains(code) <==> hinders(listener, code),
{
    lemma_reason_words();
    let none: Seq<Seq<char>> = Seq::empty();
    assert(!none.contains(code));
    lemma_with_reason(none, "listener_draining"@, code);
    lemma_with_reason(none, "listener_not_running"@, code);
    let state = state_reasons(listener.state@);
    lemma_with_reason(state, "listener_overload_shedding"@, code);
    lemma_with_reason(state, "listener_overload_brownout"@, code);
    let overload = with_overload_reason(state, listener.overload_state@);
    lemma_with_reason(overload, "listener_replacement_failed"@, code);
    let replacement = if replacement_failed(listener) {
        with_reason(overload, "listener_replacement_failed"@)
    } else {
        overload
    };
    let codes = texts(listener.abuse_protection.reason_codes@);
    lemma_abuse_reasons(replacement, codes, codes.len(), code);
    assert(codes.take(codes.len() as int) =~= codes);
    lemma_gives(listener.abuse_protection.reason_codes, "tracked_source_capacity_saturated"@);
    lemma_gives(listener.abuse_protection.reason_codes, "handshake_guard_saturated"@);
}

#[verifier::rlimit(40)]
proof fn lemma_listener_ready(listener: ListenerStatus)
    ensures
        listener_reasons(listener).len() == 0 <==> is_serving(listener),
{
    lemma_reason_words();
    let reasons = listener_reasons(listener);
    lemma_listener_reasons(listener, "listener_draining"@);
    lemma_listener_reasons(listener, "listener_not_running"@);
    lemma_listener_reasons(listener, "listener_overload_shedding"@);
    lemma_listener_reasons(listener, "listener_overload_brownout"@);
    lemma_listener_reasons(listener, "listener_replacement_failed"@);
    lemma_listener_reasons(listener, "listener_abuse_source_tracking_saturated"@);
    lemma_listener_reasons(listener, "listener_abuse_handshake_saturated"@);
    if reasons.len() > 0 {
        assert(reasons.contains(reasons[0]));
        lemma_listener_reasons(listener, reasons[0]);
    }
}

/// A listener is ready exactly where it serves, and each reason against it is given exactly where
/// it holds. It is reported under its own name, class, protocol and address.
pub proof fn listeners_are_ready_where_they_serve(
    status: ListenerReadinessStatus,
    listener: ListenerStatus,
)
    requires
        status.reduces(listener),
    ensures
        status.ready <==> is_serving(listener),
        status.status@ == (if is_serving(listener) {
            "ready"@
        } else {
            "not_ready"@
        }),
        forall|code: Seq<char>| #[trigger]
            gives(status.reason_codes, code) <==> hinders(listener, code),
        status.name == listener.name,
        status.class == listener.class,
        status.protocol == listener.protocol,
        status.configured_bind == listener.configured_bind,
{
    lemma_listener_ready(listener);
    assert forall|code: Seq<char>| #[trigger] gives(status.reason_codes, code) <==> hinders(
        listener,
        code,
    ) by {
        lemma_gives(status.reason_codes, code);
        lemma_listener_reasons(listener, code);
    }
}

/// Whether readiness depends on a listener: on every one where none is public, else on the public
/// ones.
pub open spec fn matters(listeners: Seq<ListenerStatus>, i: int) -> bool {
    &&& 0 <= i < listeners.len()
    &&& listeners[i].class == ListenerClassConfig::Public || forall|k: int|
        0 <= k < listeners.len() ==> (#[trigger] listeners[k]).class != ListenerClassConfig::Public
}

/// How many of the first `n` listeners readiness depends on.
pub open spec fn mattering(listeners: Seq<ListenerStatus>, n: nat) -> nat
    decreases n,
{
    if n == 0 {
        0
    } else {
        mattering(listeners, (n - 1) as nat) + if matters(listeners, n - 1) {
            1nat
        } else {
            0nat
        }
    }
}

spec fn kept(listeners: Seq<ListenerStatus>, public_only: bool, i: int) -> bool {
    !public_only || listeners[i].class is Public
}

spec fn kept_count(listeners: Seq<ListenerStatus>, public_only: bool, n: nat) -> nat
    decreases n,
{
    if n == 0 {
        0
    } else {
        kept_count(listeners, public_only, (n - 1) as nat) + if kept(
            listeners,
            public_only,
            n - 1,
        ) {
            1nat
        } else {
            0nat
        }
    }
}

proof fn lemma_kept_count(listeners: Seq<ListenerStatus>, public_only: bool, n: nat)
    requires
        n <= listeners.len(),
    ensures
        in_scope(listeners, public_only, n).len() == kept_count(listeners, public_only, n),
    decreases n,
{
    if n > 0 {
        lemma_kept_count(listeners, public_only, (n - 1) as nat);
    }
}

proof fn lemma_kept(listeners: Seq<ListenerStatus>, public_only: bool, n: nat, i: int)
    requires
        0 <= i < n <= listeners.len(),
        kept(listeners, public_only, i),
    ensures
        kept_count(listeners, public_only, i as nat) < in_scope(listeners, public_only, n).len(),
        in_scope(listeners, public_only, n)[kept_count(listeners, public_only, i as nat) as int]
            == listeners[i],
    decreases n,
{
    lemma_kept_count(listeners, public_only, (n - 1) as nat);
    if i < n - 1 {
        lemma_kept(listeners, public_only, (n - 1) as nat, i);
    }
}

proof fn lemma_kept_place(
    listeners: Seq<ListenerStatus>,
    public_only: bool,
    n: nat,
    k: int,
) -> (i: int)
    requires
        n <= listeners.len(),
        0 <= k < in_scope(listeners, public_only, n).len(),
    ensures
        0 <= i < n,
        kept(listeners, public_only, i),
        listeners[i] == in_scope(listeners, public_only, n)[k],
    decreases n,
{
    let before = in_scope(listeners, public_only, (n - 1) as nat);
    if k < before.len() {
        lemma_kept_place(listeners, public_only, (n - 1) as nat, k)
    } else {
        n - 1
    }
}

proof fn lemma_matters(listeners: Seq<ListenerStatus>, i: int)
    requires
        0 <= i < listeners.len(),
    ensures
        matters(listeners, i) <==> kept(listeners, some_public(listeners), i),
{
}

proof fn lemma_mattering(listeners: Seq<ListenerStatus>, n: nat)
    requires
        n <= listeners.len(),
    ensures
        mattering(listeners, n) == kept_count(listeners, some_public(listeners), n),
    decreases n,
{
    if n > 0 {
        lemma_mattering(listeners, (n - 1) as nat);
        lemma_matters(listeners, n - 1);
    }
}

#[verifier::rlimit(40)]
proof fn lemma_in_scope(listeners: Seq<ListenerStatus>)
    ensures
        evaluated(listeners).len() == mattering(listeners, listeners.len()),
        forall|i: int| #[trigger]
            matters(listeners, i) ==> mattering(listeners, i as nat) < evaluated(listeners).len()
                && evaluated(listeners)[mattering(listeners, i as nat) as int] == listeners[i],
{
    let public_only = some_public(listeners);
    lemma_kept_count(listeners, public_only, listeners.len());
    lemma_mattering(listeners, listeners.len());
    assert forall|i: int| #[trigger] matters(listeners, i) implies mattering(listeners, i as nat)
        < evaluated(listeners).len() && evaluated(listeners)[mattering(listeners, i as nat) as int]
        == listeners[i] by {
        lemma_matters(listeners, i);
        lemma_mattering(listeners, i as nat);
        lemma_kept(listeners, public_only, listeners.len(), i);
    }
}

proof fn lemma_more_reasons(
    reasons: Seq<Seq<char>>,
    others: Seq<Seq<char>>,
    n: nat,
    code: Seq<char>,
)
    requires
        n <= others.len(),
    ensures
        with_reasons(reasons, others, n).contains(code) <==> reasons.contains(code) || others.take(
            n as int,
        ).contains(code),
    decreases n,
{
    if n > 0 {
        lemma_more_reasons(reasons, others, (n - 1) as nat, code);
        lemma_with_reason(with_reasons(reasons, others, (n - 1) as nat), others[n - 1], code);
        assert(others.take(n as int) =~= others.take(n - 1).push(others[n - 1]));
        lemma_push(others.take(n - 1), others[n - 1], code);
    } else {
        assert(others.take(0).len() == 0);
    }
}

#[verifier::rlimit(40)]
proof fn lemma_all_reasons(
    reasons: Seq<Seq<char>>,
    listeners: Seq<ListenerStatus>,
    n: nat,
    code: Seq<char>,
)
    requires
        n <= listeners.len(),
    ensures
        with_listener_reasons(reasons, listeners, n).contains(code) <==> reasons.contains(code) || (
        exists|k: int| 0 <= k < n && hinders(#[trigger] listeners[k], code)),
    decreases n,
{
    if n > 0 {
        lemma_all_reasons(reasons, listeners, (n - 1) as nat, code);
        let own = listener_reasons(listeners[n - 1]);
        lemma_more_reasons(
            with_listener_reasons(reasons, listeners, (n - 1) as nat),
            own,
            own.len(),
            code,
        );
        assert(own.take(own.len() as int) =~= own);
        lemma_listener_reasons(listeners[n - 1], code);
    }
}

#[verifier::rlimit(40)]
proof fn lemma_workspace_reasons(
    listeners: Seq<ListenerStatus>,
    health: ReloadHealthState,
    code: Seq<char>,
)
    ensures
        workspace_reasons(listeners, health).contains(code) <==> {
            ||| code == "reload_failed"@ && health is Failed
            ||| code == "no_serving_listeners"@ && listeners.len() == 0
            ||| exists|i: int| #[trigger] matters(listeners, i) && hinders(listeners[i], code)
        },
{
    lemma_reason_words();
    lemma_scope_is_empty(listeners);
    let none: Seq<Seq<char>> = Seq::empty();
    assert(!none.contains(code));
    lemma_with_reason(none, "reload_failed"@, code);
    let reload = if health is Failed {
        with_reason(none, "reload_failed"@)
    } else {
        none
    };
    lemma_with_reason(reload, "no_serving_listeners"@, code);
    let scope = evaluated(listeners);
    let serving = if scope.len() == 0 {
        with_reason(reload, "no_serving_listeners"@)
    } else {
        reload
    };
    lemma_all_reasons(serving, scope, scope.len(), code);
    lemma_in_scope(listeners);
    if exists|k: int| 0 <= k < scope.len() && hinders(#[trigger] scope[k], code) {
        let k = choose|k: int| 0 <= k < scope.len() && hinders(#[trigger] scope[k], code);
        let i = lemma_kept_place(listeners, some_public(listeners), listeners.len(), k);
        lemma_matters(listeners, i);
        assert(matters(listeners, i) && hinders(listeners[i], code));
    }
    if exists|i: int| #[trigger] matters(listeners, i) && hinders(listeners[i], code) {
        let i = choose|i: int| #[trigger] matters(listeners, i) && hinders(listeners[i], code);
        assert(scope[mattering(listeners, i as nat) as int] == listeners[i]);
    }
}

#[verifier::rlimit(40)]
proof fn lemma_scope_is_empty(listeners: Seq<ListenerStatus>)
    ensures
        evaluated(listeners).len() == 0 <==> listeners.len() == 0,
{
    lemma_in_scope(listeners);
    if listeners.len() > 0 {
        if some_public(listeners) {
            let i = choose|i: int|
                0 <= i < listeners.len() && (#[trigger] listeners[i]).class is Public;
            assert(matters(listeners, i));
        } else {
            assert(matters(listeners, 0));
        }
    }
}

/// The listeners together are ready exactly where the latest reload did not fail, there is a
/// listener, and every listener on which readiness depends serves. Each reason against it is given
/// exactly where it holds.
#[verifier::rlimit(40)]
pub proof fn workspaces_are_ready_where_their_listeners_serve(
    status: WorkspaceReadinessStatus,
    listeners: Seq<ListenerStatus>,
    health: ReloadHealthState,
)
    requires
        status.evaluates(listeners, health),
    ensures
        status.ready <==> {
            &&& !(health is Failed)
            &&& listeners.len() > 0
            &&& forall|i: int| #[trigger] matters(listeners, i) ==> is_serving(listeners[i])
        },
        status.status@ == (if status.ready {
            "ready"@
        } else {
            "not_ready"@
        }),
        forall|code: Seq<char>| #[trigger]
            gives(status.reason_codes, code) <==> {
                ||| code == "reload_failed"@ && health is Failed
                ||| code == "no_serving_listeners"@ && listeners.len() == 0
                ||| exists|i: int| #[trigger] matters(listeners, i) && hinders(listeners[i], code)
            },
{
    assert forall|code: Seq<char>| #[trigger] gives(status.reason_codes, code) <==> {
        ||| code == "reload_failed"@ && health is Failed
        ||| code == "no_serving_listeners"@ && listeners.len() == 0
        ||| exists|i: int| #[trigger] matters(listeners, i) && hinders(listeners[i], code)
    } by {
        lemma_gives(status.reason_codes, code);
        lemma_workspace_reasons(listeners, health, code);
    }
    let reasons = workspace_reasons(listeners, health);
    lemma_workspace_reasons(listeners, health, "reload_failed"@);
    lemma_workspace_reasons(listeners, health, "no_serving_listeners"@);
    if reasons.len() > 0 {
        assert(reasons.contains(reasons[0]));
        lemma_workspace_reasons(listeners, health, reasons[0]);
        if exists|i: int| #[trigger] matters(listeners, i) && hinders(listeners[i], reasons[0]) {
            let i = choose|i: int|
                #[trigger] matters(listeners, i) && hinders(listeners[i], reasons[0]);
            lemma_listener_reasons(listeners[i], reasons[0]);
            lemma_listener_ready(listeners[i]);
        }
    } else {
        assert forall|i: int| #[trigger] matters(listeners, i) implies is_serving(listeners[i]) by {
            let own = listener_reasons(listeners[i]);
            lemma_listener_ready(listeners[i]);
            if own.len() > 0 {
                assert(own.contains(own[0]));
                lemma_listener_reasons(listeners[i], own[0]);
                lemma_workspace_reasons(listeners, health, own[0]);
            }
        }
    }
}

/// Every listener on which readiness depends is reported, in the order of the listeners, and no
/// other is.
pub proof fn listeners_that_matter_are_reported(
    status: WorkspaceReadinessStatus,
    listeners: Seq<ListenerStatus>,
    health: ReloadHealthState,
)
    requires
        status.evaluates(listeners, health),
    ensures
        status.listeners@.len() == mattering(listeners, listeners.len()),
        forall|i: int| #[trigger]
            matters(listeners, i) ==> mattering(listeners, i as nat) < status.listeners@.len()
                && status.listeners@[mattering(listeners, i as nat) as int].name
                == listeners[i].name && status.listeners@[mattering(
                listeners,
                i as nat,
            ) as int].ready == is_serving(listeners[i]),
{
    lemma_in_scope(listeners);
    assert forall|i: int| #[trigger] matters(listeners, i) implies mattering(listeners, i as nat)
        < status.listeners@.len() && status.listeners@[mattering(listeners, i as nat) as int].name
        == listeners[i].name && status.listeners@[mattering(listeners, i as nat) as int].ready
        == is_serving(listeners[i]) by {
        let k = mattering(listeners, i as nat) as int;
        assert(status.listeners@[k].reduces(evaluated(listeners)[k]));
        listeners_are_ready_where_they_serve(status.listeners@[k], listeners[i]);
    }
}

proof fn lemma_protection_words()
    ensures
        "tracked_source_capacity_saturated"@ != "handshake_guard_saturated"@,
        "disabled"@ != "constrained"@,
        "disabled"@ != "enforcing"@,
        "constrained"@ != "enforcing"@,
{
    lemma_reason_words();
    reveal_strlit("disabled");
    reveal_strlit("constrained");
    reveal_strlit("enforcing");
    assert("disabled"@.len() == 8 && "constrained"@.len() == 11 && "enforcing"@.len() == 9);
}

/// Hostile-edge protection is constrained exactly where a limit of its policy is reached, is
/// reported as disabled exactly where there is no policy, and gives each reason exactly where
/// something was counted or reached for it.
#[verifier::rlimit(40)]
pub proof fn protection_is_reported_as_it_stands(
    status: ListenerAbuseProtectionStatus,
    policy: Option<CompiledListenerAbuseProtectionPolicy>,
    snapshot: ListenerAbuseProtectionSnapshot,
    codes: AbuseRejectionCodes,
)
    requires
        status.reports(policy, snapshot, codes),
        codes.source_quota_exceeded@ != "tracked_source_capacity_saturated"@,
        codes.source_quota_exceeded@ != "handshake_guard_saturated"@,
        codes.tracked_source_limit_reached@ != "tracked_source_capacity_saturated"@,
        codes.tracked_source_limit_reached@ != "handshake_guard_saturated"@,
        codes.handshake_limit_reached@ != "tracked_source_capacity_saturated"@,
        codes.handshake_limit_reached@ != "handshake_guard_saturated"@,
    ensures
        ({
            let full_of_sources = policy is Some && (policy->0.source_quota matches Some(quota)
                && snapshot.tracked_sources >= quota.max_tracked_sources);
            let full_of_handshakes = policy is Some && (policy->0.handshake_guard matches Some(
                guard,
            ) && snapshot.active_handshakes >= guard.max_inflight);
            &&& status.state@ == "disabled"@ <==> policy is None
            &&& status.state@ == "constrained"@ <==> full_of_sources || full_of_handshakes
            &&& status.state@ == "enforcing"@ <==> policy is Some && !full_of_sources
                && !full_of_handshakes
            &&& forall|code: Seq<char>| #[trigger]
                gives(status.reason_codes, code) <==> {
                    ||| code == codes.source_quota_exceeded@ && snapshot.source_quota_rejections > 0
                    ||| code == codes.tracked_source_limit_reached@
                        && snapshot.tracked_source_limit_rejections > 0
                    ||| code == codes.handshake_limit_reached@
                        && snapshot.handshake_guard_rejections > 0
                    ||| code == "tracked_source_capacity_saturated"@ && full_of_sources
                    ||| code == "handshake_guard_saturated"@ && full_of_handshakes
                }
            &&& status.tracked_sources == snapshot.tracked_sources
            &&& status.active_handshakes == snapshot.active_handshakes
            &&& status.source_quota_rejections == snapshot.source_quota_rejections
            &&& status.tracked_source_limit_rejections == snapshot.tracked_source_limit_rejections
            &&& status.handshake_guard_rejections == snapshot.handshake_guard_rejections
        }),
{
    lemma_protection_words();
    let full_of_sources = policy is Some && (policy->0.source_quota matches Some(quota)
        && snapshot.tracked_sources >= quota.max_tracked_sources);
    let full_of_handshakes = policy is Some && (policy->0.handshake_guard matches Some(guard)
        && snapshot.active_handshakes >= guard.max_inflight);
    assert forall|code: Seq<char>| #[trigger] gives(status.reason_codes, code) <==> {
        ||| code == codes.source_quota_exceeded@ && snapshot.source_quota_rejections > 0
        ||| code == codes.tracked_source_limit_reached@ && snapshot.tracked_source_limit_rejections
            > 0
        ||| code == codes.handshake_limit_reached@ && snapshot.handshake_guard_rejections > 0
        ||| code == "tracked_source_capacity_saturated"@ && full_of_sources
        ||| code == "handshake_guard_saturated"@ && full_of_handshakes
    } by {
        lemma_gives(status.reason_codes, code);
        lemma_protection(policy, snapshot, codes, full_of_sources, full_of_handshakes, code);
    }
    lemma_protection(
        policy,
        snapshot,
        codes,
        full_of_sources,
        full_of_handshakes,
        "tracked_source_capacity_saturated"@,
    );
    lemma_protection(
        policy,
        snapshot,
        codes,
        full_of_sources,
        full_of_handshakes,
        "handshake_guard_saturated"@,
    );
}

#[verifier::rlimit(40)]
proof fn lemma_protection(
    policy: Option<CompiledListenerAbuseProtectionPolicy>,
    snapshot: ListenerAbuseProtectionSnapshot,
    codes: AbuseRejectionCodes,
    full_of_sources: bool,
    full_of_handshakes: bool,
    code: Seq<char>,
)
    requires
        full_of_sources == (policy is Some && (policy->0.source_quota matches Some(quota)
            && snapshot.tracked_sources >= quota.max_tracked_sources)),
        full_of_handshakes == (policy is Some && (policy->0.handshake_guard matches Some(guard)
            && snapshot.active_handshakes >= guard.max_inflight)),
    ensures
        abuse_reasons(policy, snapshot, codes).contains(code) <==> {
            ||| code == codes.source_quota_exceeded@ && snapshot.source_quota_rejections > 0
            ||| code == codes.tracked_source_limit_reached@
                && snapshot.tracked_source_limit_rejections > 0
            ||| code == codes.handshake_limit_reached@ && snapshot.handshake_guard_rejections > 0
            ||| code == "tracked_source_capacity_saturated"@ && full_of_sources
            ||| code == "handshake_guard_saturated"@ && full_of_handshakes
        },
{
    let none: Seq<Seq<char>> = Seq::empty();
    assert(!none.contains(code));
    let a = if snapshot.source_quota_rejections > 0 {
        with_reason(none, codes.source_quota_exceeded@)
    } else {
        none
    };
    let b = if snapshot.tracked_source_limit_rejections > 0 {
        with_reason(a, codes.tracked_source_limit_reached@)
    } else {
        a
    };
    let c = if snapshot.handshake_guard_rejections > 0 {
        with_reason(b, codes.handshake_limit_reached@)
    } else {
        b
    };
    let d = if full_of_sources {
        with_reason(c, "tracked_source_capacity_saturated"@)
    } else {
        c
    };
    lemma_with_reason(none, codes.source_quota_exceeded@, code);
    lemma_with_reason(a, codes.tracked_source_limit_reached@, code);
    lemma_with_reason(b, codes.handshake_limit_reached@, code);
    lemma_with_reason(c, "tracked_source_capacity_saturated"@, code);
    lemma_with_reason(d, "handshake_guard_saturated"@, code);
}

/// The replacement of a listener is reported by what is left to do: sockets that still drain come
/// before a start that failed, and that before a drain that took too long.
pub proof fn replacements_are_reported_as_they_stand(
    status: ListenerReplacementStatus,
    lifecycle: ListenerLifecycleModel,
)
    requires
        status.reports(lifecycle),
    ensures
        ({
            let draining = lifecycle.draining_identities@.len() > 0;
            let failed = lifecycle.failed_start is Some;
            let late = lifecycle.drain_timed_out_identities@.len() > 0;
            &&& draining ==> status.state@ == "replacement_draining"@
            &&& !draining && failed ==> status.state@ == "failed_start_preserved"@
            &&& !draining && !failed && late ==> status.state@ == "drain_timeout_expired"@
            &&& !draining && !failed && !late ==> status.state@ == "stable"@
            &&& status.failed_start is Some <==> failed
            &&& status.draining@.len() == lifecycle.draining_identities@.len()
            &&& status.retired_recent@.len() == lifecycle.retired_identities@.len()
            &&& status.drain_timeout_recent@.len() == lifecycle.drain_timed_out_identities@.len()
            &&& status.desired.configured_bind == lifecycle.desired_identity.configured_bind
            &&& status.desired.class == lifecycle.desired_identity.class
            &&& status.desired.protocol == lifecycle.desired_identity.protocol
            &&& status.desired.bind_mode == lifecycle.desired_identity.bind_mode
            &&& forall|i: int|
                0 <= i < status.draining@.len() ==> (#[trigger] status.draining@[i]).configured_bind
                    == lifecycle.draining_identities@[i].configured_bind
            &&& forall|i: int|
                0 <= i < status.retired_recent@.len() ==> (
                #[trigger] status.retired_recent@[i]).configured_bind
                    == lifecycle.retired_identities@[i].configured_bind
            &&& forall|i: int|
                0 <= i < status.drain_timeout_recent@.len() ==> (
                #[trigger] status.drain_timeout_recent@[i]).configured_bind
                    == lifecycle.drain_timed_out_identities@[i].configured_bind
        }),
{
}

/// A listener without an overload policy sheds exactly where it has as many connections as it may,
/// and that is its only signal. Its numbers are those that were counted.
pub proof fn full_listeners_shed(active: usize, shed: u64, limit: usize)
    ensures
        ({
            let snapshot = counted_snapshot(active, shed, limit);
            &&& snapshot.state is Shedding <==> active >= limit
            &&& snapshot.state is Normal <==> active < limit
            &&& snapshot.active_signal_count == (if active >= limit {
                1u64
            } else {
                0u64
            })
            &&& snapshot.concurrency_limited_count == active
            &&& snapshot.shed_request_count == shed
            &&& snapshot.rate_limited_count == 0
            &&& snapshot.breaker_open_count == 0
            &&& snapshot.retry_budget_exhausted_count == 0
            &&& snapshot.brownout_feature_count == 0
        }),
{
}

/// States of overload are told apart by their names, and so are events by their codes. A listener
/// that sheds or browns out by its name is not ready.
#[verifier::rlimit(40)]
pub proof fn overload_names_tell_states_apart(
    one: OverloadState,
    other: OverloadState,
    kind: OverloadEventKind,
    listener: ListenerStatus,
)
    ensures
        state_name(one) == state_name(other) ==> one == other,
        listener.overload_state@ == state_name(one) && (one is Shedding || one is Brownout)
            ==> !is_serving(listener),
        state_at(0) is Normal,
        event_code(kind) == "overload.request.shed"@ <==> kind is RequestShed,
        event_code(kind) == "overload.state.changed"@ <==> kind is StateChanged,
{
    reveal_strlit("normal");
    reveal_strlit("constrained");
    reveal_strlit("shedding");
    reveal_strlit("brownout");
    reveal_strlit("overload.request.shed");
    reveal_strlit("overload.state.changed");
    reveal_strlit("overload.brownout.features_changed");
    assert("normal"@.len() == 6 && "constrained"@.len() == 11);
    assert("shedding"@.len() == 8 && "brownout"@.len() == 8);
    assert("shedding"@[0] == 's' && "brownout"@[0] == 'b');
    assert("overload.request.shed"@.len() == 21);
    assert("overload.state.changed"@.len() == 22);
    assert("overload.brownout.features_changed"@.len() == 34);
}

/// A connection that hostile-edge protection rejected is told so with unavailability, with the
/// length of what it is told, and with the reason.
pub proof fn rejected_connections_are_told_why(code: Seq<char>)
    ensures
        ({
            let body = "listener rejected connection: "@ + code + "\n"@;
            let length = encode_utf8(body).len();
            &&& abuse_rejection_body(code) == body
            &&& abuse_rejection_reply(code, length)
                == "HTTP/1.1 503 Service Unavailable\r\nContent-Type: text/plain; charset=utf-8\r\nContent-Length: "@
                + decimal(length) + "\r\nConnection: close\r\nX-LB-Abuse-Reason: "@ + code
                + "\r\n\r\n"@ + body
        }),
{
}

/// Kinds of connections and states of overload are told by their words.
pub proof fn connections_and_states_are_told_by_their_words(
    kind: ConnectionKind,
    state: OverloadState,
)
    ensures
        kind_word(kind) == (match kind {
            ConnectionKind::Public => "public"@,
            ConnectionKind::Admin => "admin"@,
            ConnectionKind::Http3 => "http3"@,
        }),
        state_word(state) == (match state {
            OverloadState::Normal => "Normal"@,
            OverloadState::Constrained => "Constrained"@,
            OverloadState::Shedding => "Shedding"@,
            OverloadState::Brownout => "Brownout"@,
        }),
        state_name(state) == (match state {
            OverloadState::Normal => "normal"@,
            OverloadState::Constrained => "constrained"@,
            OverloadState::Shedding => "shedding"@,
            OverloadState::Brownout => "brownout"@,
        }),
{
}

/// All identities of a listener's life are listed with where they stand: the active one first, those
/// that drain, those that were retired, and last the one that could not be started.
pub proof fn lives_are_listed_in_order(lifecycle: ListenerLifecycleModel)
    ensures
        ({
            let entries = lifecycle.all_entries();
            let a = if lifecycle.active_identity is Some {
                1int
            } else {
                0int
            };
            let d = lifecycle.draining_identities@.len();
            let r = lifecycle.retired_identities@.len();
            let f = if lifecycle.failed_start is Some {
                1int
            } else {
                0int
            };
            &&& entries.len() == a + d + r + f
            &&& lifecycle.active_identity matches Some(identity) ==> entries[0]
                == (ListenerLifecycleEntry { identity, state: ListenerLifecycleState::Active })
            &&& forall|i: int|
                0 <= i < d ==> entries[a + i] == (ListenerLifecycleEntry {
                    identity: #[trigger] lifecycle.draining_identities@[i],
                    state: ListenerLifecycleState::Draining,
                })
            &&& forall|i: int|
                0 <= i < r ==> entries[a + d + i] == (ListenerLifecycleEntry {
                    identity: #[trigger] lifecycle.retired_identities@[i],
                    state: ListenerLifecycleState::Retired,
                })
            &&& lifecycle.failed_start matches Some(failed) ==> entries.last()
                == (ListenerLifecycleEntry {
                identity: failed.identity,
                state: ListenerLifecycleState::FailedStart,
            })
        }),
{
}

} // verus!
