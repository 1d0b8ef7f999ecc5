//! What holds of all advice to operators after a restart: it follows from the states in which the
//! listeners were found, and from how long the operation that was cut short has run.

use crate::control_plane_journal::{ControlPlaneJournalPayload, JournalInFlightOperation};
use crate::listener_status::ListenerStatus;
use crate::recovery::{
    overall_verdict, status_named, summary_urgency, verdict_count, verdict_counts_add_up,
    verdict_named, ControlPlaneRecoveryInfo, RecoveredListenerStatus, RecoveryOperatorGuidance,
    RecoveryReconciliationSummary, Verdict,
};
use vstd::prelude::*;
use vstd::string::*;

verus! {

/// Whether a listener runs and nothing of it is being replaced.
pub open spec fn is_settled(l: RecoveredListenerStatus) -> bool {
    l.listener_state@ == "running"@ && l.replacement_state@ == "stable"@
}

/// Whether a listener runs while its predecessor still drains.
pub open spec fn is_draining(l: RecoveredListenerStatus) -> bool {
    l.listener_state@ == "running"@ && l.replacement_state@ == "replacement_draining"@
}

/// Whether the drain of a listener's predecessor took too long.
pub open spec fn is_timed_out(l: RecoveredListenerStatus) -> bool {
    l.replacement_state@ == "drain_timeout_expired"@
}

/// Whether a listener's replacement could not be started, so that the old one was kept.
pub open spec fn is_failed(l: RecoveredListenerStatus) -> bool {
    l.replacement_state@ == "failed_start_preserved"@
}

/// Whether a listener is in any other state: it is gone, or nobody knows what became of it.
pub open spec fn is_unclear(l: RecoveredListenerStatus) -> bool {
    !is_settled(l) && !is_draining(l) && !is_timed_out(l) && !is_failed(l)
}

/// Whether the verdict on each listener was made from its states.
pub open spec fn are_judged(listeners: Seq<RecoveredListenerStatus>) -> bool {
    forall|i: int|
        0 <= i < listeners.len() ==> (#[trigger] listeners[i]).reconciliation_verdict@
            == RecoveredListenerStatus::verdict(
            listeners[i].listener_state@,
            listeners[i].replacement_state@,
        )
}

/// Whether some listener is in a state.
pub open spec fn some_listener(
    listeners: Seq<RecoveredListenerStatus>,
    state: spec_fn(RecoveredListenerStatus) -> bool,
) -> bool {
    exists|i: int| 0 <= i < listeners.len() && state(#[trigger] listeners[i])
}

#[verifier::rlimit(40)]
proof fn lemma_words()
    ensures
        "running"@ != "missing"@,
        "stable"@ != "replacement_draining"@,
        "stable"@ != "drain_timeout_expired"@,
        "stable"@ != "failed_start_preserved"@,
        "stable"@ != "missing"@,
        "replacement_draining"@ != "drain_timeout_expired"@,
        "replacement_draining"@ != "failed_start_preserved"@,
        "replacement_draining"@ != "missing"@,
        "drain_timeout_expired"@ != "failed_start_preserved"@,
        "drain_timeout_expired"@ != "missing"@,
        "failed_start_preserved"@ != "missing"@,
        "settled"@ != "replacement_still_draining"@,
        "settled"@ != "replacement_failed_preserved"@,
        "settled"@ != "replacement_drain_timeout"@,
        "settled"@ != "missing"@,
        "settled"@ != "needs_review"@,
        "settled"@ != "none"@,
        "none"@ != "replacement_still_draining"@,
        "none"@ != "replacement_failed_preserved"@,
        "none"@ != "replacement_drain_timeout"@,
        "none"@ != "needs_review"@,
        "replacement_still_draining"@ != "replacement_failed_preserved"@,
        "replacement_still_draining"@ != "replacement_drain_timeout"@,
        "replacement_still_draining"@ != "missing"@,
        "replacement_still_draining"@ != "needs_review"@,
        "replacement_failed_preserved"@ != "replacement_drain_timeout"@,
        "replacement_failed_preserved"@ != "missing"@,
        "replacement_failed_preserved"@ != "needs_review"@,
        "replacement_drain_timeout"@ != "missing"@,
        "replacement_drain_timeout"@ != "needs_review"@,
        "missing"@ != "needs_review"@,
        "none"@ != "watch"@,
        "none"@ != "action_required"@,
        "none"@ != "urgent"@,
        "watch"@ != "action_required"@,
        "watch"@ != "urgent"@,
        "action_required"@ != "urgent"@,
        "wait_for_drain_completion"@ != "investigate_stalled_drain"@,
        "wait_for_drain_completion"@ != "validate_and_retry_reload"@,
        "wait_for_drain_completion"@ != "investigate_drain_timeout"@,
        "wait_for_drain_completion"@ != "investigate_and_validate_reload"@,
{
    reveal_strlit("running");
    assert("running"@.len() == 7);
    reveal_strlit("stable");
    assert("stable"@.len() == 6);
    reveal_strlit("replacement_draining");
    assert("replacement_draining"@.len() == 20);
    reveal_strlit("drain_timeout_expired");
    assert("drain_timeout_expired"@.len() == 21);
    reveal_strlit("failed_start_preserved");
    assert("failed_start_preserved"@.len() == 22);
    reveal_strlit("settled");
    assert("settled"@.len() == 7);
    reveal_strlit("missing");
    assert("missing"@.len() == 7);
    reveal_strlit("needs_review");
    assert("needs_review"@.len() == 12);
    reveal_strlit("replacement_still_draining");
    assert("replacement_still_draining"@.len() == 26);
    reveal_strlit("replacement_failed_preserved");
    assert("replacement_failed_preserved"@.len() == 28);
    reveal_strlit("replacement_drain_timeout");
    assert("replacement_drain_timeout"@.len() == 25);
    reveal_strlit("none");
    assert("none"@.len() == 4);
    reveal_strlit("watch");
    assert("watch"@.len() == 5);
    reveal_strlit("action_required");
    assert("action_required"@.len() == 15);
    reveal_strlit("urgent");
    assert("urgent"@.len() == 6);
    reveal_strlit("wait_for_drain_completion");
    assert("wait_for_drain_completion"@.len() == 25);
    reveal_strlit("investigate_stalled_drain");
    assert("investigate_stalled_drain"@.len() == 25);
    reveal_strlit("validate_and_retry_reload");
    assert("validate_and_retry_reload"@.len() == 25);
    reveal_strlit("investigate_drain_timeout");
    assert("investigate_drain_timeout"@.len() == 25);
    reveal_strlit("investigate_and_validate_reload");
    assert("investigate_and_validate_reload"@.len() == 31);
    assert("running"@[0] == 'r' && "missing"@[0] == 'm' && "settled"@[0] == 's');
    assert("wait_for_drain_completion"@[0] == 'w');
    assert("investigate_stalled_drain"@[0] == 'i');
    assert("validate_and_retry_reload"@[0] == 'v');
    assert("investigate_drain_timeout"@[0] == 'i');
}

#[verifier::rlimit(40)]
proof fn lemma_counted(listeners: Seq<RecoveredListenerStatus>, verdict: Verdict)
    ensures
        verdict_count(listeners, verdict) > 0 <==> exists|i: int|
            0 <= i < listeners.len() && verdict_named(
                (#[trigger] listeners[i]).reconciliation_verdict@,
            ) == verdict,
    decreases listeners.len(),
{
    if listeners.len() > 0 {
        let front = listeners.drop_last();
        lemma_counted(front, verdict);
        let last = listeners.len() - 1;
        if verdict_named(listeners[last].reconciliation_verdict@) == verdict {
            assert(verdict_count(listeners, verdict) > 0);
        }
        if verdict_count(front, verdict) > 0 {
            let i = choose|i: int|
                0 <= i < front.len() && verdict_named(
                    (#[trigger] front[i]).reconciliation_verdict@,
                ) == verdict;
            assert(listeners[i] == front[i]);
        }
        if exists|i: int|
            0 <= i < listeners.len() && verdict_named(
                (#[trigger] listeners[i]).reconciliation_verdict@,
            ) == verdict {
            let i = choose|i: int|
                0 <= i < listeners.len() && verdict_named(
                    (#[trigger] listeners[i]).reconciliation_verdict@,
                ) == verdict;
            if i < last {
                assert(front[i] == listeners[i]);
            }
        }
    }
}

proof fn lemma_one_verdict(l: RecoveredListenerStatus)
    requires
        l.reconciliation_verdict@ == RecoveredListenerStatus::verdict(
            l.listener_state@,
            l.replacement_state@,
        ),
    ensures
        is_settled(l) <==> verdict_named(l.reconciliation_verdict@) is Settled,
        is_draining(l) <==> verdict_named(l.reconciliation_verdict@) is StillDraining,
        is_timed_out(l) <==> verdict_named(l.reconciliation_verdict@) is DrainTimeout,
        is_failed(l) <==> verdict_named(l.reconciliation_verdict@) is FailedPreserved,
        is_unclear(l) <==> verdict_named(l.reconciliation_verdict@) is Missing || verdict_named(
            l.reconciliation_verdict@,
        ) is NeedsReview,
        verdict_named(l.reconciliation_verdict@) is Missing <==> l.listener_state@ == "missing"@
            && l.replacement_state@ == "missing"@,
{
    lemma_words();
}

#[verifier::rlimit(40)]
proof fn lemma_some(listeners: Seq<RecoveredListenerStatus>)
    requires
        are_judged(listeners),
    ensures
        verdict_count(listeners, Verdict::Settled) > 0 <==> some_listener(
            listeners,
            |l: RecoveredListenerStatus| is_settled(l),
        ),
        verdict_count(listeners, Verdict::StillDraining) > 0 <==> some_listener(
            listeners,
            |l: RecoveredListenerStatus| is_draining(l),
        ),
        verdict_count(listeners, Verdict::DrainTimeout) > 0 <==> some_listener(
            listeners,
            |l: RecoveredListenerStatus| is_timed_out(l),
        ),
        verdict_count(listeners, Verdict::FailedPreserved) > 0 <==> some_listener(
            listeners,
            |l: RecoveredListenerStatus| is_failed(l),
        ),
        verdict_count(listeners, Verdict::Missing) > 0 || verdict_count(
            listeners,
            Verdict::NeedsReview,
        ) > 0 <==> some_listener(listeners, |l: RecoveredListenerStatus| is_unclear(l)),
{
    lemma_counted(listeners, Verdict::Settled);
    lemma_counted(listeners, Verdict::StillDraining);
    lemma_counted(listeners, Verdict::DrainTimeout);
    lemma_counted(listeners, Verdict::FailedPreserved);
    lemma_counted(listeners, Verdict::Missing);
    lemma_counted(listeners, Verdict::NeedsReview);
    assert forall|i: int| 0 <= i < listeners.len() implies {
        let v = verdict_named((#[trigger] listeners[i]).reconciliation_verdict@);
        &&& is_settled(listeners[i]) <==> v is Settled
        &&& is_draining(listeners[i]) <==> v is StillDraining
        &&& is_timed_out(listeners[i]) <==> v is DrainTimeout
        &&& is_failed(listeners[i]) <==> v is FailedPreserved
        &&& is_unclear(listeners[i]) <==> v is Missing || v is NeedsReview
    } by {
        lemma_one_verdict(listeners[i]);
    }
}

/// Whether the operation that was cut short has run longer at a time than it was expected to.
pub open spec fn is_late(operation: Option<JournalInFlightOperation>, now_ms: u64) -> bool {
    &&& operation matches Some(cut)
    &&& cut.expected_completion_within_ms matches Some(expected)
    &&& now_ms > cut.started_at_unix_ms + expected
}

/// While an operation that was cut short waits for an operator, the advice follows from the
/// states of the listeners that it touched. A listener in an unclear state is to be investigated
/// urgently. Otherwise, where a replacement could not be started, the reload is to be tried again;
/// otherwise, where a drain timed out, that is to be investigated urgently. To wait, and only to
/// watch, is advised exactly where some listener still drains, all others are settled, and the
/// operation is not late; once it is late, the stalled drain is to be investigated. Where all is
/// settled, the reload is to be tried again.
pub proof fn advice_follows_from_the_listeners(
    info: ControlPlaneRecoveryInfo,
    now_ms: u64,
    guidance: RecoveryOperatorGuidance,
)
    requires
        are_judged(info.reconciled_listeners@),
        info.state@ == "needs_operator_action"@,
        info.guided_by(now_ms, guidance),
    ensures
        ({
            let listeners = info.reconciled_listeners@;
            let unclear = some_listener(listeners, |l: RecoveredListenerStatus| is_unclear(l));
            let failed = some_listener(listeners, |l: RecoveredListenerStatus| is_failed(l));
            let timed_out = some_listener(listeners, |l: RecoveredListenerStatus| is_timed_out(l));
            let draining = some_listener(listeners, |l: RecoveredListenerStatus| is_draining(l));
            let late = is_late(info.in_flight_operation, now_ms);
            let action = guidance.recommended_action@;
            let urgency = guidance.urgency@;
            &&& unclear ==> action == "investigate_and_validate_reload"@ && urgency == "urgent"@
            &&& failed && !unclear ==> action == "validate_and_retry_reload"@ && urgency
                == "action_required"@
            &&& timed_out && !failed && !unclear ==> action == "investigate_drain_timeout"@
                && urgency == "urgent"@
            &&& draining && !timed_out && !failed && !unclear && !late ==> action
                == "wait_for_drain_completion"@ && urgency == "watch"@
            &&& draining && !timed_out && !failed && !unclear && late ==> action
                == "investigate_stalled_drain"@ && urgency == "action_required"@
            &&& !draining && !timed_out && !failed && !unclear ==> action
                == "validate_and_retry_reload"@ && urgency == "action_required"@
            &&& action == "wait_for_drain_completion"@ || urgency == "watch"@ ==> draining
                && !timed_out && !failed && !unclear && !late
            &&& urgency != "none"@
        }),
{
    lemma_some(info.reconciled_listeners@);
    lemma_words();
}

/// Where nothing waits for an operator, the advice is that on the listeners alone: to do nothing
/// where there are none, to look on where all are settled, to wait where some still drain, and
/// else as while something waits.
pub proof fn advice_without_an_operation_follows_from_the_listeners(
    info: ControlPlaneRecoveryInfo,
    now_ms: u64,
    guidance: RecoveryOperatorGuidance,
)
    requires
        are_judged(info.reconciled_listeners@),
        info.state@ != "needs_operator_action"@,
        info.guided_by(now_ms, guidance),
    ensures
        ({
            let listeners = info.reconciled_listeners@;
            let unclear = some_listener(listeners, |l: RecoveredListenerStatus| is_unclear(l));
            let failed = some_listener(listeners, |l: RecoveredListenerStatus| is_failed(l));
            let timed_out = some_listener(listeners, |l: RecoveredListenerStatus| is_timed_out(l));
            let draining = some_listener(listeners, |l: RecoveredListenerStatus| is_draining(l));
            let action = guidance.recommended_action@;
            let urgency = guidance.urgency@;
            &&& listeners.len() == 0 ==> action == "none"@ && urgency == "none"@
            &&& listeners.len() > 0 && !draining && !timed_out && !failed && !unclear ==> action
                == "observe_only"@ && urgency == "none"@
            &&& unclear ==> action == "investigate_and_validate_reload"@ && urgency == "urgent"@
            &&& failed && !unclear ==> action == "validate_and_retry_reload"@ && urgency
                == "action_required"@
            &&& timed_out && !failed && !unclear ==> action == "investigate_drain_timeout"@
                && urgency == "urgent"@
            &&& draining && !timed_out && !failed && !unclear ==> action
                == "wait_for_drain_completion"@ && urgency == "watch"@
        }),
{
    lemma_some(info.reconciled_listeners@);
    lemma_words();
}

/// How grave an urgency is.
pub open spec fn gravity(urgency: Seq<char>) -> int {
    if urgency == "urgent"@ {
        3
    } else if urgency == "action_required"@ {
        2
    } else if urgency == "watch"@ {
        1
    } else {
        0
    }
}

/// The advice is never less urgent than the summary of the same listeners.
pub proof fn advice_is_no_less_urgent_than_the_summary(
    info: ControlPlaneRecoveryInfo,
    now_ms: u64,
    guidance: RecoveryOperatorGuidance,
    summary: RecoveryReconciliationSummary,
)
    requires
        info.guided_by(now_ms, guidance),
        summary.summarizes(info.reconciled_listeners@),
    ensures
        gravity(guidance.urgency@) >= gravity(summary_urgency(summary.overall_verdict@)),
{
    lemma_words();
}

/// While nothing else changes, time does not make the advice less urgent, and an operation that
/// was found to be late stays late.
pub proof fn time_does_not_calm_the_advice(
    info: ControlPlaneRecoveryInfo,
    earlier_ms: u64,
    later_ms: u64,
    earlier: RecoveryOperatorGuidance,
    later: RecoveryOperatorGuidance,
)
    requires
        earlier_ms <= later_ms,
        info.guided_by(earlier_ms, earlier),
        info.guided_by(later_ms, later),
    ensures
        gravity(earlier.urgency@) <= gravity(later.urgency@),
        earlier.exceeded_expected_completion ==> later.exceeded_expected_completion,
{
    lemma_words();
}

/// The advice tells how long the operation that was cut short has run, how long it was expected
/// to run, and whether it is late; where none was cut short it tells none of these.
pub proof fn advice_tells_the_age_of_the_operation(
    info: ControlPlaneRecoveryInfo,
    now_ms: u64,
    guidance: RecoveryOperatorGuidance,
)
    requires
        info.guided_by(now_ms, guidance),
    ensures
        guidance.exceeded_expected_completion <==> is_late(info.in_flight_operation, now_ms),
        match info.in_flight_operation {
            None => guidance.operation_age_ms is None
                && guidance.expected_completion_within_ms is None,
            Some(cut) => {
                &&& guidance.expected_completion_within_ms == cut.expected_completion_within_ms
                &&& guidance.operation_age_ms matches Some(age)
                &&& now_ms >= cut.started_at_unix_ms ==> cut.started_at_unix_ms + age == now_ms
                &&& now_ms < cut.started_at_unix_ms ==> age == 0
            },
        },
{
}

/// The summary's verdict is the gravest that some listener's states call for, and its counts are
/// those of the listeners in each state.
pub proof fn summaries_follow_from_the_listeners(
    listeners: Seq<RecoveredListenerStatus>,
    summary: RecoveryReconciliationSummary,
)
    requires
        are_judged(listeners),
        summary.summarizes(listeners),
    ensures
        ({
            let unclear = some_listener(listeners, |l: RecoveredListenerStatus| is_unclear(l));
            let failed = some_listener(listeners, |l: RecoveredListenerStatus| is_failed(l));
            let timed_out = some_listener(listeners, |l: RecoveredListenerStatus| is_timed_out(l));
            let draining = some_listener(listeners, |l: RecoveredListenerStatus| is_draining(l));
            let settled = some_listener(listeners, |l: RecoveredListenerStatus| is_settled(l));
            let verdict = summary.overall_verdict@;
            &&& listeners.len() == 0 ==> verdict == "none"@
            &&& unclear ==> verdict == "needs_review"@
            &&& failed && !unclear ==> verdict == "replacement_failed_preserved"@
            &&& timed_out && !failed && !unclear ==> verdict == "replacement_drain_timeout"@
            &&& draining && !timed_out && !failed && !unclear ==> verdict
                == "replacement_still_draining"@
            &&& listeners.len() > 0 && !draining && !timed_out && !failed && !unclear ==> verdict
                == "settled"@
            &&& summary.settled_count > 0 <==> settled
            &&& summary.draining_count > 0 <==> draining
            &&& summary.drain_timeout_count > 0 <==> timed_out
            &&& summary.failed_preserved_count > 0 <==> failed
            &&& summary.missing_count > 0 || summary.needs_review_count > 0 <==> unclear
            &&& summary.settled_count + summary.draining_count + summary.drain_timeout_count
                + summary.failed_preserved_count + summary.missing_count
                + summary.needs_review_count == listeners.len()
        }),
{
    lemma_some(listeners);
    verdict_counts_add_up(listeners);
    lemma_words();
}

/// One more listener adds one to the count of its own state and to no other.
pub proof fn each_listener_is_counted_once(
    listeners: Seq<RecoveredListenerStatus>,
    l: RecoveredListenerStatus,
)
    requires
        l.reconciliation_verdict@ == RecoveredListenerStatus::verdict(
            l.listener_state@,
            l.replacement_state@,
        ),
    ensures
        ({
            let more = listeners.push(l);
            let gone = l.listener_state@ == "missing"@ && l.replacement_state@ == "missing"@;
            &&& verdict_count(more, Verdict::Settled) - verdict_count(listeners, Verdict::Settled)
                == (if is_settled(l) { 1int } else { 0 })
            &&& verdict_count(more, Verdict::StillDraining) - verdict_count(
                listeners,
                Verdict::StillDraining,
            ) == (if is_draining(l) { 1int } else { 0 })
            &&& verdict_count(more, Verdict::DrainTimeout) - verdict_count(
                listeners,
                Verdict::DrainTimeout,
            ) == (if is_timed_out(l) { 1int } else { 0 })
            &&& verdict_count(more, Verdict::FailedPreserved) - verdict_count(
                listeners,
                Verdict::FailedPreserved,
            ) == (if is_failed(l) { 1int } else { 0 })
            &&& verdict_count(more, Verdict::Missing) - verdict_count(listeners, Verdict::Missing)
                == (if gone { 1int } else { 0 })
            &&& verdict_count(more, Verdict::NeedsReview) - verdict_count(
                listeners,
                Verdict::NeedsReview,
            ) == (if is_unclear(l) && !gone { 1int } else { 0 })
        }),
{
    assert(listeners.push(l).drop_last() =~= listeners);
    lemma_one_verdict(l);
}

/// Whether the report at a place is the first in a list of a listener.
pub open spec fn is_first_status(list: Seq<ListenerStatus>, i: int, name: Seq<char>) -> bool {
    &&& 0 <= i < list.len()
    &&& list[i].name@ == name
    &&& forall|k: int| 0 <= k < i ==> (#[trigger] list[k]).name@ != name
}

#[verifier::rlimit(40)]
proof fn lemma_status(list: Seq<ListenerStatus>, name: Seq<char>)
    ensures
        forall|i: int| #[trigger]
            is_first_status(list, i, name) ==> status_named(list, name) == Some(list[i]),
        status_named(list, name) is None <==> forall|i: int|
            0 <= i < list.len() ==> (#[trigger] list[i]).name@ != name,
    decreases list.len(),
{
    if list.len() > 0 {
        let rest = list.drop_first();
        lemma_status(rest, name);
        assert forall|i: int| #[trigger] is_first_status(list, i, name) implies status_named(
            list,
            name,
        ) == Some(list[i]) by {
            if i > 0 {
                assert(list[0].name@ != name);
                assert forall|k: int| 0 <= k < i - 1 implies (#[trigger] rest[k]).name@ != name by {
                    assert(list[k + 1].name@ != name);
                }
                assert(is_first_status(rest, i - 1, name));
            }
        }
        if status_named(list, name) is None {
            assert forall|i: int| 0 <= i < list.len() implies (#[trigger] list[i]).name@ != name by {
                if i > 0 {
                    assert(rest[i - 1].name@ != name);
                }
            }
        } else if list[0].name@ != name {
            let i = choose|i: int| 0 <= i < rest.len() && (#[trigger] rest[i]).name@ == name;
            assert(list[i + 1].name@ == name);
        }
    }
}

/// A listener is found in the states that its report gives, and one without a report is found to
/// be in an unclear state. Its verdict is made from these states.
pub proof fn listeners_are_found_as_reported(
    found: RecoveredListenerStatus,
    name: Seq<char>,
    list: Seq<ListenerStatus>,
)
    requires
        found.finds(name, list),
    ensures
        found.name@ == name,
        are_judged(seq![found]),
        forall|i: int| #[trigger]
            is_first_status(list, i, name) ==> found.listener_state@ == list[i].state@
                && found.replacement_state@ == list[i].replacement.state@,
        (forall|i: int| 0 <= i < list.len() ==> (#[trigger] list[i]).name@ != name) ==> is_unclear(
            found,
        ) && found.listener_state@ == "missing"@ && found.replacement_state@ == "missing"@,
{
    lemma_status(list, name);
    lemma_words();
}

/// What was restored waits for an operator exactly where the journal holds an operation that was
/// cut short, and keeps that operation as it was written down, with the journal's time, health and
/// outcome.
pub proof fn cut_short_operations_wait_for_an_operator(
    info: ControlPlaneRecoveryInfo,
    payload: ControlPlaneJournalPayload,
)
    requires
        info.restores(payload),
    ensures
        info.state@ == "needs_operator_action"@ <==> payload.in_flight_operation is Some,
        info.in_flight_operation is Some <==> payload.in_flight_operation is Some,
        payload.in_flight_operation is Some ==> {
            let kept = info.in_flight_operation->0;
            let written = payload.in_flight_operation->0;
            &&& kept.kind@ == written.kind@
            &&& kept.started_at_unix_ms == written.started_at_unix_ms
            &&& kept.expected_completion_within_ms == written.expected_completion_within_ms
            &&& kept.lifecycle_code@ == written.lifecycle_code@
            &&& kept.detail@ == written.detail@
            &&& kept.affected_listeners@.len() == written.affected_listeners@.len()
            &&& forall|i: int|
                0 <= i < written.affected_listeners@.len() ==> (
                #[trigger] kept.affected_listeners@[i])@ == written.affected_listeners@[i]@
            &&& kept.desired_snapshot.digest_sha256@ == written.desired_snapshot.digest_sha256@
            &&& kept.desired_snapshot.source_label@ == written.desired_snapshot.source_label@
        },
        info.last_persisted_at_unix_ms == Some(payload.persisted_at_unix_ms),
        info.restored_reload_health is Some && info.restored_reload_health->0@
            == payload.reload_health@,
        info.restored_last_reload_outcome_code is Some
            && info.restored_last_reload_outcome_code->0@ == payload.last_reload_outcome_code@,
        info.reconciled_listeners@.len() == 0,
{
    reveal_strlit("needs_operator_action");
    assert("needs_operator_action"@.len() == 21);
    reveal_strlit("restored");
    assert("restored"@.len() == 8);
}

} // verus!
