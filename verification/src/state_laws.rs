//! What holds of the state of all workspaces: how reloads and restarts are timed and counted, which
//! events are kept, and what a restart finds again.

use crate::admin_audit::{AdminAuditEvent, DurableSnapshotIdentity};
use crate::control_plane_journal::{
    ControlPlaneJournalEnvelope, ControlPlaneJournalPayload, JournalInFlightOperation,
};
use crate::digest::sha256;
use crate::listener_status::{health_at, ReloadHealthState};
use crate::reload_plan::{ReloadApplyOutcome, ReloadAuditPlan};
use crate::state::{
    highest_sequence, kept_events, latest, next_sequence, overload_events, sequence_of,
    TelemetryEvent, WorkspaceServeState,
};
use crate::text::{decimal, hex_bytes};
use vstd::prelude::*;
use vstd::string::*;
use vstd::utf8::encode_utf8;

verus! {

/// The sum of two counts that start again at zero after their last value.
pub open spec fn counted_on(count: u64, more: int) -> int {
    if count + more > u64::MAX {
        count + more - 0x1_0000_0000_0000_0000
    } else {
        count + more
    }
}

/// A reload that came to its end is timed, among those that succeeded or those that failed, is
/// counted among them, and has the health that goes with it. Only one that succeeded counts drains.
pub proof fn ended_reloads_are_timed_and_counted(
    state: WorkspaceServeState,
    result: Result<ReloadApplyOutcome, Seq<char>>,
    duration_ms: u64,
)
    ensures
        ({
            let after = state.with_reload_result(result, duration_ms);
            let ok = result is Ok;
            &&& after.last_reload_duration_ms == duration_ms
            &&& after.last_successful_reload_duration_ms == (if ok {
                duration_ms
            } else {
                state.last_successful_reload_duration_ms
            })
            &&& after.last_failed_reload_duration_ms == (if ok {
                state.last_failed_reload_duration_ms
            } else {
                duration_ms
            })
            &&& after.reload_total_duration_ms == counted_on(
                state.reload_total_duration_ms,
                duration_ms as int,
            )
            &&& after.reload_max_duration_ms >= duration_ms
            &&& after.reload_max_duration_ms >= state.reload_max_duration_ms
            &&& after.reload_max_duration_ms == duration_ms || after.reload_max_duration_ms
                == state.reload_max_duration_ms
            &&& after.reload_success_count == counted_on(state.reload_success_count, if ok {
                1
            } else {
                0
            })
            &&& after.reload_failure_count == counted_on(state.reload_failure_count, if ok {
                0
            } else {
                1
            })
            &&& health_at(after.reload_health) == (if ok {
                ReloadHealthState::Healthy
            } else {
                ReloadHealthState::Failed
            })
            &&& after.reload_drained_listener_count == counted_on(
                state.reload_drained_listener_count,
                if ok {
                    result->Ok_0.drained_listener_count as int
                } else {
                    0
                },
            )
            &&& after.reload_completed_drain_count == counted_on(
                state.reload_completed_drain_count,
                if ok {
                    result->Ok_0.completed_drain_count as int
                } else {
                    0
                },
            )
            &&& after.reload_drain_timeout_count == counted_on(
                state.reload_drain_timeout_count,
                if ok {
                    result->Ok_0.drain_timeout_count as int
                } else {
                    0
                },
            )
            &&& after.restart_success_count == state.restart_success_count
            &&& after.restart_failure_count == state.restart_failure_count
        }),
{
}

/// The code of a reload that came to its end tells how it ended, and what is said of one that failed
/// is what went wrong.
pub proof fn ended_reloads_have_their_code(result: Result<ReloadApplyOutcome, Seq<char>>)
    ensures
        result matches Ok(outcome) ==> WorkspaceServeState::reload_code(result) == (
        if outcome.drain_timed_out_replacements@.len() > 0 {
            "reload_applied_with_drain_timeout"@
        } else {
            "reload_applied"@
        }),
        result matches Err(error) ==> WorkspaceServeState::reload_code(result)
            == "reload_failed_apply"@ && WorkspaceServeState::reload_detail(result) == error,
{
}

/// A restart that came to its end is timed, among those that succeeded or those that failed, and
/// nothing of a reload is touched.
pub proof fn ended_restarts_are_timed(
    state: WorkspaceServeState,
    duration_ms: u64,
    succeeded: bool,
)
    ensures
        ({
            let after = state.with_restart_duration(duration_ms, succeeded);
            &&& after.last_restart_duration_ms == duration_ms
            &&& succeeded ==> after.last_successful_restart_duration_ms == duration_ms
                && after.last_failed_restart_duration_ms == state.last_failed_restart_duration_ms
            &&& !succeeded ==> after.last_failed_restart_duration_ms == duration_ms
                && after.last_successful_restart_duration_ms
                == state.last_successful_restart_duration_ms
            &&& after.last_reload_duration_ms == state.last_reload_duration_ms
            &&& after.reload_max_duration_ms == state.reload_max_duration_ms
            &&& after.reload_total_duration_ms == state.reload_total_duration_ms
        }),
{
}

/// A connection that was proxied is counted once, and its requests are added.
pub proof fn proxied_connections_are_counted(state: WorkspaceServeState, requests: u64)
    ensures
        state.with_proxied(requests).proxied_connections == counted_on(
            state.proxied_connections,
            1,
        ),
        state.with_proxied(requests).proxied_requests == counted_on(
            state.proxied_requests,
            requests as int,
        ),
        state.with_proxied(requests).admin_requests == state.admin_requests,
{
}

/// The latest events are kept, as many as the capacity allows and at least one, in their order, and
/// the newest is always among them.
pub proof fn the_newest_event_is_kept(
    events: Seq<AdminAuditEvent>,
    event: AdminAuditEvent,
    capacity: usize,
)
    ensures
        ({
            let kept = latest(events.push(event), kept_events(capacity));
            let room = if capacity == 0 {
                1nat
            } else {
                capacity as nat
            };
            &&& kept.last() == event
            &&& kept.len() == (if events.len() + 1 <= room {
                events.len() + 1
            } else {
                room
            })
            &&& forall|i: int|
                0 <= i < kept.len() ==> #[trigger] kept[i] == events.push(event)[i + events.len() + 1
                    - kept.len()]
        }),
{
}

#[verifier::rlimit(40)]
proof fn lemma_highest(events: Seq<AdminAuditEvent>, n: nat)
    requires
        n <= events.len(),
    ensures
        highest_sequence(events, n) is None <==> forall|i: int|
            0 <= i < n ==> sequence_of((#[trigger] events[i]).request_id@) is None,
        highest_sequence(events, n) matches Some(highest) ==> {
            &&& forall|i: int|
                0 <= i < n ==> (sequence_of((#[trigger] events[i]).request_id@) matches Some(
                    sequence,
                ) ==> sequence <= highest)
            &&& exists|i: int|
                0 <= i < n && sequence_of((#[trigger] events[i]).request_id@) == Some(highest)
        },
    decreases n,
{
    if n > 0 {
        lemma_highest(events, (n - 1) as nat);
        let before = highest_sequence(events, (n - 1) as nat);
        let now = highest_sequence(events, n);
        if now is Some {
            if sequence_of(events[n - 1].request_id@) == now {
                assert(sequence_of(events[n - 1].request_id@) == Some(now->0));
            } else {
                let i = choose|i: int|
                    0 <= i < n - 1 && sequence_of((#[trigger] events[i]).request_id@) == Some(
                        before->0,
                    );
                assert(sequence_of(events[i].request_id@) == Some(now->0));
            }
        }
    }
}

/// Requests are numbered on from the highest number among the events that are kept, and from one
/// where none of them bears a number.
pub proof fn numbers_go_on_from_the_highest(events: Seq<AdminAuditEvent>)
    ensures
        ({
            let next = next_sequence(events);
            let numbered = exists|i: int|
                0 <= i < events.len() && sequence_of((#[trigger] events[i]).request_id@) is Some;
            &&& !numbered ==> next == 1
            &&& numbered ==> {
                &&& forall|i: int|
                    0 <= i < events.len() ==> (sequence_of(
                        (#[trigger] events[i]).request_id@,
                    ) matches Some(sequence) ==> sequence < next || next == u64::MAX)
                &&& exists|i: int|
                    0 <= i < events.len() && (sequence_of(
                        (#[trigger] events[i]).request_id@,
                    ) matches Some(sequence) && (next == sequence + 1 || (sequence == u64::MAX
                        && next == u64::MAX)))
            }
        }),
{
    lemma_highest(events, events.len());
    let highest = highest_sequence(events, events.len());
    if highest is Some {
        let i = choose|i: int|
            0 <= i < events.len() && sequence_of((#[trigger] events[i]).request_id@) == Some(
                highest->0,
            );
        assert(sequence_of(events[i].request_id@) is Some);
    }
}

/// A reload that a restart found unfinished has failed. The event that says so is the newest, and
/// names the snapshot that was to be served.
pub proof fn unfinished_reloads_are_told_of(
    before: WorkspaceServeState,
    payload: ControlPlaneJournalPayload,
    after: WorkspaceServeState,
    observed_at_ms: u64,
    named_at_ms: u64,
)
    requires
        after.took_over(before, payload, observed_at_ms, named_at_ms),
        payload.in_flight_operation is Some,
    ensures
        ({
            let digest = payload.in_flight_operation->0.desired_snapshot.digest_sha256@;
            let told = "startup recovery detected unfinished reload for desired snapshot "@ + digest
                + "; operator must validate and reload again"@;
            let event = after.recent_admin_audit@.last();
            &&& health_at(after.reload_health) is Failed
            &&& after.last_reload_outcome_code@ == "reload_recovered_unfinished"@
            &&& after.last_reload_result@ == told
            &&& after.recent_admin_audit@.len() > 0
            &&& event.observed_at_unix_ms == observed_at_ms
            &&& event.code@ == "reload_recovered_unfinished"@
            &&& event.outcome@ == "needs_operator_action"@
            &&& event.actor@ == "system"@
            &&& event.detail@ == told
            &&& after.control_plane_journal.recovery.state@ == "needs_operator_action"@
            &&& after.control_plane_journal.recovery.in_flight_operation is Some
            &&& after.control_plane_journal.desired_snapshot == payload.desired_snapshot
            &&& after.control_plane_journal.applied_snapshot == payload.applied_snapshot
        }),
{
}

/// A state that a restart found with no operation under way is restored as it was, and nobody has
/// to act.
pub proof fn finished_states_are_restored(
    before: WorkspaceServeState,
    payload: ControlPlaneJournalPayload,
    after: WorkspaceServeState,
    observed_at_ms: u64,
    named_at_ms: u64,
)
    requires
        after.took_over(before, payload, observed_at_ms, named_at_ms),
        payload.in_flight_operation is None,
    ensures
        after.last_reload_outcome_code == payload.last_reload_outcome_code,
        after.last_reload_result == payload.last_reload_result,
        payload.reload_health@ == "healthy"@ ==> health_at(after.reload_health) is Healthy,
        after.control_plane_journal.recovery.state@ == "restored"@,
        after.control_plane_journal.recovery.in_flight_operation is None,
        after.control_plane_journal.recovery.last_persisted_at_unix_ms == Some(
            payload.persisted_at_unix_ms,
        ),
        after.control_plane_journal.in_flight_operation is None,
        after.control_plane_journal.desired_snapshot == payload.desired_snapshot,
        after.control_plane_journal.applied_snapshot == payload.applied_snapshot,
        !after.settles(true),
{
    reveal_strlit("restored");
    reveal_strlit("needs_operator_action");
    assert("restored"@.len() == 8 && "needs_operator_action"@.len() == 21);
}

/// A reload settles what an earlier restart left open exactly where an operator asked for it and
/// something is open.
pub proof fn operators_settle_what_is_open(state: WorkspaceServeState, asked: bool)
    ensures
        state.settles(asked) <==> asked && state.control_plane_journal.recovery.state@
            == "needs_operator_action"@,
{
}

/// An operation is recorded with its plan: the listeners that it touches are those that it replaces,
/// or else those that block it, and it is expected to end when its plan says.
pub proof fn operations_are_recorded_with_their_plan(
    operation: JournalInFlightOperation,
    now_ms: u64,
    desired_snapshot: DurableSnapshotIdentity,
    plan: ReloadAuditPlan,
)
    requires
        operation.starts(now_ms, desired_snapshot, plan),
    ensures
        ({
            let overlaps = plan.supported_replacements@.len() > 0;
            &&& operation.kind@ == (if overlaps {
                "reload_overlap_drain"@
            } else {
                "reload"@
            })
            &&& operation.affected_listeners@ == (if overlaps {
                plan.supported_replacements@
            } else {
                plan.blocked_replacements@
            })
            &&& operation.expected_completion_within_ms == plan.expected_completion_within_ms
            &&& operation.started_at_unix_ms == now_ms
            &&& operation.desired_snapshot == desired_snapshot
        }),
{
}

/// A journal is read exactly where it has the first version and the digest of its own contents. The
/// digest is two hexadecimal digits for each of its bytes.
pub proof fn journals_are_read_where_they_are_intact(
    envelope: ControlPlaneJournalEnvelope,
    journal_path: Seq<char>,
)
    ensures
        ({
            let fault = envelope.fault(journal_path);
            let digest = hex_bytes(sha256(encode_utf8(envelope.payload_json@)));
            &&& fault is None <==> envelope.version == 1 && envelope.payload_sha256@ == digest
            &&& envelope.version != 1 ==> fault == Some(
                "control-plane journal at "@ + journal_path + " uses unsupported version "@
                    + decimal(envelope.version as nat),
            )
            &&& envelope.version == 1 && envelope.payload_sha256@ != digest ==> fault == Some(
                "control-plane journal at "@ + journal_path + " failed checksum validation"@,
            )
        }),
{
}

/// How many of the first `n` events are about overload.
pub open spec fn about_overload(events: Seq<TelemetryEvent>, n: nat) -> nat
    decreases n,
{
    if n == 0 {
        0
    } else {
        about_overload(events, (n - 1) as nat) + if events[n - 1].about_overload {
            1nat
        } else {
            0nat
        }
    }
}

/// Every event about overload is reported, with its code, its scope and its detail, in the order of
/// the events, and no other is.
pub proof fn overload_is_reported_event_by_event(events: Seq<TelemetryEvent>, n: nat)
    requires
        n <= events.len(),
    ensures
        overload_events(events, n).len() == about_overload(events, n),
        forall|i: int|
            0 <= i < n && (#[trigger] events[i]).about_overload ==> {
                let reported = overload_events(events, n)[about_overload(
                    events,
                    i as nat,
                ) as int];
                &&& about_overload(events, i as nat) < about_overload(events, n)
                &&& reported.code == events[i].code
                &&& reported.scope == events[i].scope
                &&& reported.detail == events[i].detail
            },
    decreases n,
{
    if n > 0 {
        overload_is_reported_event_by_event(events, (n - 1) as nat);
    }
}

} // verus!
