//! The state of a serving workspace: counters, the outcome of reloads and restarts, the record of
//! administration events, and what is written to the control-plane journal.

use crate::admin_audit::{AdminAuditEvent, DurableSnapshotIdentity};
use crate::control_plane_journal::{
    copy_identity, copy_operation, same_operation, ControlPlaneJournalPayload,
    ControlPlaneJournalRuntime, JournalInFlightOperation,
};
use crate::json::{escaped, put_escaped, put_number};
use crate::listener_status::{
    event_list, events_text, health_at, health_index, health_name, health_named,
    reload_health_from_index, reload_health_from_name, reload_health_index, reload_health_name,
    ListenerStatus, ReloadHealthState,
};
use crate::overload::OverloadEventStatus;
use crate::readiness::{evaluate_workspace_readiness, WorkspaceReadinessStatus};
use crate::recovery::ControlPlaneRecoveryInfo;
use crate::reload_plan::{ReloadApplyOutcome, ReloadAuditPlan, WarmRestartApplyOutcome};
use crate::supervisor::ADMIN_AUDIT_DEFAULT_CAPACITY;
use crate::text::{
    after_prefix, all_digits, decimal, digit_char, digit_of, digits_value, hex_padded, hex_text_16,
    join, joined, parse_unsigned, str_eq, strip_prefix, text, texts, unsigned, without_plus,
};
use vstd::prelude::*;
use vstd::string::*;

verus! {

/// The code of a reload that a restart found unfinished.
pub open spec fn unfinished_reload_code() -> Seq<char> {
    "reload_recovered_unfinished"@
}

/// The state of a serving workspace. Counters start again at zero after their last value.
#[derive(Debug)]
pub struct WorkspaceServeState {
    pub config_path: String,
    pub proxied_connections: u64,
    pub proxied_requests: u64,
    pub admin_requests: u64,
    pub reload_requests: u64,
    pub reload_success_count: u64,
    pub reload_failure_count: u64,
    pub reload_total_duration_ms: u64,
    pub reload_max_duration_ms: u64,
    pub last_reload_duration_ms: u64,
    pub last_successful_reload_duration_ms: u64,
    pub last_failed_reload_duration_ms: u64,
    pub reload_drained_listener_count: u64,
    pub reload_completed_drain_count: u64,
    pub reload_drain_timeout_count: u64,
    pub restart_requests: u64,
    pub restart_success_count: u64,
    pub restart_failure_count: u64,
    pub last_restart_duration_ms: u64,
    pub last_successful_restart_duration_ms: u64,
    pub last_failed_restart_duration_ms: u64,
    pub reload_health: usize,
    pub admin_audit_sequence: u64,
    pub admin_audit_capacity: usize,
    pub last_reload_outcome_code: String,
    pub last_reload_result: String,
    pub last_restart_outcome_code: String,
    pub last_restart_result: String,
    pub recent_admin_audit: Vec<AdminAuditEvent>,
    pub control_plane_journal: ControlPlaneJournalRuntime,
}

/// The larger of two numbers.
pub open spec fn larger(a: u64, b: u64) -> u64 {
    if a >= b {
        a
    } else {
        b
    }
}

/// How many events are kept with some capacity: at least one.
pub open spec fn kept_events(capacity: usize) -> usize {
    if capacity == 0 {
        1
    } else {
        capacity
    }
}

/// The latest events, as many as are kept.
pub open spec fn latest<T>(events: Seq<T>, count: usize) -> Seq<T> {
    if events.len() > count {
        events.skip(events.len() - count)
    } else {
        events
    }
}

fn keep_latest(events: &mut Vec<AdminAuditEvent>, count: usize)
    ensures
        final(events)@ == latest(old(events)@, count),
{
    let ghost all = events@;
    proof {
        assert(all.skip(0) =~= all);
    }
    while events.len() > count
        invariant
            events@.len() <= all.len(),
            events@ == all.skip(all.len() - events@.len()),
            all.len() > count ==> events@.len() >= count,
            all.len() <= count ==> events@ == all,
        decreases events@.len(),
    {
        let ghost before = events@;
        let _ = events.remove(0);
        proof {
            assert(events@ =~= before.skip(1));
            assert(events@ =~= all.skip(all.len() - events@.len()));
        }
    }
}

/// The sequence number of the latest request among the first `n` events.
pub open spec fn highest_sequence(events: Seq<AdminAuditEvent>, n: nat) -> Option<u64>
    decreases n,
{
    if n == 0 {
        None
    } else {
        let before = highest_sequence(events, (n - 1) as nat);
        match sequence_of(events[n - 1].request_id@) {
            Some(sequence) => match before {
                Some(highest) => Some(larger(sequence, highest)),
                None => Some(sequence),
            },
            None => before,
        }
    }
}

/// The sequence number in a request's name.
pub open spec fn sequence_of(request_id: Seq<char>) -> Option<u64> {
    match after_prefix(request_id, "admin-"@) {
        Some(suffix) => match unsigned(suffix, 16, u64::MAX as nat) {
            Some(n) => Some(n as u64),
            None => None,
        },
        None => None,
    }
}

/// The sequence number that follows those of some events.
pub open spec fn next_sequence(events: Seq<AdminAuditEvent>) -> u64 {
    match highest_sequence(events, events.len()) {
        Some(sequence) => if sequence == u64::MAX {
            u64::MAX
        } else {
            (sequence + 1) as u64
        },
        None => 1,
    }
}

/// The sequence number that follows those of some events.
pub fn next_admin_sequence_from_events(events: &Vec<AdminAuditEvent>) -> (r: u64)
    ensures
        r == next_sequence(events@),
{
    let mut highest: Option<u64> = None;
    let mut i: usize = 0;
    while i < events.len()
        invariant
            i <= events@.len(),
            highest == highest_sequence(events@, i as nat),
        decreases events@.len() - i,
    {
        let sequence = match strip_prefix(events[i].request_id.as_str(), "admin-") {
            Some(suffix) => parse_unsigned(suffix.as_str(), 16, u64::MAX),
            None => None,
        };
        match sequence {
            Some(sequence) => {
                highest = match highest {
                    Some(before) => Some(
                        if sequence >= before {
                            sequence
                        } else {
                            before
                        },
                    ),
                    None => Some(sequence),
                };
            },
            None => {},
        }
        i = i + 1;
    }
    match highest {
        Some(sequence) => if sequence == u64::MAX {
            u64::MAX
        } else {
            sequence + 1
        },
        None => 1,
    }
}

/// The name of the request with a sequence number.
pub open spec fn request_name(sequence: u64) -> Seq<char> {
    "admin-"@ + hex_padded(sequence as nat, 16)
}

impl WorkspaceServeState {
    /// The events that are kept are never more than their capacity allows.
    pub open spec fn wf(self) -> bool {
        self.recent_admin_audit@.len() <= kept_events(self.admin_audit_capacity)
    }

    /// The state of a workspace that starts to serve a configuration file.
    pub fn new(config_path: String) -> (r: Self)
        ensures
            r.config_path == config_path,
            r.proxied_connections == 0,
            r.proxied_requests == 0,
            r.admin_requests == 0,
            r.reload_requests == 0,
            r.reload_success_count == 0,
            r.reload_failure_count == 0,
            r.reload_total_duration_ms == 0,
            r.reload_max_duration_ms == 0,
            r.last_reload_duration_ms == 0,
            r.last_successful_reload_duration_ms == 0,
            r.last_failed_reload_duration_ms == 0,
            r.reload_drained_listener_count == 0,
            r.reload_completed_drain_count == 0,
            r.reload_drain_timeout_count == 0,
            r.restart_requests == 0,
            r.restart_success_count == 0,
            r.restart_failure_count == 0,
            r.last_restart_duration_ms == 0,
            r.last_successful_restart_duration_ms == 0,
            r.last_failed_restart_duration_ms == 0,
            health_at(r.reload_health) is NotRequested,
            r.admin_audit_sequence == 1,
            r.admin_audit_capacity == ADMIN_AUDIT_DEFAULT_CAPACITY,
            r.last_reload_outcome_code@ == "not_requested"@,
            r.last_reload_result@ == "not requested"@,
            r.last_restart_outcome_code@ == "not_requested"@,
            r.last_restart_result@ == "not requested"@,
            r.recent_admin_audit@.len() == 0,
            r.control_plane_journal.journal_path@ == config_path@ + ".control-plane.json"@,
            r.control_plane_journal.desired_snapshot is None,
            r.control_plane_journal.applied_snapshot is None,
            r.control_plane_journal.in_flight_operation is None,
            r.control_plane_journal.recovery.state@ == "none"@,
            r.wf(),
    {
        let control_plane_journal = ControlPlaneJournalRuntime::new(config_path.as_str());
        WorkspaceServeState {
            config_path,
            proxied_connections: 0,
            proxied_requests: 0,
            admin_requests: 0,
            reload_requests: 0,
            reload_success_count: 0,
            reload_failure_count: 0,
            reload_total_duration_ms: 0,
            reload_max_duration_ms: 0,
            last_reload_duration_ms: 0,
            last_successful_reload_duration_ms: 0,
            last_failed_reload_duration_ms: 0,
            reload_drained_listener_count: 0,
            reload_completed_drain_count: 0,
            reload_drain_timeout_count: 0,
            restart_requests: 0,
            restart_success_count: 0,
            restart_failure_count: 0,
            last_restart_duration_ms: 0,
            last_successful_restart_duration_ms: 0,
            last_failed_restart_duration_ms: 0,
            reload_health: reload_health_index(ReloadHealthState::NotRequested),
            admin_audit_sequence: 1,
            admin_audit_capacity: ADMIN_AUDIT_DEFAULT_CAPACITY,
            last_reload_outcome_code: text("not_requested"),
            last_reload_result: text("not requested"),
            last_restart_outcome_code: text("not_requested"),
            last_restart_result: text("not requested"),
            recent_admin_audit: Vec::new(),
            control_plane_journal,
        }
    }

    /// How the latest reload went.
    pub fn reload_health(&self) -> (r: ReloadHealthState)
        ensures
            r == health_at(self.reload_health),
    {
        reload_health_from_index(self.reload_health)
    }

    /// The state after a connection was proxied with some requests.
    pub open spec fn with_proxied(self, requests: u64) -> Self {
        WorkspaceServeState {
            proxied_connections: self.proxied_connections.wrapping_add(1),
            proxied_requests: self.proxied_requests.wrapping_add(requests),
            ..self
        }
    }

    /// Counts a connection that was proxied.
    pub fn record_proxied_connection(&mut self, requests: u64)
        ensures
            *final(self) == old(self).with_proxied(requests),
    {
        self.proxied_connections = self.proxied_connections.wrapping_add(1);
        self.proxied_requests = self.proxied_requests.wrapping_add(requests);
    }

    /// Counts a request to the administration interface.
    pub fn record_admin_request(&mut self)
        ensures
            *final(self) == (WorkspaceServeState {
                admin_requests: old(self).admin_requests.wrapping_add(1),
                ..*old(self)
            }),
    {
        self.admin_requests = self.admin_requests.wrapping_add(1);
    }

    /// The state after a reload took some time.
    pub open spec fn with_reload_duration(self, duration_ms: u64, succeeded: bool) -> Self {
        WorkspaceServeState {
            reload_total_duration_ms: self.reload_total_duration_ms.wrapping_add(duration_ms),
            reload_max_duration_ms: larger(self.reload_max_duration_ms, duration_ms),
            last_reload_duration_ms: duration_ms,
            last_successful_reload_duration_ms: if succeeded {
                duration_ms
            } else {
                self.last_successful_reload_duration_ms
            },
            last_failed_reload_duration_ms: if succeeded {
                self.last_failed_reload_duration_ms
            } else {
                duration_ms
            },
            ..self
        }
    }

    /// Takes note of how long a reload took.
    pub fn record_reload_duration(&mut self, duration_ms: u64, succeeded: bool)
        ensures
            *final(self) == old(self).with_reload_duration(duration_ms, succeeded),
            final(self).reload_max_duration_ms >= final(self).last_reload_duration_ms,
    {
        self.reload_total_duration_ms = self.reload_total_duration_ms.wrapping_add(duration_ms);
        if duration_ms > self.reload_max_duration_ms {
            self.reload_max_duration_ms = duration_ms;
        }
        self.last_reload_duration_ms = duration_ms;
        if succeeded {
            self.last_successful_reload_duration_ms = duration_ms;
        } else {
            self.last_failed_reload_duration_ms = duration_ms;
        }
    }

    /// The state after a restart took some time.
    pub open spec fn with_restart_duration(self, duration_ms: u64, succeeded: bool) -> Self {
        WorkspaceServeState {
            last_restart_duration_ms: duration_ms,
            last_successful_restart_duration_ms: if succeeded {
                duration_ms
            } else {
                self.last_successful_restart_duration_ms
            },
            last_failed_restart_duration_ms: if succeeded {
                self.last_failed_restart_duration_ms
            } else {
                duration_ms
            },
            ..self
        }
    }

    /// Takes note of how long a restart took.
    pub fn record_restart_duration(&mut self, duration_ms: u64, succeeded: bool)
        ensures
            *final(self) == old(self).with_restart_duration(duration_ms, succeeded),
    {
        self.last_restart_duration_ms = duration_ms;
        if succeeded {
            self.last_successful_restart_duration_ms = duration_ms;
        } else {
            self.last_failed_restart_duration_ms = duration_ms;
        }
    }

    /// The state after a reload drained listeners.
    pub open spec fn with_drains(self, outcome: ReloadApplyOutcome) -> Self {
        WorkspaceServeState {
            reload_drained_listener_count: self.reload_drained_listener_count.wrapping_add(
                outcome.drained_listener_count as u64,
            ),
            reload_completed_drain_count: self.reload_completed_drain_count.wrapping_add(
                outcome.completed_drain_count as u64,
            ),
            reload_drain_timeout_count: self.reload_drain_timeout_count.wrapping_add(
                outcome.drain_timeout_count as u64,
            ),
            ..self
        }
    }

    /// Counts the listeners that a reload drained.
    pub fn record_reload_drain_outcome(&mut self, outcome: &ReloadApplyOutcome)
        ensures
            *final(self) == old(self).with_drains(*outcome),
    {
        self.reload_drained_listener_count =
        self.reload_drained_listener_count.wrapping_add(outcome.drained_listener_count as u64);
        self.reload_completed_drain_count =
        self.reload_completed_drain_count.wrapping_add(outcome.completed_drain_count as u64);
        self.reload_drain_timeout_count =
        self.reload_drain_timeout_count.wrapping_add(outcome.drain_timeout_count as u64);
    }

    /// Sets how many events of the administration interface are kept from the next one on.
    pub fn set_admin_audit_capacity(&mut self, capacity: usize)
        ensures
            *final(self) == (WorkspaceServeState {
                admin_audit_capacity: kept_events(capacity),
                ..*old(self)
            }),
    {
        self.admin_audit_capacity = if capacity == 0 {
            1
        } else {
            capacity
        };
    }

    /// Keeps an event of the administration interface; the oldest give way.
    pub fn record_admin_audit(&mut self, event: AdminAuditEvent)
        ensures
            final(self).recent_admin_audit@ == latest(
                old(self).recent_admin_audit@.push(event),
                kept_events(old(self).admin_audit_capacity),
            ),
            *final(self) == (WorkspaceServeState {
                recent_admin_audit: final(self).recent_admin_audit,
                ..*old(self)
            }),
            final(self).wf(),
    {
        let max_events: usize = if self.admin_audit_capacity == 0 {
            1
        } else {
            self.admin_audit_capacity
        };
        self.recent_admin_audit.push(event);
        keep_latest(&mut self.recent_admin_audit, max_events);
    }

    /// Names the next request to the administration interface.
    pub fn next_admin_request_id(&mut self) -> (r: String)
        ensures
            r@ == request_name(old(self).admin_audit_sequence),
            *final(self) == (WorkspaceServeState {
                admin_audit_sequence: old(self).admin_audit_sequence.wrapping_add(1),
                ..*old(self)
            }),
    {
        let sequence = self.admin_audit_sequence;
        self.admin_audit_sequence = sequence.wrapping_add(1);
        let mut out = text("admin-");
        let digits = hex_text_16(sequence);
        out.append(digits.as_str());
        out
    }

    /// The journal with the operation that is about to start.
    pub fn prepare_reload_persistence(&mut self, operation: JournalInFlightOperation)
        ensures
            final(self).control_plane_journal.desired_snapshot == Some(operation.desired_snapshot),
            final(self).control_plane_journal.in_flight_operation == Some(operation),
            *final(self) == (WorkspaceServeState {
                control_plane_journal: ControlPlaneJournalRuntime {
                    desired_snapshot: final(self).control_plane_journal.desired_snapshot,
                    in_flight_operation: final(self).control_plane_journal.in_flight_operation,
                    ..old(self).control_plane_journal
                },
                ..*old(self)
            }),
    {
        self.control_plane_journal.desired_snapshot = Some(operation.desired_snapshot.clone());
        self.control_plane_journal.in_flight_operation = Some(operation);
    }

    /// Whether the journal still waits for an operator and a reload settles that.
    pub open spec fn settles(self, resolve_recovery: bool) -> bool {
        resolve_recovery && self.control_plane_journal.recovery.state@ == "needs_operator_action"@
    }

    /// Takes the operation out of the journal that has come to its end. A reload that an operator
    /// asked for settles what the latest restart left open.
    pub fn finish_reload_persistence(
        &mut self,
        applied_snapshot: Option<DurableSnapshotIdentity>,
        resolve_recovery: bool,
        now_ms: u64,
    )
        ensures
            final(self).control_plane_journal.in_flight_operation is None,
            final(self).control_plane_journal.applied_snapshot == (match applied_snapshot {
                Some(snapshot) => Some(snapshot),
                None => old(self).control_plane_journal.applied_snapshot,
            }),
            old(self).settles(resolve_recovery) ==> {
                let recovery = final(self).control_plane_journal.recovery;
                &&& recovery.state@ == "resolved"@
                &&& recovery.detail@
                    == "operator completed a subsequent reload after startup recovery"@
                &&& recovery.last_persisted_at_unix_ms == Some(now_ms)
                &&& recovery.restored_reload_health matches Some(name) && name@ == health_name(
                    health_at(old(self).reload_health),
                )
                &&& recovery.restored_last_reload_outcome_code == Some(
                    old(self).last_reload_outcome_code,
                )
                &&& recovery.in_flight_operation is None
                &&& recovery.reconciled_listeners
                    == old(self).control_plane_journal.recovery.reconciled_listeners
            },
            !old(self).settles(resolve_recovery) ==> final(self).control_plane_journal.recovery
                == old(self).control_plane_journal.recovery,
            *final(self) == (WorkspaceServeState {
                control_plane_journal: ControlPlaneJournalRuntime {
                    applied_snapshot: final(self).control_plane_journal.applied_snapshot,
                    in_flight_operation: None,
                    recovery: final(self).control_plane_journal.recovery,
                    ..old(self).control_plane_journal
                },
                ..*old(self)
            }),
    {
        let current_reload_health = text(reload_health_name(self.reload_health()));
        match applied_snapshot {
            Some(snapshot) => {
                self.control_plane_journal.applied_snapshot = Some(snapshot);
            },
            None => {},
        }
        self.control_plane_journal.in_flight_operation = None;
        if resolve_recovery && str_eq(
            self.control_plane_journal.recovery.state.as_str(),
            "needs_operator_action",
        ) {
            self.control_plane_journal.recovery.state = text("resolved");
            self.control_plane_journal.recovery.detail = text(
                "operator completed a subsequent reload after startup recovery",
            );
            self.control_plane_journal.recovery.last_persisted_at_unix_ms = Some(now_ms);
            self.control_plane_journal.recovery.restored_reload_health = Some(
                current_reload_health,
            );
            self.control_plane_journal.recovery.restored_last_reload_outcome_code = Some(
                self.last_reload_outcome_code.clone(),
            );
            self.control_plane_journal.recovery.in_flight_operation = None;
        }
    }

    /// Finds out how the listeners stand that an unfinished operation touched.
    pub fn reconcile_control_plane_recovery(&mut self, listener_statuses: &Vec<ListenerStatus>)
        ensures
            match old(self).control_plane_journal.recovery.in_flight_operation {
                Some(operation) => {
                    let found = final(self).control_plane_journal.recovery.reconciled_listeners@;
                    &&& found.len() == operation.affected_listeners@.len()
                    &&& forall|i: int|
                        0 <= i < operation.affected_listeners@.len() ==> (
                        #[trigger] found[i]).finds(
                            operation.affected_listeners@[i]@,
                            listener_statuses@,
                        )
                },
                None => final(self).control_plane_journal.recovery.reconciled_listeners@.len() == 0,
            },
            *final(self) == (WorkspaceServeState {
                control_plane_journal: ControlPlaneJournalRuntime {
                    recovery: ControlPlaneRecoveryInfo {
                        reconciled_listeners: final(
                            self
                        ).control_plane_journal.recovery.reconciled_listeners,
                        ..old(self).control_plane_journal.recovery
                    },
                    ..old(self).control_plane_journal
                },
                ..*old(self)
            }),
    {
        self.control_plane_journal.recovery.reconcile_with_listener_statuses(listener_statuses);
    }
}

fn copy_events(list: &Vec<AdminAuditEvent>) -> (r: Vec<AdminAuditEvent>)
    ensures
        r@ == list@,
{
    let mut out: Vec<AdminAuditEvent> = Vec::new();
    let mut i: usize = 0;
    while i < list.len()
        invariant
            i <= list@.len(),
            out@ == list@.take(i as int),
        decreases list@.len() - i,
    {
        out.push(list[i].clone());
        i = i + 1;
        proof {
            assert(out@ =~= list@.take(i as int));
        }
    }
    proof {
        assert(list@.take(list@.len() as int) =~= list@);
    }
    out
}

/// What is said of a reload that a restart found unfinished.
pub open spec fn unfinished_reload_detail(operation: JournalInFlightOperation) -> Seq<char> {
    "startup recovery detected unfinished reload for desired snapshot "@
        + operation.desired_snapshot.digest_sha256@
        + "; operator must validate and reload again"@
}

/// Whether an event records that a restart found a reload unfinished.
pub open spec fn records_recovery(
    event: AdminAuditEvent,
    operation: JournalInFlightOperation,
    observed_at_ms: u64,
    named_at_ms: u64,
) -> bool {
    &&& event.observed_at_unix_ms == observed_at_ms
    &&& event.request_id@ == "recovery-"@ + hex_padded(named_at_ms as nat, 16)
    &&& event.listener@ == "system"@
    &&& event.actor@ == "system"@
    &&& event.auth_mode@ == "recovery"@
    &&& event.action@ == "reload_recovery"@
    &&& event.code@ == unfinished_reload_code()
    &&& event.source@ == "local"@
    &&& event.outcome@ == "needs_operator_action"@
    &&& event.detail@ == unfinished_reload_detail(operation)
}

fn recovery_event(
    operation: &JournalInFlightOperation,
    detail: &String,
    observed_at_ms: u64,
    named_at_ms: u64,
) -> (r: AdminAuditEvent)
    requires
        detail@ == unfinished_reload_detail(*operation),
    ensures
        records_recovery(r, *operation, observed_at_ms, named_at_ms),
{
    let mut request_id = text("recovery-");
    let digits = hex_text_16(named_at_ms);
    request_id.append(digits.as_str());
    AdminAuditEvent {
        observed_at_unix_ms: observed_at_ms,
        request_id,
        listener: text("system"),
        actor: text("system"),
        auth_mode: text("recovery"),
        action: text("reload_recovery"),
        code: text("reload_recovered_unfinished"),
        source: text("local"),
        outcome: text("needs_operator_action"),
        detail: detail.clone(),
    }
}

impl WorkspaceServeState {
    /// The state that the journal carries at `now_ms`.
    pub open spec fn journals(self, payload: ControlPlaneJournalPayload, now_ms: u64) -> bool {
        &&& payload.persisted_at_unix_ms == now_ms
        &&& payload.desired_snapshot == self.control_plane_journal.desired_snapshot
        &&& payload.applied_snapshot == self.control_plane_journal.applied_snapshot
        &&& payload.reload_health@ == health_name(health_at(self.reload_health))
        &&& payload.last_reload_outcome_code == self.last_reload_outcome_code
        &&& payload.last_reload_result == self.last_reload_result
        &&& payload.recent_admin_audit@ == self.recent_admin_audit@
        &&& same_operation(
            payload.in_flight_operation,
            self.control_plane_journal.in_flight_operation,
        )
    }

    /// The state that the journal carries at `now_ms`.
    pub fn journal_payload(&self, now_ms: u64) -> (r: ControlPlaneJournalPayload)
        ensures
            self.journals(r, now_ms),
    {
        ControlPlaneJournalPayload {
            persisted_at_unix_ms: now_ms,
            desired_snapshot: copy_identity(&self.control_plane_journal.desired_snapshot),
            applied_snapshot: copy_identity(&self.control_plane_journal.applied_snapshot),
            reload_health: text(reload_health_name(self.reload_health())),
            last_reload_outcome_code: self.last_reload_outcome_code.clone(),
            last_reload_result: self.last_reload_result.clone(),
            recent_admin_audit: copy_events(&self.recent_admin_audit),
            in_flight_operation: copy_operation(&self.control_plane_journal.in_flight_operation),
        }
    }

    /// Whether this is the state `before` after the state of a journal was taken over. A reload
    /// that the journal shows unfinished has failed, and an event says so.
    pub open spec fn took_over(
        self,
        before: Self,
        payload: ControlPlaneJournalPayload,
        observed_at_ms: u64,
        named_at_ms: u64,
    ) -> bool {
        let journal = self.control_plane_journal;
        let kept = kept_events(before.admin_audit_capacity);
        &&& match payload.in_flight_operation {
            Some(operation) => {
                &&& self.reload_health == health_index(ReloadHealthState::Failed)
                &&& self.last_reload_outcome_code@ == unfinished_reload_code()
                &&& self.last_reload_result@ == unfinished_reload_detail(operation)
                &&& self.recent_admin_audit@.len() > 0
                &&& records_recovery(
                    self.recent_admin_audit@.last(),
                    operation,
                    observed_at_ms,
                    named_at_ms,
                )
                &&& self.recent_admin_audit@ == latest(
                    payload.recent_admin_audit@.push(self.recent_admin_audit@.last()),
                    kept,
                )
            },
            None => {
                &&& self.reload_health == health_index(health_named(payload.reload_health@))
                &&& self.last_reload_outcome_code == payload.last_reload_outcome_code
                &&& self.last_reload_result == payload.last_reload_result
                &&& self.recent_admin_audit@ == latest(payload.recent_admin_audit@, kept)
            },
        }
        &&& self.admin_audit_sequence == next_sequence(self.recent_admin_audit@)
        &&& journal.journal_path == before.control_plane_journal.journal_path
        &&& journal.desired_snapshot == payload.desired_snapshot
        &&& journal.applied_snapshot == payload.applied_snapshot
        &&& same_operation(journal.in_flight_operation, payload.in_flight_operation)
        &&& journal.recovery.restores(payload)
        &&& self == (WorkspaceServeState {
            reload_health: self.reload_health,
            last_reload_outcome_code: self.last_reload_outcome_code,
            last_reload_result: self.last_reload_result,
            recent_admin_audit: self.recent_admin_audit,
            admin_audit_sequence: self.admin_audit_sequence,
            control_plane_journal: self.control_plane_journal,
            ..before
        })
        &&& self.wf()
    }

    /// Takes over the state of a journal whose frame was found intact. The result says whether
    /// the journal has to be written again.
    pub fn restore_control_plane_journal(
        &mut self,
        payload: &ControlPlaneJournalPayload,
        observed_at_ms: u64,
        named_at_ms: u64,
    ) -> (r: bool)
        ensures
            final(self).took_over(*old(self), *payload, observed_at_ms, named_at_ms),
            r == (payload.in_flight_operation is Some),
    {
        let max_events: usize = if self.admin_audit_capacity == 0 {
            1
        } else {
            self.admin_audit_capacity
        };
        let mut events = copy_events(&payload.recent_admin_audit);
        let unfinished = match &payload.in_flight_operation {
            Some(operation) => {
                let mut detail = text(
                    "startup recovery detected unfinished reload for desired snapshot ",
                );
                detail.append(operation.desired_snapshot.digest_sha256.as_str());
                detail.append("; operator must validate and reload again");
                let event = recovery_event(operation, &detail, observed_at_ms, named_at_ms);
                events.push(event);
                self.reload_health = reload_health_index(ReloadHealthState::Failed);
                self.last_reload_outcome_code = text("reload_recovered_unfinished");
                self.last_reload_result = detail;
                true
            },
            None => {
                self.reload_health = reload_health_index(
                    reload_health_from_name(payload.reload_health.as_str()),
                );
                self.last_reload_outcome_code = payload.last_reload_outcome_code.clone();
                self.last_reload_result = payload.last_reload_result.clone();
                false
            },
        };
        keep_latest(&mut events, max_events);
        self.admin_audit_sequence = next_admin_sequence_from_events(&events);
        self.recent_admin_audit = events;
        self.control_plane_journal.desired_snapshot = copy_identity(&payload.desired_snapshot);
        self.control_plane_journal.applied_snapshot = copy_identity(&payload.applied_snapshot);
        self.control_plane_journal.in_flight_operation = copy_operation(
            &payload.in_flight_operation,
        );
        self.control_plane_journal.recovery = ControlPlaneRecoveryInfo::restored(payload);
        unfinished
    }
}

impl WorkspaceServeState {
    /// Counts a reload that was asked for.
    pub fn begin_reload(&mut self)
        ensures
            *final(self) == (WorkspaceServeState {
                reload_requests: old(self).reload_requests.wrapping_add(1),
                ..*old(self)
            }),
    {
        self.reload_requests = self.reload_requests.wrapping_add(1);
    }

    /// Counts a warm restart that was asked for.
    pub fn begin_restart(&mut self)
        ensures
            *final(self) == (WorkspaceServeState {
                restart_requests: old(self).restart_requests.wrapping_add(1),
                ..*old(self)
            }),
    {
        self.restart_requests = self.restart_requests.wrapping_add(1);
    }

    /// The state after a reload came to its end, but for what is said of it and for the journal.
    pub open spec fn with_reload_result(
        self,
        result: Result<ReloadApplyOutcome, Seq<char>>,
        duration_ms: u64,
    ) -> Self {
        let timed = self.with_reload_duration(duration_ms, result is Ok);
        match result {
            Ok(outcome) => WorkspaceServeState {
                reload_success_count: self.reload_success_count.wrapping_add(1),
                reload_health: health_index(ReloadHealthState::Healthy),
                ..timed.with_drains(outcome)
            },
            Err(_) => WorkspaceServeState {
                reload_failure_count: self.reload_failure_count.wrapping_add(1),
                reload_health: health_index(ReloadHealthState::Failed),
                ..timed
            },
        }
    }

    /// The outcome code of a reload that came to its end.
    pub open spec fn reload_code(result: Result<ReloadApplyOutcome, Seq<char>>) -> Seq<char> {
        match result {
            Ok(outcome) => outcome.success_code(),
            Err(_) => "reload_failed_apply"@,
        }
    }

    /// What is said of a reload that came to its end.
    pub open spec fn reload_detail(result: Result<ReloadApplyOutcome, Seq<char>>) -> Seq<char> {
        match result {
            Ok(outcome) => outcome.success_detail(),
            Err(error) => error,
        }
    }

    /// Takes note of the end of a reload. One that was applied makes the desired snapshot the
    /// applied one; one that failed leaves the applied snapshot as it was.
    pub fn complete_reload(
        &mut self,
        result: Result<&ReloadApplyOutcome, &str>,
        duration_ms: u64,
        desired_snapshot: &DurableSnapshotIdentity,
        resolve_recovery: bool,
        now_ms: u64,
    )
        ensures
            ({
                let ended = match result {
                    Ok(outcome) => Ok(*outcome),
                    Err(error) => Err(error@),
                };
                let journal = final(self).control_plane_journal;
                let recovery = journal.recovery;
                &&& final(self).last_reload_outcome_code@ == Self::reload_code(ended)
                &&& final(self).last_reload_result@ == Self::reload_detail(ended)
                &&& journal.in_flight_operation is None
                &&& journal.applied_snapshot == (if result is Ok {
                    Some(*desired_snapshot)
                } else {
                    old(self).control_plane_journal.applied_snapshot
                })
                &&& old(self).settles(resolve_recovery) ==> {
                    &&& recovery.state@ == "resolved"@
                    &&& recovery.detail@
                        == "operator completed a subsequent reload after startup recovery"@
                    &&& recovery.last_persisted_at_unix_ms == Some(now_ms)
                    &&& recovery.restored_reload_health matches Some(name) && name@ == (
                    if result is Ok {
                        "healthy"@
                    } else {
                        "failed"@
                    })
                    &&& recovery.restored_last_reload_outcome_code matches Some(code) && code@
                        == Self::reload_code(ended)
                    &&& recovery.in_flight_operation is None
                    &&& recovery.reconciled_listeners
                        == old(self).control_plane_journal.recovery.reconciled_listeners
                }
                &&& !old(self).settles(resolve_recovery) ==> recovery
                    == old(self).control_plane_journal.recovery
                &&& *final(self) == (WorkspaceServeState {
                    last_reload_outcome_code: final(self).last_reload_outcome_code,
                    last_reload_result: final(self).last_reload_result,
                    control_plane_journal: ControlPlaneJournalRuntime {
                        applied_snapshot: journal.applied_snapshot,
                        in_flight_operation: None,
                        recovery,
                        ..old(self).control_plane_journal
                    },
                    ..old(self).with_reload_result(ended, duration_ms)
                })
            }),
    {
        match result {
            Ok(outcome) => {
                self.record_reload_duration(duration_ms, true);
                self.reload_success_count = self.reload_success_count.wrapping_add(1);
                self.record_reload_drain_outcome(outcome);
                self.reload_health = reload_health_index(ReloadHealthState::Healthy);
                self.last_reload_outcome_code = text(outcome.generic_success_code());
                self.last_reload_result = outcome.generic_success_detail();
                self.finish_reload_persistence(
                    Some(desired_snapshot.clone()),
                    resolve_recovery,
                    now_ms,
                );
            },
            Err(error) => {
                self.record_reload_duration(duration_ms, false);
                self.reload_failure_count = self.reload_failure_count.wrapping_add(1);
                self.reload_health = reload_health_index(ReloadHealthState::Failed);
                self.last_reload_outcome_code = text("reload_failed_apply");
                self.last_reload_result = text(error);
                self.finish_reload_persistence(None, resolve_recovery, now_ms);
            },
        }
    }

    /// Takes note of the end of a warm restart.
    pub fn complete_restart(
        &mut self,
        plan: &ReloadAuditPlan,
        result: Result<&WarmRestartApplyOutcome, &str>,
        duration_ms: u64,
    )
        ensures
            ({
                let timed = old(self).with_restart_duration(duration_ms, result is Ok);
                match result {
                    Ok(outcome) => {
                        &&& final(self).last_restart_outcome_code@
                            == plan.restart_success_code_text(*outcome)
                        &&& final(self).last_restart_result@ == plan.restart_success_detail_text(
                            *outcome,
                        )
                        &&& *final(self) == (WorkspaceServeState {
                            restart_success_count: old(self).restart_success_count.wrapping_add(1),
                            last_restart_outcome_code: final(self).last_restart_outcome_code,
                            last_restart_result: final(self).last_restart_result,
                            ..timed
                        })
                    },
                    Err(error) => {
                        &&& final(self).last_restart_outcome_code@
                            == plan.restart_failure_code_text()
                        &&& final(self).last_restart_result@ == plan.restart_failure_detail_text(
                            error@,
                        )
                        &&& *final(self) == (WorkspaceServeState {
                            restart_failure_count: old(self).restart_failure_count.wrapping_add(1),
                            last_restart_outcome_code: final(self).last_restart_outcome_code,
                            last_restart_result: final(self).last_restart_result,
                            ..timed
                        })
                    },
                }
            }),
    {
        match result {
            Ok(outcome) => {
                self.record_restart_duration(duration_ms, true);
                self.restart_success_count = self.restart_success_count.wrapping_add(1);
                self.last_restart_outcome_code = text(plan.restart_success_code(outcome));
                self.last_restart_result = plan.restart_success_detail(outcome);
            },
            Err(error) => {
                self.record_restart_duration(duration_ms, false);
                self.restart_failure_count = self.restart_failure_count.wrapping_add(1);
                self.last_restart_outcome_code = text(plan.restart_failure_code());
                self.last_restart_result = plan.restart_failure_detail(error);
            },
        }
    }

    /// The counters of a status report.
    pub open spec fn counters_json(self, uptime_secs: u64) -> Seq<char> {
        "{\n  \"service\": \"lb-dataplane\",\n  \"mode\": \"workspace\",\n  \"config_path\": \""@
            + escaped(self.config_path@) + "\",\n  \"uptime_secs\": "@ + decimal(uptime_secs as nat)
            + ",\n  \"proxied_connections\": "@ + decimal(self.proxied_connections as nat)
            + ",\n  \"proxied_requests\": "@ + decimal(self.proxied_requests as nat)
            + ",\n  \"admin_requests\": "@ + decimal(self.admin_requests as nat)
            + ",\n  \"reload_requests\": "@ + decimal(self.reload_requests as nat)
            + ",\n  \"reload_success_count\": "@ + decimal(self.reload_success_count as nat)
            + ",\n  \"reload_failure_count\": "@ + decimal(self.reload_failure_count as nat)
            + ",\n  \"reload_total_duration_ms\": "@ + decimal(
            self.reload_total_duration_ms as nat,
        ) + ",\n  \"reload_max_duration_ms\": "@ + decimal(self.reload_max_duration_ms as nat)
            + ",\n  \"reload_last_duration_ms\": "@ + decimal(self.last_reload_duration_ms as nat)
            + ",\n  \"reload_last_success_duration_ms\": "@ + decimal(
            self.last_successful_reload_duration_ms as nat,
        ) + ",\n  \"reload_last_failure_duration_ms\": "@ + decimal(
            self.last_failed_reload_duration_ms as nat,
        ) + ",\n  \"reload_drained_listener_count\": "@ + decimal(
            self.reload_drained_listener_count as nat,
        ) + ",\n  \"reload_completed_drain_count\": "@ + decimal(
            self.reload_completed_drain_count as nat,
        ) + ",\n  \"reload_drain_timeout_count\": "@ + decimal(
            self.reload_drain_timeout_count as nat,
        )
    }

    fn counters_text(&self, uptime_secs: u64) -> (r: String)
        ensures
            r@ == self.counters_json(uptime_secs),
    {
        let mut out = text(
            "{\n  \"service\": \"lb-dataplane\",\n  \"mode\": \"workspace\",\n  \"config_path\": \"",
        );
        put_escaped(&mut out, self.config_path.as_str());
        out.append("\",\n  \"uptime_secs\": ");
        put_number(&mut out, uptime_secs);
        out.append(",\n  \"proxied_connections\": ");
        put_number(&mut out, self.proxied_connections);
        out.append(",\n  \"proxied_requests\": ");
        put_number(&mut out, self.proxied_requests);
        out.append(",\n  \"admin_requests\": ");
        put_number(&mut out, self.admin_requests);
        out.append(",\n  \"reload_requests\": ");
        put_number(&mut out, self.reload_requests);
        out.append(",\n  \"reload_success_count\": ");
        put_number(&mut out, self.reload_success_count);
        out.append(",\n  \"reload_failure_count\": ");
        put_number(&mut out, self.reload_failure_count);
        out.append(",\n  \"reload_total_duration_ms\": ");
        put_number(&mut out, self.reload_total_duration_ms);
        out.append(",\n  \"reload_max_duration_ms\": ");
        put_number(&mut out, self.reload_max_duration_ms);
        out.append(",\n  \"reload_last_duration_ms\": ");
        put_number(&mut out, self.last_reload_duration_ms);
        out.append(",\n  \"reload_last_success_duration_ms\": ");
        put_number(&mut out, self.last_successful_reload_duration_ms);
        out.append(",\n  \"reload_last_failure_duration_ms\": ");
        put_number(&mut out, self.last_failed_reload_duration_ms);
        out.append(",\n  \"reload_drained_listener_count\": ");
        put_number(&mut out, self.reload_drained_listener_count);
        out.append(",\n  \"reload_completed_drain_count\": ");
        put_number(&mut out, self.reload_completed_drain_count);
        out.append(",\n  \"reload_drain_timeout_count\": ");
        put_number(&mut out, self.reload_drain_timeout_count);
        out
    }

    /// What a status report says of restarts and of the latest outcomes.
    pub open spec fn outcomes_json(self) -> Seq<char> {
        ",\n  \"restart_requests\": "@ + decimal(self.restart_requests as nat)
            + ",\n  \"restart_success_count\": "@ + decimal(self.restart_success_count as nat)
            + ",\n  \"restart_failure_count\": "@ + decimal(self.restart_failure_count as nat)
            + ",\n  \"restart_last_duration_ms\": "@ + decimal(self.last_restart_duration_ms as nat)
            + ",\n  \"restart_last_success_duration_ms\": "@ + decimal(
            self.last_successful_restart_duration_ms as nat,
        ) + ",\n  \"restart_last_failure_duration_ms\": "@ + decimal(
            self.last_failed_restart_duration_ms as nat,
        ) + ",\n  \"last_restart_outcome_code\": \""@ + escaped(self.last_restart_outcome_code@)
            + "\",\n  \"reload_health\": \""@ + health_name(health_at(self.reload_health))
            + "\",\n  \"last_reload_outcome_code\": \""@ + escaped(self.last_reload_outcome_code@)
            + "\",\n  \"admin_audit_events\": "@ + decimal(self.recent_admin_audit@.len())
            + ",\n  \"last_reload_result\": \""@ + escaped(self.last_reload_result@)
    }

    fn outcomes_text(&self) -> (r: String)
        ensures
            r@ == self.outcomes_json(),
    {
        let mut out = text(",\n  \"restart_requests\": ");
        put_number(&mut out, self.restart_requests);
        out.append(",\n  \"restart_success_count\": ");
        put_number(&mut out, self.restart_success_count);
        out.append(",\n  \"restart_failure_count\": ");
        put_number(&mut out, self.restart_failure_count);
        out.append(",\n  \"restart_last_duration_ms\": ");
        put_number(&mut out, self.last_restart_duration_ms);
        out.append(",\n  \"restart_last_success_duration_ms\": ");
        put_number(&mut out, self.last_successful_restart_duration_ms);
        out.append(",\n  \"restart_last_failure_duration_ms\": ");
        put_number(&mut out, self.last_failed_restart_duration_ms);
        out.append(",\n  \"last_restart_outcome_code\": \"");
        put_escaped(&mut out, self.last_restart_outcome_code.as_str());
        out.append("\",\n  \"reload_health\": \"");
        out.append(reload_health_name(self.reload_health()));
        out.append("\",\n  \"last_reload_outcome_code\": \"");
        put_escaped(&mut out, self.last_reload_outcome_code.as_str());
        out.append("\",\n  \"admin_audit_events\": ");
        put_number(&mut out, self.recent_admin_audit.len() as u64);
        out.append(",\n  \"last_reload_result\": \"");
        put_escaped(&mut out, self.last_reload_result.as_str());
        out
    }

    /// A status report.
    pub open spec fn status_json(
        self,
        uptime_secs: u64,
        admin_auth: Seq<char>,
        journal: Seq<char>,
        readiness: WorkspaceReadinessStatus,
        listeners: Seq<ListenerStatus>,
        overload_events: Seq<OverloadEventStatus>,
    ) -> Seq<char> {
        self.counters_json(uptime_secs) + self.outcomes_json() + "\",\n  \"admin_auth\": "@
            + admin_auth + ",\n  \"control_plane_journal\": "@ + journal
            + ",\n  \"readiness\": "@ + readiness.json() + ",\n  \"listeners\": [\n"@ + indented(
            status_list(listeners),
        ) + "\n  ],\n  \"recent_overload_events\": [\n"@ + indented(
            event_list(overload_events, ",\n"@),
        ) + "\n  ]\n}\n"@
    }

    /// Whether a text is the status report at `now_ms`.
    pub open spec fn reports_status(
        self,
        report: Seq<char>,
        uptime_secs: u64,
        now_ms: u64,
        admin_auth: Seq<char>,
        listeners: Seq<ListenerStatus>,
        overload_events: Seq<OverloadEventStatus>,
    ) -> bool {
        exists|journal: Seq<char>, readiness: WorkspaceReadinessStatus|
            {
                &&& #[trigger] self.control_plane_journal.status_json_at(now_ms, journal)
                &&& #[trigger] readiness.evaluates(listeners, health_at(self.reload_health))
                &&& report == self.status_json(
                    uptime_secs,
                    admin_auth,
                    journal,
                    readiness,
                    listeners,
                    overload_events,
                )
            }
    }

    /// The status report at `now_ms`.
    pub fn status_body(
        &self,
        uptime_secs: u64,
        now_ms: u64,
        admin_auth: &str,
        listeners: &Vec<ListenerStatus>,
        overload_events: &Vec<OverloadEventStatus>,
    ) -> (r: String)
        ensures
            self.reports_status(
                r@,
                uptime_secs,
                now_ms,
                admin_auth@,
                listeners@,
                overload_events@,
            ),
    {
        let readiness = evaluate_workspace_readiness(listeners, self.reload_health());
        let journal = self.control_plane_journal.to_status_json_at(now_ms);
        let mut out = self.counters_text(uptime_secs);
        let outcomes = self.outcomes_text();
        out.append(outcomes.as_str());
        out.append("\",\n  \"admin_auth\": ");
        out.append(admin_auth);
        out.append(",\n  \"control_plane_journal\": ");
        out.append(journal.as_str());
        out.append(",\n  \"readiness\": ");
        let ready = readiness.to_json();
        out.append(ready.as_str());
        out.append(",\n  \"listeners\": [\n");
        let list = indent(listeners_text(listeners));
        out.append(list.as_str());
        out.append("\n  ],\n  \"recent_overload_events\": [\n");
        let events = indent(events_text(overload_events, ",\n"));
        out.append(events.as_str());
        out.append("\n  ]\n}\n");
        proof {
            assert(self.control_plane_journal.status_json_at(now_ms, journal@));
            assert(readiness.evaluates(listeners@, health_at(self.reload_health)));
        }
        out
    }
}

/// A text with four spaces before it, unless it is empty.
pub open spec fn indented(s: Seq<char>) -> Seq<char> {
    if s.len() == 0 {
        s
    } else {
        "    "@ + s
    }
}

fn indent(s: String) -> (r: String)
    ensures
        r@ == indented(s@),
{
    if s.as_str().is_empty() {
        s
    } else {
        let mut out = text("    ");
        out.append(s.as_str());
        out
    }
}

/// Reports of listeners as the lines of a JSON array.
pub open spec fn status_list(list: Seq<ListenerStatus>) -> Seq<char> {
    joined(list.map_values(|status: ListenerStatus| status.json()), ",\n"@)
}

fn listeners_text(list: &Vec<ListenerStatus>) -> (r: String)
    ensures
        r@ == status_list(list@),
{
    let mut items: Vec<String> = Vec::new();
    let mut i: usize = 0;
    while i < list.len()
        invariant
            i <= list@.len(),
            items@.len() == i,
            forall|j: int| 0 <= j < i ==> (#[trigger] items@[j])@ == list@[j].json(),
        decreases list@.len() - i,
    {
        items.push(list[i].to_json());
        i = i + 1;
    }
    proof {
        assert(texts(items@) =~= list@.map_values(|status: ListenerStatus| status.json()));
    }
    join(&items, ",\n")
}

/// An event of the telemetry.
#[derive(Debug)]
pub struct TelemetryEvent {
    /// Whether it is about overload.
    pub about_overload: bool,
    pub code: String,
    pub scope: String,
    pub detail: String,
}

impl Clone for TelemetryEvent {
    fn clone(&self) -> (r: Self)
        ensures
            r == *self,
    {
        TelemetryEvent {
            about_overload: self.about_overload,
            code: self.code.clone(),
            scope: self.scope.clone(),
            detail: self.detail.clone(),
        }
    }
}

/// The events about overload among the first `n`, in their order.
pub open spec fn overload_events(events: Seq<TelemetryEvent>, n: nat) -> Seq<OverloadEventStatus>
    decreases n,
{
    if n == 0 {
        Seq::empty()
    } else {
        let before = overload_events(events, (n - 1) as nat);
        let event = events[n - 1];
        if event.about_overload {
            before.push(
                OverloadEventStatus { code: event.code, scope: event.scope, detail: event.detail },
            )
        } else {
            before
        }
    }
}

/// The events about overload, as they are reported.
pub fn report_overload_events(events: &Vec<TelemetryEvent>) -> (r: Vec<OverloadEventStatus>)
    ensures
        r@ == overload_events(events@, events@.len()),
{
    let mut out: Vec<OverloadEventStatus> = Vec::new();
    let mut i: usize = 0;
    while i < events.len()
        invariant
            i <= events@.len(),
            out@ == overload_events(events@, i as nat),
        decreases events@.len() - i,
    {
        if events[i].about_overload {
            let event = events[i].clone();
            out.push(
                OverloadEventStatus { code: event.code, scope: event.scope, detail: event.detail },
            );
        }
        i = i + 1;
    }
    out
}

/// Sixteen to some power.
spec fn sixteens(w: nat) -> nat
    decreases w,
{
    if w == 0 {
        1
    } else {
        16 * sixteens((w - 1) as nat)
    }
}

proof fn lemma_hex_digits(n: nat, w: nat)
    requires
        n < sixteens(w),
    ensures
        hex_padded(n, w).len() == w,
        all_digits(hex_padded(n, w), 16),
        digits_value(hex_padded(n, w), 16) == n,
        forall|i: int| 0 <= i < w ==> #[trigger] hex_padded(n, w)[i] != '+',
    decreases w,
{
    if w > 0 {
        lemma_hex_digits(n / 16, (w - 1) as nat);
        let front = hex_padded(n / 16, (w - 1) as nat);
        let all = hex_padded(n, w);
        assert(all =~= front.push(digit_char(n % 16)));
        assert(all.drop_last() =~= front);
        assert(digit_of(digit_char(n % 16)) == n % 16);
        assert forall|i: int| 0 <= i < all.len() implies digit_of(#[trigger] all[i]) < 16 by {
            if i < w - 1 {
                assert(all[i] == front[i]);
            }
        }
        assert forall|i: int| 0 <= i < w implies #[trigger] all[i] != '+' by {
            if i < w - 1 {
                assert(all[i] == front[i]);
                assert(front[i] != '+');
            }
        }
    }
}

proof fn lemma_sequence_of_name(sequence: u64)
    ensures
        sequence_of(request_name(sequence)) == Some(sequence),
{
    assert(sequence < sixteens(16)) by {
        reveal_with_fuel(sixteens, 17);
    }
    lemma_hex_digits(sequence as nat, 16);
    let prefix = "admin-"@;
    let digits = hex_padded(sequence as nat, 16);
    let name = request_name(sequence);
    assert(name.subrange(0, prefix.len() as int) =~= prefix);
    assert(name.skip(prefix.len() as int) =~= digits);
    assert(without_plus(digits) == digits);
}

/// The name of a request bears its sequence number.
pub proof fn request_names_bear_their_number(sequence: u64)
    ensures
        sequence_of(request_name(sequence)) == Some(sequence),
{
    lemma_sequence_of_name(sequence);
}

/// Different sequence numbers give different names.
pub proof fn request_names_are_distinct(a: u64, b: u64)
    ensures
        request_name(a) == request_name(b) <==> a == b,
{
    lemma_sequence_of_name(a);
    lemma_sequence_of_name(b);
}

proof fn lemma_highest(events: Seq<AdminAuditEvent>, n: nat, i: int)
    requires
        0 <= i < n <= events.len(),
        sequence_of(events[i].request_id@) is Some,
    ensures
        highest_sequence(events, n) matches Some(highest) && highest >= sequence_of(
            events[i].request_id@,
        )->0,
    decreases n,
{
    if i < n - 1 {
        lemma_highest(events, (n - 1) as nat, i);
    }
}

/// The name of the first request after a journal was taken over is the name of none of the
/// requests whose events are kept.
pub proof fn restored_requests_get_new_names(events: Seq<AdminAuditEvent>, i: int)
    requires
        0 <= i < events.len(),
        highest_sequence(events, events.len()) != Some(u64::MAX),
    ensures
        events[i].request_id@ != request_name(next_sequence(events)),
{
    let next = next_sequence(events);
    if events[i].request_id@ == request_name(next) {
        lemma_sequence_of_name(next);
        lemma_highest(events, events.len(), i);
    }
}

/// The state after reloads came to their ends, each with its result and its duration.
pub open spec fn after_reloads(
    state: WorkspaceServeState,
    ended: Seq<(Result<ReloadApplyOutcome, Seq<char>>, u64)>,
) -> WorkspaceServeState
    decreases ended.len(),
{
    if ended.len() == 0 {
        state
    } else {
        after_reloads(state, ended.drop_last()).with_reload_result(ended.last().0, ended.last().1)
    }
}

/// Reloads are counted once each, as successes or as failures; no count and no longest duration
/// ever goes back; and the health is that of the last of them, whatever came before.
pub proof fn reloads_add_up(
    state: WorkspaceServeState,
    ended: Seq<(Result<ReloadApplyOutcome, Seq<char>>, u64)>,
)
    requires
        state.reload_success_count + state.reload_failure_count + ended.len() <= u64::MAX,
    ensures
        ({
            let after = after_reloads(state, ended);
            &&& after.reload_success_count + after.reload_failure_count
                == state.reload_success_count + state.reload_failure_count + ended.len()
            &&& after.reload_success_count >= state.reload_success_count
            &&& after.reload_failure_count >= state.reload_failure_count
            &&& after.reload_max_duration_ms >= state.reload_max_duration_ms
            &&& forall|i: int|
                0 <= i < ended.len() ==> after.reload_max_duration_ms >= (#[trigger] ended[i]).1
            &&& ended.len() > 0 ==> health_at(after.reload_health) == (if ended.last().0 is Ok {
                ReloadHealthState::Healthy
            } else {
                ReloadHealthState::Failed
            })
        }),
    decreases ended.len(),
{
    if ended.len() > 0 {
        let before = ended.drop_last();
        reloads_add_up(state, before);
        let after = after_reloads(state, ended);
        assert forall|i: int| 0 <= i < ended.len() implies after.reload_max_duration_ms >= (
        #[trigger] ended[i]).1 by {
            if i < before.len() {
                assert(before[i] == ended[i]);
            }
        }
    }
}

/// What a journal recorded of a workspace with no operation under way is what a workspace has
/// that takes the journal over, where it keeps as many events.
pub proof fn journals_restore_what_they_recorded(
    recorded: WorkspaceServeState,
    payload: ControlPlaneJournalPayload,
    persisted_at_ms: u64,
    fresh: WorkspaceServeState,
    restored: WorkspaceServeState,
    observed_at_ms: u64,
    named_at_ms: u64,
)
    requires
        recorded.journals(payload, persisted_at_ms),
        recorded.control_plane_journal.in_flight_operation is None,
        recorded.recent_admin_audit@.len() <= kept_events(fresh.admin_audit_capacity),
        restored.took_over(fresh, payload, observed_at_ms, named_at_ms),
    ensures
        health_at(restored.reload_health) == health_at(recorded.reload_health),
        restored.last_reload_outcome_code == recorded.last_reload_outcome_code,
        restored.last_reload_result == recorded.last_reload_result,
        restored.recent_admin_audit@ == recorded.recent_admin_audit@,
        restored.control_plane_journal.desired_snapshot
            == recorded.control_plane_journal.desired_snapshot,
        restored.control_plane_journal.applied_snapshot
            == recorded.control_plane_journal.applied_snapshot,
        restored.control_plane_journal.in_flight_operation is None,
{
    crate::listener_status::reload_health_survives(health_at(recorded.reload_health));
}

/// An operation that was under way when the journal was written is found again, the reload counts
/// as failed, and an operator has to act.
pub proof fn journals_restore_unfinished_operations(
    recorded: WorkspaceServeState,
    payload: ControlPlaneJournalPayload,
    persisted_at_ms: u64,
    fresh: WorkspaceServeState,
    restored: WorkspaceServeState,
    observed_at_ms: u64,
    named_at_ms: u64,
)
    requires
        recorded.journals(payload, persisted_at_ms),
        recorded.control_plane_journal.in_flight_operation is Some,
        restored.took_over(fresh, payload, observed_at_ms, named_at_ms),
    ensures
        health_at(restored.reload_health) is Failed,
        restored.last_reload_outcome_code@ == unfinished_reload_code(),
        restored.control_plane_journal.recovery.state@ == "needs_operator_action"@,
        restored.settles(true),
        restored.control_plane_journal.in_flight_operation matches Some(operation)
            && operation.same(recorded.control_plane_journal.in_flight_operation->0),
{
}

} // verus!
