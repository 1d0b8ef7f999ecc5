//! What was recovered of the control plane's state after a restart, and what an operator should
//! do about it.

use crate::clock::unix_time_ms;
use crate::control_plane_journal::{
    optional_operation_json, put_optional_operation, ControlPlaneJournalPayload,
    JournalInFlightOperation,
};
use crate::json::{
    bool_json, escaped, optional_number, optional_string, optional_view, put_bool, put_escaped,
    put_number, put_optional_number, put_optional_string,
};
use crate::listener_status::ListenerStatus;
use crate::text::{decimal, join, joined, str_eq, text, texts};
use vstd::prelude::*;
use vstd::string::*;

verus! {

/// How a listener that an unfinished operation touched was found after a restart.
#[derive(Debug)]
pub struct RecoveredListenerStatus {
    pub name: String,
    pub listener_state: String,
    pub replacement_state: String,
    pub reconciliation_verdict: String,
}

impl RecoveredListenerStatus {
    /// The verdict on a listener by its own state and that of its replacement.
    pub open spec fn verdict(listener_state: Seq<char>, replacement_state: Seq<char>) -> Seq<char> {
        if listener_state == "running"@ && replacement_state == "stable"@ {
            "settled"@
        } else if listener_state == "running"@ && replacement_state == "replacement_draining"@ {
            "replacement_still_draining"@
        } else if listener_state == "missing"@ && replacement_state == "missing"@ {
            "missing"@
        } else if replacement_state == "failed_start_preserved"@ {
            "replacement_failed_preserved"@
        } else if replacement_state == "drain_timeout_expired"@ {
            "replacement_drain_timeout"@
        } else {
            "needs_review"@
        }
    }

    /// Judges a listener by its own state and that of its replacement.
    pub fn new(name: String, listener_state: String, replacement_state: String) -> (r: Self)
        ensures
            r.name == name,
            r.listener_state == listener_state,
            r.replacement_state == replacement_state,
            r.reconciliation_verdict@ == Self::verdict(listener_state@, replacement_state@),
    {
        let l = listener_state.as_str();
        let s = replacement_state.as_str();
        let reconciliation_verdict = if str_eq(l, "running") && str_eq(s, "stable") {
            text("settled")
        } else if str_eq(l, "running") && str_eq(s, "replacement_draining") {
            text("replacement_still_draining")
        } else if str_eq(l, "missing") && str_eq(s, "missing") {
            text("missing")
        } else if str_eq(s, "failed_start_preserved") {
            text("replacement_failed_preserved")
        } else if str_eq(s, "drain_timeout_expired") {
            text("replacement_drain_timeout")
        } else {
            text("needs_review")
        };
        RecoveredListenerStatus { name, listener_state, replacement_state, reconciliation_verdict }
    }

    /// The status as a JSON object.
    pub open spec fn json(self) -> Seq<char> {
        "{\"name\":\""@ + escaped(self.name@) + "\",\"listener_state\":\""@ + escaped(
            self.listener_state@,
        ) + "\",\"replacement_state\":\""@ + escaped(self.replacement_state@)
            + "\",\"reconciliation_verdict\":\""@ + escaped(self.reconciliation_verdict@) + "\"}"@
    }

    /// The status as a JSON object.
    pub fn to_json(&self) -> (r: String)
        ensures
            r@ == self.json(),
    {
        let mut out = text("{\"name\":\"");
        put_escaped(&mut out, self.name.as_str());
        out.append("\",\"listener_state\":\"");
        put_escaped(&mut out, self.listener_state.as_str());
        out.append("\",\"replacement_state\":\"");
        put_escaped(&mut out, self.replacement_state.as_str());
        out.append("\",\"reconciliation_verdict\":\"");
        put_escaped(&mut out, self.reconciliation_verdict.as_str());
        out.append("\"}");
        out
    }
}

/// The verdicts that a summary counts.
#[derive(Debug, Clone, Copy, PartialEq, Eq, Structural)]
pub enum Verdict {
    Settled,
    StillDraining,
    FailedPreserved,
    DrainTimeout,
    Missing,
    NeedsReview,
}

/// The verdict that a text names; any other text calls for a review.
pub open spec fn verdict_named(s: Seq<char>) -> Verdict {
    if s == "settled"@ {
        Verdict::Settled
    } else if s == "replacement_still_draining"@ {
        Verdict::StillDraining
    } else if s == "replacement_failed_preserved"@ {
        Verdict::FailedPreserved
    } else if s == "replacement_drain_timeout"@ {
        Verdict::DrainTimeout
    } else if s == "missing"@ {
        Verdict::Missing
    } else {
        Verdict::NeedsReview
    }
}

fn name_verdict(s: &str) -> (r: Verdict)
    ensures
        r == verdict_named(s@),
{
    if str_eq(s, "settled") {
        Verdict::Settled
    } else if str_eq(s, "replacement_still_draining") {
        Verdict::StillDraining
    } else if str_eq(s, "replacement_failed_preserved") {
        Verdict::FailedPreserved
    } else if str_eq(s, "replacement_drain_timeout") {
        Verdict::DrainTimeout
    } else if str_eq(s, "missing") {
        Verdict::Missing
    } else {
        Verdict::NeedsReview
    }
}

/// How many of the listeners have the given verdict.
pub open spec fn verdict_count(listeners: Seq<RecoveredListenerStatus>, verdict: Verdict) -> nat
    decreases listeners.len(),
{
    if listeners.len() == 0 {
        0
    } else {
        let before = verdict_count(listeners.drop_last(), verdict);
        if verdict_named(listeners.last().reconciliation_verdict@) == verdict {
            before + 1
        } else {
            before
        }
    }
}

/// The verdict on all listeners together: the gravest that some listener has.
pub open spec fn overall_verdict(listeners: Seq<RecoveredListenerStatus>) -> Seq<char> {
    if listeners.len() == 0 {
        "none"@
    } else if verdict_count(listeners, Verdict::Missing) > 0 || verdict_count(
        listeners,
        Verdict::NeedsReview,
    ) > 0 {
        "needs_review"@
    } else if verdict_count(listeners, Verdict::FailedPreserved) > 0 {
        "replacement_failed_preserved"@
    } else if verdict_count(listeners, Verdict::DrainTimeout) > 0 {
        "replacement_drain_timeout"@
    } else if verdict_count(listeners, Verdict::StillDraining) > 0 {
        "replacement_still_draining"@
    } else {
        "settled"@
    }
}

/// What to do about an overall verdict.
pub open spec fn summary_action(verdict: Seq<char>) -> Seq<char> {
    if verdict == "none"@ {
        "none"@
    } else if verdict == "settled"@ {
        "observe_only"@
    } else if verdict == "replacement_still_draining"@ {
        "wait_for_drain_completion"@
    } else if verdict == "replacement_failed_preserved"@ {
        "validate_and_retry_reload"@
    } else if verdict == "replacement_drain_timeout"@ {
        "investigate_drain_timeout"@
    } else {
        "investigate_and_validate_reload"@
    }
}

/// How urgent an overall verdict is.
pub open spec fn summary_urgency(verdict: Seq<char>) -> Seq<char> {
    if verdict == "none"@ || verdict == "settled"@ {
        "none"@
    } else if verdict == "replacement_still_draining"@ {
        "watch"@
    } else if verdict == "replacement_failed_preserved"@ {
        "action_required"@
    } else {
        "urgent"@
    }
}

/// The verdicts on all listeners that an unfinished operation touched.
#[derive(Debug)]
pub struct RecoveryReconciliationSummary {
    pub overall_verdict: String,
    pub recommended_action: String,
    pub settled_count: usize,
    pub draining_count: usize,
    pub failed_preserved_count: usize,
    pub drain_timeout_count: usize,
    pub missing_count: usize,
    pub needs_review_count: usize,
}

/// Every listener has exactly one verdict, so the counts add up to the number of listeners.
pub proof fn verdict_counts_add_up(listeners: Seq<RecoveredListenerStatus>)
    ensures
        verdict_count(listeners, Verdict::Settled) + verdict_count(
            listeners,
            Verdict::StillDraining,
        ) + verdict_count(listeners, Verdict::FailedPreserved) + verdict_count(
            listeners,
            Verdict::DrainTimeout,
        ) + verdict_count(listeners, Verdict::Missing) + verdict_count(
            listeners,
            Verdict::NeedsReview,
        ) == listeners.len(),
    decreases listeners.len(),
{
    if listeners.len() > 0 {
        verdict_counts_add_up(listeners.drop_last());
    }
}

fn summary_action_of(verdict: &str) -> (r: String)
    ensures
        r@ == summary_action(verdict@),
{
    if str_eq(verdict, "none") {
        text("none")
    } else if str_eq(verdict, "settled") {
        text("observe_only")
    } else if str_eq(verdict, "replacement_still_draining") {
        text("wait_for_drain_completion")
    } else if str_eq(verdict, "replacement_failed_preserved") {
        text("validate_and_retry_reload")
    } else if str_eq(verdict, "replacement_drain_timeout") {
        text("investigate_drain_timeout")
    } else {
        text("investigate_and_validate_reload")
    }
}

impl RecoveryReconciliationSummary {
    /// Whether this is the summary of the given listeners.
    pub open spec fn summarizes(self, listeners: Seq<RecoveredListenerStatus>) -> bool {
        &&& self.overall_verdict@ == overall_verdict(listeners)
        &&& self.recommended_action@ == summary_action(overall_verdict(listeners))
        &&& self.settled_count == verdict_count(listeners, Verdict::Settled)
        &&& self.draining_count == verdict_count(listeners, Verdict::StillDraining)
        &&& self.failed_preserved_count == verdict_count(listeners, Verdict::FailedPreserved)
        &&& self.drain_timeout_count == verdict_count(listeners, Verdict::DrainTimeout)
        &&& self.missing_count == verdict_count(listeners, Verdict::Missing)
        &&& self.needs_review_count == verdict_count(listeners, Verdict::NeedsReview)
    }

    /// Counts the verdicts on the listeners and judges them together.
    pub fn from_reconciled_listeners(listeners: &Vec<RecoveredListenerStatus>) -> (r: Self)
        ensures
            r.summarizes(listeners@),
    {
        let mut settled_count: usize = 0;
        let mut draining_count: usize = 0;
        let mut failed_preserved_count: usize = 0;
        let mut drain_timeout_count: usize = 0;
        let mut missing_count: usize = 0;
        let mut needs_review_count: usize = 0;
        let total: usize = listeners.len();
        let mut i: usize = 0;
        while i < total
            invariant
                total == listeners@.len(),
                i <= total,
                settled_count == verdict_count(listeners@.take(i as int), Verdict::Settled),
                draining_count == verdict_count(listeners@.take(i as int), Verdict::StillDraining),
                failed_preserved_count == verdict_count(
                    listeners@.take(i as int),
                    Verdict::FailedPreserved,
                ),
                drain_timeout_count == verdict_count(
                    listeners@.take(i as int),
                    Verdict::DrainTimeout,
                ),
                missing_count == verdict_count(listeners@.take(i as int), Verdict::Missing),
                needs_review_count == verdict_count(
                    listeners@.take(i as int),
                    Verdict::NeedsReview,
                ),
            decreases total - i,
        {
            proof {
                verdict_counts_add_up(listeners@.take(i as int));
                assert(listeners@.take(i + 1).drop_last() =~= listeners@.take(i as int));
            }
            match name_verdict(listeners[i].reconciliation_verdict.as_str()) {
                Verdict::Settled => {
                    settled_count = settled_count + 1;
                },
                Verdict::StillDraining => {
                    draining_count = draining_count + 1;
                },
                Verdict::FailedPreserved => {
                    failed_preserved_count = failed_preserved_count + 1;
                },
                Verdict::DrainTimeout => {
                    drain_timeout_count = drain_timeout_count + 1;
                },
                Verdict::Missing => {
                    missing_count = missing_count + 1;
                },
                Verdict::NeedsReview => {
                    needs_review_count = needs_review_count + 1;
                },
            }
            i = i + 1;
        }
        proof {
            assert(listeners@.take(listeners@.len() as int) =~= listeners@);
        }
        let overall = if total == 0 {
            text("none")
        } else if missing_count > 0 || needs_review_count > 0 {
            text("needs_review")
        } else if failed_preserved_count > 0 {
            text("replacement_failed_preserved")
        } else if drain_timeout_count > 0 {
            text("replacement_drain_timeout")
        } else if draining_count > 0 {
            text("replacement_still_draining")
        } else {
            text("settled")
        };
        let recommended_action = summary_action_of(overall.as_str());
        RecoveryReconciliationSummary {
            overall_verdict: overall,
            recommended_action,
            settled_count,
            draining_count,
            failed_preserved_count,
            drain_timeout_count,
            missing_count,
            needs_review_count,
        }
    }

    /// How urgent the overall verdict is.
    pub fn urgency(&self) -> (r: &'static str)
        ensures
            r@ == summary_urgency(self.overall_verdict@),
    {
        let v = self.overall_verdict.as_str();
        if str_eq(v, "none") || str_eq(v, "settled") {
            "none"
        } else if str_eq(v, "replacement_still_draining") {
            "watch"
        } else if str_eq(v, "replacement_failed_preserved") {
            "action_required"
        } else {
            "urgent"
        }
    }

    /// The summary as a JSON object.
    pub open spec fn json(self) -> Seq<char> {
        "{\"overall_verdict\":\""@ + escaped(self.overall_verdict@)
            + "\",\"recommended_action\":\""@ + escaped(self.recommended_action@)
            + "\",\"settled_count\":"@ + decimal(self.settled_count as nat)
            + ",\"draining_count\":"@ + decimal(self.draining_count as nat)
            + ",\"failed_preserved_count\":"@ + decimal(self.failed_preserved_count as nat)
            + ",\"drain_timeout_count\":"@ + decimal(self.drain_timeout_count as nat)
            + ",\"missing_count\":"@ + decimal(self.missing_count as nat)
            + ",\"needs_review_count\":"@ + decimal(self.needs_review_count as nat) + "}"@
    }

    /// The summary as a JSON object.
    pub fn to_json(&self) -> (r: String)
        ensures
            r@ == self.json(),
    {
        let mut out = text("{\"overall_verdict\":\"");
        put_escaped(&mut out, self.overall_verdict.as_str());
        out.append("\",\"recommended_action\":\"");
        put_escaped(&mut out, self.recommended_action.as_str());
        out.append("\",\"settled_count\":");
        put_number(&mut out, self.settled_count as u64);
        out.append(",\"draining_count\":");
        put_number(&mut out, self.draining_count as u64);
        out.append(",\"failed_preserved_count\":");
        put_number(&mut out, self.failed_preserved_count as u64);
        out.append(",\"drain_timeout_count\":");
        put_number(&mut out, self.drain_timeout_count as u64);
        out.append(",\"missing_count\":");
        put_number(&mut out, self.missing_count as u64);
        out.append(",\"needs_review_count\":");
        put_number(&mut out, self.needs_review_count as u64);
        out.append("}");
        out
    }
}

/// What an operator should do after a restart.
#[derive(Debug)]
pub struct RecoveryOperatorGuidance {
    pub recommended_action: String,
    pub urgency: String,
    pub operation_age_ms: Option<u64>,
    pub expected_completion_within_ms: Option<u64>,
    pub exceeded_expected_completion: bool,
}

impl RecoveryOperatorGuidance {
    /// The guidance as a JSON object.
    pub open spec fn json(self) -> Seq<char> {
        "{\"recommended_action\":\""@ + escaped(self.recommended_action@) + "\",\"urgency\":\""@
            + escaped(self.urgency@) + "\",\"operation_age_ms\":"@ + optional_number(
            self.operation_age_ms,
        ) + ",\"expected_completion_within_ms\":"@ + optional_number(
            self.expected_completion_within_ms,
        ) + ",\"exceeded_expected_completion\":"@ + bool_json(self.exceeded_expected_completion)
            + "}"@
    }

    /// The guidance as a JSON object.
    pub fn to_json(&self) -> (r: String)
        ensures
            r@ == self.json(),
    {
        let mut out = text("{\"recommended_action\":\"");
        put_escaped(&mut out, self.recommended_action.as_str());
        out.append("\",\"urgency\":\"");
        put_escaped(&mut out, self.urgency.as_str());
        out.append("\",\"operation_age_ms\":");
        put_optional_number(&mut out, self.operation_age_ms);
        out.append(",\"expected_completion_within_ms\":");
        put_optional_number(&mut out, self.expected_completion_within_ms);
        out.append(",\"exceeded_expected_completion\":");
        put_bool(&mut out, self.exceeded_expected_completion);
        out.append("}");
        out
    }
}

/// What was recovered after a restart.
#[derive(Debug)]
pub struct ControlPlaneRecoveryInfo {
    pub state: String,
    pub detail: String,
    pub last_persisted_at_unix_ms: Option<u64>,
    pub restored_reload_health: Option<String>,
    pub restored_last_reload_outcome_code: Option<String>,
    pub in_flight_operation: Option<JournalInFlightOperation>,
    pub reconciled_listeners: Vec<RecoveredListenerStatus>,
}

impl Default for ControlPlaneRecoveryInfo {
    fn default() -> (r: Self)
        ensures
            r.state@ == "none"@,
            r.detail@ == "no durable control-plane state recovered"@,
            r.last_persisted_at_unix_ms is None,
            r.restored_reload_health is None,
            r.restored_last_reload_outcome_code is None,
            r.in_flight_operation is None,
            r.reconciled_listeners@.len() == 0,
    {
        ControlPlaneRecoveryInfo {
            state: text("none"),
            detail: text("no durable control-plane state recovered"),
            last_persisted_at_unix_ms: None,
            restored_reload_health: None,
            restored_last_reload_outcome_code: None,
            in_flight_operation: None,
            reconciled_listeners: Vec::new(),
        }
    }
}

/// What to do, and how urgently, while an unfinished operation waits for an operator.
pub open spec fn unfinished_guidance(verdict: Seq<char>, exceeded: bool) -> (Seq<char>, Seq<char>) {
    if verdict == "replacement_still_draining"@ {
        if exceeded {
            ("investigate_stalled_drain"@, "action_required"@)
        } else {
            ("wait_for_drain_completion"@, "watch"@)
        }
    } else if verdict == "replacement_failed_preserved"@ {
        ("validate_and_retry_reload"@, "action_required"@)
    } else if verdict == "replacement_drain_timeout"@ {
        ("investigate_drain_timeout"@, "urgent"@)
    } else if verdict == "needs_review"@ {
        ("investigate_and_validate_reload"@, "urgent"@)
    } else {
        ("validate_and_retry_reload"@, "action_required"@)
    }
}

fn guide_unfinished(verdict: &str, exceeded: bool) -> (r: (&'static str, &'static str))
    ensures
        (r.0@, r.1@) == unfinished_guidance(verdict@, exceeded),
{
    if str_eq(verdict, "replacement_still_draining") {
        if exceeded {
            ("investigate_stalled_drain", "action_required")
        } else {
            ("wait_for_drain_completion", "watch")
        }
    } else if str_eq(verdict, "replacement_failed_preserved") {
        ("validate_and_retry_reload", "action_required")
    } else if str_eq(verdict, "replacement_drain_timeout") {
        ("investigate_drain_timeout", "urgent")
    } else if str_eq(verdict, "needs_review") {
        ("investigate_and_validate_reload", "urgent")
    } else {
        ("validate_and_retry_reload", "action_required")
    }
}

impl ControlPlaneRecoveryInfo {
    /// Whether a record was restored from `payload`: an unfinished operation in it waits for an
    /// operator.
    pub open spec fn restores(self, payload: ControlPlaneJournalPayload) -> bool {
        &&& match payload.in_flight_operation {
            Some(operation) => {
                &&& self.state@ == "needs_operator_action"@
                &&& self.detail@ == "recovered unfinished "@ + operation.kind@
                    + " for desired snapshot "@ + operation.desired_snapshot.digest_sha256@
                &&& self.in_flight_operation matches Some(kept) && kept.same(operation)
            },
            None => {
                &&& self.state@ == "restored"@
                &&& self.detail@ == "restored durable control-plane state from local journal"@
                &&& self.in_flight_operation is None
            },
        }
        &&& self.last_persisted_at_unix_ms == Some(payload.persisted_at_unix_ms)
        &&& self.restored_reload_health == Some(payload.reload_health)
        &&& self.restored_last_reload_outcome_code == Some(payload.last_reload_outcome_code)
        &&& self.reconciled_listeners@.len() == 0
    }

    /// The record of what `payload` restored.
    pub fn restored(payload: &ControlPlaneJournalPayload) -> (r: Self)
        ensures
            r.restores(*payload),
    {
        let mut state = text("restored");
        let mut detail = text("restored durable control-plane state from local journal");
        let mut in_flight_operation: Option<JournalInFlightOperation> = None;
        match &payload.in_flight_operation {
            Some(operation) => {
                state = text("needs_operator_action");
                detail = text("recovered unfinished ");
                detail.append(operation.kind.as_str());
                detail.append(" for desired snapshot ");
                detail.append(operation.desired_snapshot.digest_sha256.as_str());
                in_flight_operation = Some(operation.clone());
            },
            None => {},
        }
        ControlPlaneRecoveryInfo {
            state,
            detail,
            last_persisted_at_unix_ms: Some(payload.persisted_at_unix_ms),
            restored_reload_health: Some(payload.reload_health.clone()),
            restored_last_reload_outcome_code: Some(payload.last_reload_outcome_code.clone()),
            in_flight_operation,
            reconciled_listeners: Vec::new(),
        }
    }

    /// How long the unfinished operation has run at `now_ms`.
    pub open spec fn operation_age(self, now_ms: u64) -> Option<u64> {
        match self.in_flight_operation {
            Some(operation) => Some(
                if now_ms >= operation.started_at_unix_ms {
                    (now_ms - operation.started_at_unix_ms) as u64
                } else {
                    0u64
                },
            ),
            None => None,
        }
    }

    /// How long the unfinished operation was expected to take.
    pub open spec fn expected_completion(self) -> Option<u64> {
        match self.in_flight_operation {
            Some(operation) => operation.expected_completion_within_ms,
            None => None,
        }
    }

    /// Whether the unfinished operation has run longer than expected at `now_ms`.
    pub open spec fn overdue(self, now_ms: u64) -> bool {
        match (self.operation_age(now_ms), self.expected_completion()) {
            (Some(age), Some(expected)) => age > expected,
            _ => false,
        }
    }

    /// Whether `guidance` is what an operator should do at `now_ms`.
    pub open spec fn guided_by(self, now_ms: u64, guidance: RecoveryOperatorGuidance) -> bool {
        let verdict = overall_verdict(self.reconciled_listeners@);
        let advice = if self.state@ == "needs_operator_action"@ {
            unfinished_guidance(verdict, self.overdue(now_ms))
        } else {
            (summary_action(verdict), summary_urgency(verdict))
        };
        &&& guidance.recommended_action@ == advice.0
        &&& guidance.urgency@ == advice.1
        &&& guidance.operation_age_ms == self.operation_age(now_ms)
        &&& guidance.expected_completion_within_ms == self.expected_completion()
        &&& guidance.exceeded_expected_completion == self.overdue(now_ms)
    }

    /// What an operator should do at `now_ms`.
    pub fn operator_guidance_at(&self, now_ms: u64) -> (r: RecoveryOperatorGuidance)
        ensures
            self.guided_by(now_ms, r),
    {
        let summary = RecoveryReconciliationSummary::from_reconciled_listeners(
            &self.reconciled_listeners,
        );
        let mut operation_age_ms: Option<u64> = None;
        let mut expected_completion_within_ms: Option<u64> = None;
        match &self.in_flight_operation {
            Some(operation) => {
                operation_age_ms = Some(now_ms.saturating_sub(operation.started_at_unix_ms));
                expected_completion_within_ms = operation.expected_completion_within_ms;
            },
            None => {},
        }
        let exceeded_expected_completion = match (operation_age_ms, expected_completion_within_ms) {
            (Some(age), Some(expected)) => age > expected,
            _ => false,
        };
        let mut recommended_action = String::new();
        let mut urgency = String::new();
        if str_eq(self.state.as_str(), "needs_operator_action") {
            let advice = guide_unfinished(
                summary.overall_verdict.as_str(),
                exceeded_expected_completion,
            );
            recommended_action = text(advice.0);
            urgency = text(advice.1);
        } else {
            urgency = text(summary.urgency());
            recommended_action = summary.recommended_action;
        }
        RecoveryOperatorGuidance {
            recommended_action,
            urgency,
            operation_age_ms,
            expected_completion_within_ms,
            exceeded_expected_completion,
        }
    }

    /// What an operator should do now. Which moment that is depends on the clock.
    pub fn operator_guidance(&self) -> (r: RecoveryOperatorGuidance)
        ensures
            exists|now_ms: u64| self.guided_by(now_ms, r),
    {
        let now_ms = unix_time_ms();
        self.operator_guidance_at(now_ms)
    }

    /// The record as a JSON object, given the guidance and the summary that go into it.
    pub open spec fn json_with(
        self,
        guidance: RecoveryOperatorGuidance,
        summary: RecoveryReconciliationSummary,
    ) -> Seq<char> {
        "{\"state\":\""@ + escaped(self.state@) + "\",\"detail\":\""@ + escaped(self.detail@)
            + "\",\"last_persisted_at_unix_ms\":"@ + optional_number(self.last_persisted_at_unix_ms)
            + ",\"restored_reload_health\":"@ + optional_string(
            optional_view(self.restored_reload_health),
        ) + ",\"restored_last_reload_outcome_code\":"@ + optional_string(
            optional_view(self.restored_last_reload_outcome_code),
        ) + ",\"in_flight_operation\":"@ + optional_operation_json(self.in_flight_operation)
            + ",\"operator_guidance\":"@ + guidance.json() + ",\"reconciled_listeners\":["@
            + joined(
            self.reconciled_listeners@.map_values(|l: RecoveredListenerStatus| l.json()),
            ","@,
        ) + "],\"reconciliation_summary\":"@ + summary.json() + "}"@
    }

    /// Whether a text is the record as a JSON object at `now_ms`.
    pub open spec fn json_at(self, now_ms: u64, json: Seq<char>) -> bool {
        exists|guidance: RecoveryOperatorGuidance, summary: RecoveryReconciliationSummary|
            {
                &&& self.guided_by(now_ms, guidance)
                &&& summary.summarizes(self.reconciled_listeners@)
                &&& json == #[trigger] self.json_with(guidance, summary)
            }
    }

    /// The record as a JSON object at `now_ms`.
    pub fn to_json_at(&self, now_ms: u64) -> (r: String)
        ensures
            self.json_at(now_ms, r@),
    {
        let summary = RecoveryReconciliationSummary::from_reconciled_listeners(
            &self.reconciled_listeners,
        );
        let guidance = self.operator_guidance_at(now_ms);
        let mut out = text("{\"state\":\"");
        put_escaped(&mut out, self.state.as_str());
        out.append("\",\"detail\":\"");
        put_escaped(&mut out, self.detail.as_str());
        out.append("\",\"last_persisted_at_unix_ms\":");
        put_optional_number(&mut out, self.last_persisted_at_unix_ms);
        out.append(",\"restored_reload_health\":");
        put_optional_string(&mut out, &self.restored_reload_health);
        out.append(",\"restored_last_reload_outcome_code\":");
        put_optional_string(&mut out, &self.restored_last_reload_outcome_code);
        out.append(",\"in_flight_operation\":");
        put_optional_operation(&mut out, &self.in_flight_operation);
        out.append(",\"operator_guidance\":");
        let guidance_json = guidance.to_json();
        out.append(guidance_json.as_str());
        out.append(",\"reconciled_listeners\":[");
        let listeners_json = listeners_to_json(&self.reconciled_listeners);
        out.append(listeners_json.as_str());
        out.append("],\"reconciliation_summary\":");
        let summary_json = summary.to_json();
        out.append(summary_json.as_str());
        out.append("}");
        proof {
            assert(out@ == self.json_with(guidance, summary));
        }
        out
    }

    /// The record as a JSON object now. Which moment that is depends on the clock.
    pub fn to_json(&self) -> (r: String)
        ensures
            exists|now_ms: u64| self.json_at(now_ms, r@),
    {
        let now_ms = unix_time_ms();
        self.to_json_at(now_ms)
    }
}

fn listeners_to_json(listeners: &Vec<RecoveredListenerStatus>) -> (r: String)
    ensures
        r@ == joined(listeners@.map_values(|l: RecoveredListenerStatus| l.json()), ","@),
{
    let mut items: Vec<String> = Vec::new();
    let mut i: usize = 0;
    while i < listeners.len()
        invariant
            i <= listeners@.len(),
            items@.len() == i,
            forall|j: int| 0 <= j < i ==> (#[trigger] items@[j])@ == listeners@[j].json(),
        decreases listeners@.len() - i,
    {
        items.push(listeners[i].to_json());
        i = i + 1;
    }
    proof {
        assert(texts(items@) =~= listeners@.map_values(|l: RecoveredListenerStatus| l.json()));
    }
    join(&items, ",")
}

/// The first report of a listener of some name.
pub open spec fn status_named(list: Seq<ListenerStatus>, name: Seq<char>) -> Option<ListenerStatus>
    decreases list.len(),
{
    if list.len() == 0 {
        None
    } else if list[0].name@ == name {
        Some(list[0])
    } else {
        status_named(list.drop_first(), name)
    }
}

fn find_status<'a>(list: &'a Vec<ListenerStatus>, name: &str) -> (r: Option<&'a ListenerStatus>)
    ensures
        match status_named(list@, name@) {
            Some(status) => r matches Some(found) && *found == status,
            None => r is None,
        },
{
    let mut i: usize = 0;
    proof {
        assert(list@.skip(0) =~= list@);
    }
    while i < list.len()
        invariant
            i <= list@.len(),
            status_named(list@, name@) == status_named(list@.skip(i as int), name@),
        decreases list@.len() - i,
    {
        proof {
            assert(list@.skip(i as int)[0] == list@[i as int]);
            assert(list@.skip(i as int).drop_first() =~= list@.skip(i + 1));
        }
        if str_eq(list[i].name.as_str(), name) {
            return Some(&list[i]);
        }
        i = i + 1;
    }
    None
}

impl RecoveredListenerStatus {
    /// Whether this is how a listener was found among reports. One without a report is missing.
    pub open spec fn finds(self, name: Seq<char>, list: Seq<ListenerStatus>) -> bool {
        &&& self.name@ == name
        &&& match status_named(list, name) {
            Some(status) => self.listener_state@ == status.state@ && self.replacement_state@
                == status.replacement.state@,
            None => self.listener_state@ == "missing"@ && self.replacement_state@ == "missing"@,
        }
        &&& self.reconciliation_verdict@ == Self::verdict(
            self.listener_state@,
            self.replacement_state@,
        )
    }
}

impl ControlPlaneRecoveryInfo {
    /// Finds out how the listeners stand that an unfinished operation touched.
    pub fn reconcile_with_listener_statuses(&mut self, listener_statuses: &Vec<ListenerStatus>)
        ensures
            final(self).state == old(self).state,
            final(self).detail == old(self).detail,
            final(self).last_persisted_at_unix_ms == old(self).last_persisted_at_unix_ms,
            final(self).restored_reload_health == old(self).restored_reload_health,
            final(self).restored_last_reload_outcome_code
                == old(self).restored_last_reload_outcome_code,
            final(self).in_flight_operation == old(self).in_flight_operation,
            match old(self).in_flight_operation {
                Some(operation) => {
                    &&& final(self).reconciled_listeners@.len()
                        == operation.affected_listeners@.len()
                    &&& forall|i: int|
                        0 <= i < operation.affected_listeners@.len() ==> (
                        #[trigger] final(self).reconciled_listeners@[i]).finds(
                            operation.affected_listeners@[i]@,
                            listener_statuses@,
                        )
                },
                None => final(self).reconciled_listeners@.len() == 0,
            },
    {
        let mut found: Vec<RecoveredListenerStatus> = Vec::new();
        match &self.in_flight_operation {
            Some(operation) => {
                let mut i: usize = 0;
                while i < operation.affected_listeners.len()
                    invariant
                        i <= operation.affected_listeners@.len(),
                        found@.len() == i,
                        forall|j: int|
                            0 <= j < i ==> (#[trigger] found@[j]).finds(
                                operation.affected_listeners@[j]@,
                                listener_statuses@,
                            ),
                    decreases operation.affected_listeners@.len() - i,
                {
                    let name = &operation.affected_listeners[i];
                    let one = match find_status(listener_statuses, name.as_str()) {
                        Some(status) => RecoveredListenerStatus::new(
                            name.clone(),
                            status.state.clone(),
                            status.replacement.state.clone(),
                        ),
                        None => RecoveredListenerStatus::new(
                            name.clone(),
                            text("missing"),
                            text("missing"),
                        ),
                    };
                    found.push(one);
                    i = i + 1;
                }
            },
            None => {},
        }
        self.reconciled_listeners = found;
    }
}

} // verus!
