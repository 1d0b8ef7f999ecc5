//! The journal that carries the control plane's state over a restart.

use crate::admin_audit::{
    optional_identity_json, put_optional_identity, AdminAuditEvent, DurableSnapshotIdentity,
};
use crate::clock::unix_time_ms;
use crate::digest::{sha256, sha256_hex};
use crate::json::{
    escaped, optional_number, put_escaped, put_number, put_optional_number, put_quoted_list,
    quoted_list,
};
use crate::recovery::ControlPlaneRecoveryInfo;
use crate::reload_plan::ReloadAuditPlan;
use crate::text::{decimal, decimal_text, hex_bytes, str_eq, text, texts};
use vstd::prelude::*;
use vstd::string::*;
use vstd::utf8::encode_utf8;

verus! {

/// The version of the journal's format.
pub const CONTROL_PLANE_JOURNAL_VERSION: u32 = 1;

/// An operation that was started and has not finished.
#[derive(Debug)]
pub struct JournalInFlightOperation {
    pub kind: String,
    pub started_at_unix_ms: u64,
    pub desired_snapshot: DurableSnapshotIdentity,
    pub lifecycle_code: String,
    pub detail: String,
    pub expected_completion_within_ms: Option<u64>,
    pub affected_listeners: Vec<String>,
}

/// A copy of a list of texts.
pub fn copy_texts(list: &Vec<String>) -> (r: Vec<String>)
    ensures
        r@ == list@,
{
    let mut out: Vec<String> = Vec::new();
    let mut i: usize = 0;
    while i < list.len()
        invariant
            i <= list@.len(),
            out@ == list@.take(i as int),
        decreases list@.len() - i,
    {
        out.push(list[i].clone());
        i = i + 1;
        proof {
            assert(out@ =~= list@.take(i as int));
        }
    }
    proof {
        assert(list@.take(list@.len() as int) =~= list@);
    }
    out
}

impl JournalInFlightOperation {
    /// Whether two records say the same of an operation.
    pub open spec fn same(self, other: Self) -> bool {
        &&& self.kind == other.kind
        &&& self.started_at_unix_ms == other.started_at_unix_ms
        &&& self.desired_snapshot == other.desired_snapshot
        &&& self.lifecycle_code == other.lifecycle_code
        &&& self.detail == other.detail
        &&& self.expected_completion_within_ms == other.expected_completion_within_ms
        &&& self.affected_listeners@ == other.affected_listeners@
    }

    /// The record of a reload that starts now with the given plan. The time of the start depends
    /// on the clock, so nothing is stated of it.
    pub fn from_reload_plan(
        desired_snapshot: DurableSnapshotIdentity,
        plan: &ReloadAuditPlan,
    ) -> (r: Self)
        ensures
            r.starts(r.started_at_unix_ms, desired_snapshot, *plan),
    {
        let now_ms = unix_time_ms();
        Self::from_reload_plan_at(desired_snapshot, plan, now_ms)
    }

    /// Whether this is the record of a reload with the given plan that starts at `now_ms`.
    pub open spec fn starts(
        self,
        now_ms: u64,
        desired_snapshot: DurableSnapshotIdentity,
        plan: ReloadAuditPlan,
    ) -> bool {
        &&& self.kind@ == (if plan.overlapping() {
            "reload_overlap_drain"@
        } else {
            "reload"@
        })
        &&& self.started_at_unix_ms == now_ms
        &&& self.desired_snapshot == desired_snapshot
        &&& self.lifecycle_code@ == plan.start_code_text()
        &&& self.detail@ == plan.start_detail_text()
        &&& self.expected_completion_within_ms == plan.expected_completion_within_ms
        &&& self.affected_listeners@ == (if plan.overlapping() {
            plan.supported_replacements@
        } else {
            plan.blocked_replacements@
        })
    }

    /// The record of a reload with the given plan that starts at `now_ms`.
    pub fn from_reload_plan_at(
        desired_snapshot: DurableSnapshotIdentity,
        plan: &ReloadAuditPlan,
        now_ms: u64,
    ) -> (r: Self)
        ensures
            r.starts(now_ms, desired_snapshot, *plan),
    {
        let overlapping = plan.supported_replacements.len() > 0;
        JournalInFlightOperation {
            kind: if overlapping {
                text("reload_overlap_drain")
            } else {
                text("reload")
            },
            started_at_unix_ms: now_ms,
            desired_snapshot,
            lifecycle_code: text(plan.start_code()),
            detail: plan.start_detail(),
            expected_completion_within_ms: plan.expected_completion_within_ms,
            affected_listeners: if overlapping {
                copy_texts(&plan.supported_replacements)
            } else {
                copy_texts(&plan.blocked_replacements)
            },
        }
    }

    /// The record as a JSON object.
    pub open spec fn json(self) -> Seq<char> {
        "{\"kind\":\""@ + escaped(self.kind@) + "\",\"started_at_unix_ms\":"@ + decimal(
            self.started_at_unix_ms as nat,
        ) + ",\"desired_snapshot\":"@ + self.desired_snapshot.json() + ",\"lifecycle_code\":\""@
            + escaped(self.lifecycle_code@) + "\",\"detail\":\""@ + escaped(self.detail@)
            + "\",\"expected_completion_within_ms\":"@ + optional_number(
            self.expected_completion_within_ms,
        ) + ",\"affected_listeners\":["@ + quoted_list(texts(self.affected_listeners@)) + "]}"@
    }

    /// The record as a JSON object.
    pub fn to_json(&self) -> (r: String)
        ensures
            r@ == self.json(),
    {
        let mut out = text("{\"kind\":\"");
        put_escaped(&mut out, self.kind.as_str());
        out.append("\",\"started_at_unix_ms\":");
        put_number(&mut out, self.started_at_unix_ms);
        out.append(",\"desired_snapshot\":");
        let snapshot = self.desired_snapshot.to_json();
        out.append(snapshot.as_str());
        out.append(",\"lifecycle_code\":\"");
        put_escaped(&mut out, self.lifecycle_code.as_str());
        out.append("\",\"detail\":\"");
        put_escaped(&mut out, self.detail.as_str());
        out.append("\",\"expected_completion_within_ms\":");
        put_optional_number(&mut out, self.expected_completion_within_ms);
        out.append(",\"affected_listeners\":[");
        put_quoted_list(&mut out, &self.affected_listeners);
        out.append("]}");
        out
    }
}

impl Clone for JournalInFlightOperation {
    fn clone(&self) -> (r: Self)
        ensures
            r.same(*self),
    {
        JournalInFlightOperation {
            kind: self.kind.clone(),
            started_at_unix_ms: self.started_at_unix_ms,
            desired_snapshot: self.desired_snapshot.clone(),
            lifecycle_code: self.lifecycle_code.clone(),
            detail: self.detail.clone(),
            expected_completion_within_ms: self.expected_completion_within_ms,
            affected_listeners: copy_texts(&self.affected_listeners),
        }
    }
}

/// An operation that may be missing, as a JSON object or `null`.
pub open spec fn optional_operation_json(operation: Option<JournalInFlightOperation>) -> Seq<char> {
    match operation {
        Some(operation) => operation.json(),
        None => "null"@,
    }
}

/// Appends an operation that may be missing.
pub fn put_optional_operation(out: &mut String, operation: &Option<JournalInFlightOperation>)
    ensures
        final(out)@ == old(out)@ + optional_operation_json(*operation),
{
    match operation {
        Some(operation) => {
            let json = operation.to_json();
            out.append(json.as_str());
        },
        None => {
            out.append("null");
        },
    }
}

/// Whether two records of operations that may be missing say the same.
pub open spec fn same_operation(
    a: Option<JournalInFlightOperation>,
    b: Option<JournalInFlightOperation>,
) -> bool {
    match (a, b) {
        (Some(x), Some(y)) => x.same(y),
        (None, None) => true,
        _ => false,
    }
}

/// A copy of an operation that may be missing.
pub fn copy_operation(operation: &Option<JournalInFlightOperation>) -> (r: Option<
    JournalInFlightOperation,
>)
    ensures
        same_operation(r, *operation),
{
    match operation {
        Some(operation) => Some(operation.clone()),
        None => None,
    }
}

/// A copy of an identity that may be missing.
pub fn copy_identity(identity: &Option<DurableSnapshotIdentity>) -> (r: Option<
    DurableSnapshotIdentity,
>)
    ensures
        r == *identity,
{
    match identity {
        Some(identity) => Some(identity.clone()),
        None => None,
    }
}

/// The state that the journal carries.
#[derive(Debug)]
pub struct ControlPlaneJournalPayload {
    pub persisted_at_unix_ms: u64,
    pub desired_snapshot: Option<DurableSnapshotIdentity>,
    pub applied_snapshot: Option<DurableSnapshotIdentity>,
    pub reload_health: String,
    pub last_reload_outcome_code: String,
    pub last_reload_result: String,
    pub recent_admin_audit: Vec<AdminAuditEvent>,
    pub in_flight_operation: Option<JournalInFlightOperation>,
}

/// The journal's frame: the text of the state with the version of its format and a checksum.
#[derive(Debug)]
pub struct ControlPlaneJournalEnvelope {
    pub version: u32,
    pub payload_json: String,
    pub payload_sha256: String,
}

/// The checksum of a state's text.
pub open spec fn payload_checksum(payload_json: Seq<char>) -> Seq<char> {
    hex_bytes(sha256(encode_utf8(payload_json)))
}

impl ControlPlaneJournalEnvelope {
    /// Whether the frame has the version and the checksum that belong to it.
    pub open spec fn intact(self) -> bool {
        self.version == CONTROL_PLANE_JOURNAL_VERSION && self.payload_sha256@ == payload_checksum(
            self.payload_json@,
        )
    }

    /// Frames the text of a state.
    pub fn seal(payload_json: String) -> (r: Self)
        ensures
            r.payload_json == payload_json,
            r.intact(),
    {
        let payload_sha256 = sha256_hex(payload_json.as_str().as_bytes());
        ControlPlaneJournalEnvelope {
            version: CONTROL_PLANE_JOURNAL_VERSION,
            payload_json,
            payload_sha256,
        }
    }

    /// What is wrong with the frame of the journal at `journal_path`.
    pub open spec fn fault(self, journal_path: Seq<char>) -> Option<Seq<char>> {
        if self.version != CONTROL_PLANE_JOURNAL_VERSION {
            Some(
                "control-plane journal at "@ + journal_path + " uses unsupported version "@
                    + decimal(self.version as nat),
            )
        } else if self.payload_sha256@ != payload_checksum(self.payload_json@) {
            Some("control-plane journal at "@ + journal_path + " failed checksum validation"@)
        } else {
            None
        }
    }

    /// Accepts the frame of the journal at `journal_path` if and only if it is intact.
    pub fn check(&self, journal_path: &str) -> (r: Result<(), String>)
        ensures
            match self.fault(journal_path@) {
                Some(message) => r matches Err(e) && e@ == message,
                None => r is Ok,
            },
            r is Ok <==> self.intact(),
    {
        if self.version != CONTROL_PLANE_JOURNAL_VERSION {
            let mut out = text("control-plane journal at ");
            out.append(journal_path);
            out.append(" uses unsupported version ");
            let n = decimal_text(self.version as u64);
            out.append(n.as_str());
            return Err(out);
        }
        let expected = sha256_hex(self.payload_json.as_str().as_bytes());
        if !str_eq(self.payload_sha256.as_str(), expected.as_str()) {
            let mut out = text("control-plane journal at ");
            out.append(journal_path);
            out.append(" failed checksum validation");
            return Err(out);
        }
        Ok(())
    }
}

/// Where the journal of a configuration file stands.
pub fn control_plane_journal_path(config_path: &str) -> (r: String)
    ensures
        r@ == config_path@ + ".control-plane.json"@,
{
    let mut out = text(config_path);
    out.append(".control-plane.json");
    out
}

/// Where a new journal is written before it takes the place of the old one.
pub fn journal_temporary_path(
    journal_path: &str,
    process_id: u32,
    now_ms: u64,
    write_sequence: u64,
) -> (r: String)
    ensures
        r@ == journal_path@ + ".tmp-"@ + decimal(process_id as nat) + "-"@ + decimal(now_ms as nat)
            + "-"@ + decimal(write_sequence as nat),
{
    let mut out = text(journal_path);
    out.append(".tmp-");
    put_number(&mut out, process_id as u64);
    out.append("-");
    put_number(&mut out, now_ms);
    out.append("-");
    put_number(&mut out, write_sequence);
    out
}

/// The journal of a running control plane.
#[derive(Debug)]
pub struct ControlPlaneJournalRuntime {
    pub journal_path: String,
    pub desired_snapshot: Option<DurableSnapshotIdentity>,
    pub applied_snapshot: Option<DurableSnapshotIdentity>,
    pub in_flight_operation: Option<JournalInFlightOperation>,
    pub recovery: ControlPlaneRecoveryInfo,
}

impl ControlPlaneJournalRuntime {
    /// An empty journal for a configuration file.
    pub fn new(config_path: &str) -> (r: Self)
        ensures
            r.journal_path@ == config_path@ + ".control-plane.json"@,
            r.desired_snapshot is None,
            r.applied_snapshot is None,
            r.in_flight_operation is None,
            r.recovery.state@ == "none"@,
            r.recovery.detail@ == "no durable control-plane state recovered"@,
            r.recovery.last_persisted_at_unix_ms is None,
            r.recovery.restored_reload_health is None,
            r.recovery.restored_last_reload_outcome_code is None,
            r.recovery.in_flight_operation is None,
            r.recovery.reconciled_listeners@.len() == 0,
    {
        ControlPlaneJournalRuntime {
            journal_path: control_plane_journal_path(config_path),
            desired_snapshot: None,
            applied_snapshot: None,
            in_flight_operation: None,
            recovery: ControlPlaneRecoveryInfo::default(),
        }
    }

    /// Whether a text is the journal's part of a status report at `now_ms`.
    pub open spec fn status_json_at(self, now_ms: u64, json: Seq<char>) -> bool {
        exists|recovery: Seq<char>|
            {
                &&& #[trigger] self.recovery.json_at(now_ms, recovery)
                &&& json == "{\"path\":\""@ + escaped(self.journal_path@)
                    + "\",\"desired_snapshot\":"@ + optional_identity_json(self.desired_snapshot)
                    + ",\"applied_snapshot\":"@ + optional_identity_json(self.applied_snapshot)
                    + ",\"recovery\":"@ + recovery + "}"@
            }
    }

    /// The journal's part of a status report at `now_ms`.
    pub fn to_status_json_at(&self, now_ms: u64) -> (r: String)
        ensures
            self.status_json_at(now_ms, r@),
    {
        let mut out = text("{\"path\":\"");
        put_escaped(&mut out, self.journal_path.as_str());
        out.append("\",\"desired_snapshot\":");
        put_optional_identity(&mut out, &self.desired_snapshot);
        out.append(",\"applied_snapshot\":");
        put_optional_identity(&mut out, &self.applied_snapshot);
        out.append(",\"recovery\":");
        let recovery = self.recovery.to_json_at(now_ms);
        out.append(recovery.as_str());
        out.append("}");
        out
    }

    /// The journal's part of a status report now. Which moment that is depends on the clock.
    pub fn to_status_json(&self) -> (r: String)
        ensures
            exists|now_ms: u64| self.status_json_at(now_ms, r@),
    {
        let now_ms = unix_time_ms();
        self.to_status_json_at(now_ms)
    }
}

} // verus!
