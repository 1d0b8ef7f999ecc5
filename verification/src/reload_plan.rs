//! What a reload or a warm restart is about to do, and how its outcome is reported.

use crate::text::{decimal, decimal_text, join, joined, text, texts};
use vstd::prelude::*;
use vstd::string::*;

verus! {

/// The listeners that a candidate configuration would replace.
#[derive(Debug)]
pub struct ReloadAuditPlan {
    /// Listeners that can be replaced while the current one drains.
    pub supported_replacements: Vec<String>,
    /// Listeners whose replacement cannot start before the current one is retired.
    pub blocked_replacements: Vec<String>,
    /// The longest drain timeout among the supported replacements.
    pub expected_completion_within_ms: Option<u64>,
}

/// How the listeners that a reload retired were drained.
#[derive(Debug)]
pub struct ReloadApplyOutcome {
    pub drained_listener_count: usize,
    pub completed_drain_count: usize,
    pub drain_timeout_count: usize,
    pub drain_timed_out_replacements: Vec<String>,
}

/// How the listeners that a warm restart replaced were drained.
#[derive(Debug)]
pub struct WarmRestartApplyOutcome {
    pub restarted_listener_count: usize,
    pub completed_drain_count: usize,
    pub drain_timeout_count: usize,
    pub drain_timed_out_replacements: Vec<String>,
}

/// Whether a compiled configuration is applied as a reload or as a warm restart.
#[derive(Debug, Clone, Copy, PartialEq, Eq, Structural)]
pub enum ApplyMode {
    Reload,
    WarmRestart,
}

impl ApplyMode {
    /// A warm restart replaces listeners that did not change.
    pub fn force_replace_matching(self) -> (r: bool)
        ensures
            r == (self is WarmRestart),
    {
        match self {
            ApplyMode::Reload => false,
            ApplyMode::WarmRestart => true,
        }
    }
}

impl Default for ReloadAuditPlan {
    fn default() -> (r: Self)
        ensures
            r.supported_replacements@.len() == 0,
            r.blocked_replacements@.len() == 0,
            r.expected_completion_within_ms is None,
    {
        ReloadAuditPlan {
            supported_replacements: Vec::new(),
            blocked_replacements: Vec::new(),
            expected_completion_within_ms: None,
        }
    }
}

impl Default for ReloadApplyOutcome {
    fn default() -> (r: Self)
        ensures
            r.drained_listener_count == 0,
            r.completed_drain_count == 0,
            r.drain_timeout_count == 0,
            r.drain_timed_out_replacements@.len() == 0,
    {
        ReloadApplyOutcome {
            drained_listener_count: 0,
            completed_drain_count: 0,
            drain_timeout_count: 0,
            drain_timed_out_replacements: Vec::new(),
        }
    }
}

impl WarmRestartApplyOutcome {
    /// Whether some replaced listener was still draining when its time ran out.
    pub open spec fn timed_out(self) -> bool {
        self.drain_timeout_count > 0 || self.drain_timed_out_replacements@.len() > 0
    }

    /// Whether some replaced listener was still draining when its time ran out.
    pub fn timed_out_during_drain(&self) -> (r: bool)
        ensures
            r == self.timed_out(),
    {
        self.drain_timeout_count > 0 || self.drain_timed_out_replacements.len() > 0
    }

    /// Reads the outcome of an apply as that of a warm restart.
    pub fn from_reload(value: ReloadApplyOutcome) -> (r: Self)
        ensures
            r.restarted_listener_count == value.drained_listener_count,
            r.completed_drain_count == value.completed_drain_count,
            r.drain_timeout_count == value.drain_timeout_count,
            r.drain_timed_out_replacements == value.drain_timed_out_replacements,
    {
        WarmRestartApplyOutcome {
            restarted_listener_count: value.drained_listener_count,
            completed_drain_count: value.completed_drain_count,
            drain_timeout_count: value.drain_timeout_count,
            drain_timed_out_replacements: value.drain_timed_out_replacements,
        }
    }
}

/// The names of a list with a comma and a space between each and the next.
pub open spec fn name_list(names: Seq<String>) -> Seq<char> {
    joined(texts(names), ", "@)
}

fn put_names(out: &mut String, names: &Vec<String>)
    ensures
        final(out)@ == old(out)@ + name_list(names@),
{
    let list = join(names, ", ");
    out.append(list.as_str());
}

fn put_count(out: &mut String, count: usize)
    ensures
        final(out)@ == old(out)@ + decimal(count as nat),
{
    let n = decimal_text(count as u64);
    out.append(n.as_str());
}

impl ReloadApplyOutcome {
    /// Whether some listener's replacement was active while the old one ran out of drain time.
    pub open spec fn timed_out(self) -> bool {
        self.drain_timed_out_replacements@.len() > 0
    }

    /// Whether some listener's replacement was active while the old one ran out of drain time.
    pub fn timed_out_during_drain(&self) -> (r: bool)
        ensures
            r == self.timed_out(),
    {
        self.drain_timed_out_replacements.len() > 0
    }

    /// The outcome code of a reload that was applied.
    pub open spec fn success_code(self) -> Seq<char> {
        if self.timed_out() {
            "reload_applied_with_drain_timeout"@
        } else {
            "reload_applied"@
        }
    }

    /// The outcome code of a reload that was applied.
    pub fn generic_success_code(&self) -> (r: &'static str)
        ensures
            r@ == self.success_code(),
    {
        if self.timed_out_during_drain() {
            "reload_applied_with_drain_timeout"
        } else {
            "reload_applied"
        }
    }

    /// What is said of a reload that was applied.
    pub open spec fn success_detail(self) -> Seq<char> {
        if self.timed_out() {
            "configuration applied; drained_listeners="@ + decimal(
                self.drained_listener_count as nat,
            ) + " completed_drains="@ + decimal(self.completed_drain_count as nat)
                + " drain_timeouts="@ + decimal(self.drain_timeout_count as nat)
                + " (timed out replacements: "@ + name_list(self.drain_timed_out_replacements@)
                + ")"@
        } else {
            "configuration applied; drained_listeners="@ + decimal(
                self.drained_listener_count as nat,
            ) + " completed_drains="@ + decimal(self.completed_drain_count as nat)
                + " drain_timeouts=0"@
        }
    }

    /// What is said of a reload that was applied.
    pub fn generic_success_detail(&self) -> (r: String)
        ensures
            r@ == self.success_detail(),
    {
        let mut out = text("configuration applied; drained_listeners=");
        put_count(&mut out, self.drained_listener_count);
        out.append(" completed_drains=");
        put_count(&mut out, self.completed_drain_count);
        if self.timed_out_during_drain() {
            out.append(" drain_timeouts=");
            put_count(&mut out, self.drain_timeout_count);
            out.append(" (timed out replacements: ");
            put_names(&mut out, &self.drain_timed_out_replacements);
            out.append(")");
        } else {
            out.append(" drain_timeouts=0");
        }
        out
    }
}

impl ReloadAuditPlan {
    /// Whether some listener cannot be replaced without downtime.
    pub open spec fn blocked(self) -> bool {
        self.blocked_replacements@.len() > 0
    }

    /// Whether some listener is replaced by overlap and drain.
    pub open spec fn overlapping(self) -> bool {
        self.supported_replacements@.len() > 0
    }

    pub open spec fn start_detail_text(self) -> Seq<char> {
        if self.blocked() {
            "reload started; candidate still contains disruptive listener changes for: "@
                + name_list(self.blocked_replacements@)
        } else if self.overlapping() {
            "reload started; overlap-and-drain replacement planned for: "@ + name_list(
                self.supported_replacements@,
            ) + "; inspect GET /status for live drain progress"@
        } else {
            "reload started; apply plan is in-place or additive"@
        }
    }

    /// What is said of a reload with this plan as it starts.
    pub fn start_detail(&self) -> (r: String)
        ensures
            r@ == self.start_detail_text(),
    {
        if self.blocked_replacements.len() > 0 {
            let mut out = text(
                "reload started; candidate still contains disruptive listener changes for: ",
            );
            put_names(&mut out, &self.blocked_replacements);
            out
        } else if self.supported_replacements.len() > 0 {
            let mut out = text("reload started; overlap-and-drain replacement planned for: ");
            put_names(&mut out, &self.supported_replacements);
            out.append("; inspect GET /status for live drain progress");
            out
        } else {
            text("reload started; apply plan is in-place or additive")
        }
    }

    pub open spec fn start_code_text(self) -> Seq<char> {
        if self.blocked() {
            "reload_started_blocked_candidate"@
        } else if self.overlapping() {
            "reload_started_overlap_drain"@
        } else {
            "reload_started_in_place"@
        }
    }

    /// The code of a reload with this plan as it starts.
    pub fn start_code(&self) -> (r: &'static str)
        ensures
            r@ == self.start_code_text(),
    {
        if self.blocked_replacements.len() > 0 {
            "reload_started_blocked_candidate"
        } else if self.supported_replacements.len() > 0 {
            "reload_started_overlap_drain"
        } else {
            "reload_started_in_place"
        }
    }

    pub open spec fn success_detail_text(self, outcome: ReloadApplyOutcome) -> Seq<char> {
        if outcome.timed_out() {
            "configuration applied; replacement stayed active but drain timeout expired for: "@
                + name_list(outcome.drain_timed_out_replacements@) + " (drained_listeners="@
                + decimal(outcome.drained_listener_count as nat) + " completed_drains="@ + decimal(
                outcome.completed_drain_count as nat,
            ) + " drain_timeouts="@ + decimal(outcome.drain_timeout_count as nat) + ")"@
        } else if self.overlapping() {
            "configuration applied; overlap-and-drain replacement completed for: "@ + name_list(
                self.supported_replacements@,
            ) + " (drained_listeners="@ + decimal(outcome.drained_listener_count as nat)
                + " completed_drains="@ + decimal(outcome.completed_drain_count as nat)
                + " drain_timeouts=0)"@
        } else {
            "configuration applied; drained_listeners="@ + decimal(
                outcome.drained_listener_count as nat,
            ) + " completed_drains="@ + decimal(outcome.completed_drain_count as nat)
                + " drain_timeouts=0"@
        }
    }

    /// What is said of a reload with this plan once it was applied.
    pub fn success_detail(&self, outcome: &ReloadApplyOutcome) -> (r: String)
        ensures
            r@ == self.success_detail_text(*outcome),
    {
        if outcome.timed_out_during_drain() {
            let mut out = text(
                "configuration applied; replacement stayed active but drain timeout expired for: ",
            );
            put_names(&mut out, &outcome.drain_timed_out_replacements);
            out.append(" (drained_listeners=");
            put_count(&mut out, outcome.drained_listener_count);
            out.append(" completed_drains=");
            put_count(&mut out, outcome.completed_drain_count);
            out.append(" drain_timeouts=");
            put_count(&mut out, outcome.drain_timeout_count);
            out.append(")");
            out
        } else if self.supported_replacements.len() > 0 {
            let mut out = text(
                "configuration applied; overlap-and-drain replacement completed for: ",
            );
            put_names(&mut out, &self.supported_replacements);
            out.append(" (drained_listeners=");
            put_count(&mut out, outcome.drained_listener_count);
            out.append(" completed_drains=");
            put_count(&mut out, outcome.completed_drain_count);
            out.append(" drain_timeouts=0)");
            out
        } else {
            let mut out = text("configuration applied; drained_listeners=");
            put_count(&mut out, outcome.drained_listener_count);
            out.append(" completed_drains=");
            put_count(&mut out, outcome.completed_drain_count);
            out.append(" drain_timeouts=0");
            out
        }
    }

    pub open spec fn success_code_text(self, outcome: ReloadApplyOutcome) -> Seq<char> {
        if outcome.timed_out() {
            "reload_applied_overlap_drain_timeout"@
        } else if self.overlapping() {
            "reload_applied_overlap_drain"@
        } else {
            "reload_applied_in_place"@
        }
    }

    /// The code of a reload with this plan once it was applied.
    pub fn success_code(&self, outcome: &ReloadApplyOutcome) -> (r: &'static str)
        ensures
            r@ == self.success_code_text(*outcome),
    {
        if outcome.timed_out_during_drain() {
            "reload_applied_overlap_drain_timeout"
        } else if self.supported_replacements.len() > 0 {
            "reload_applied_overlap_drain"
        } else {
            "reload_applied_in_place"
        }
    }

    pub open spec fn failure_detail_text(self, error: Seq<char>) -> Seq<char> {
        if self.blocked() {
            "reload failed: "@ + error + "; candidate still required disruptive retirement for: "@
                + name_list(self.blocked_replacements@)
        } else if self.overlapping() {
            "reload failed: "@ + error
                + "; active listeners were preserved while replacement stayed rollback-safe for: "@
                + name_list(self.supported_replacements@)
        } else {
            "reload failed: "@ + error
        }
    }

    /// What is said of a reload with this plan that failed with `error`.
    pub fn failure_detail(&self, error: &str) -> (r: String)
        ensures
            r@ == self.failure_detail_text(error@),
    {
        let mut out = text("reload failed: ");
        out.append(error);
        if self.blocked_replacements.len() > 0 {
            out.append("; candidate still required disruptive retirement for: ");
            put_names(&mut out, &self.blocked_replacements);
        } else if self.supported_replacements.len() > 0 {
            out.append(
                "; active listeners were preserved while replacement stayed rollback-safe for: ",
            );
            put_names(&mut out, &self.supported_replacements);
        }
        out
    }

    pub open spec fn failure_code_text(self) -> Seq<char> {
        if self.blocked() {
            "reload_failed_blocked_change"@
        } else if self.overlapping() {
            "reload_failed_rollback_preserved"@
        } else {
            "reload_failed_apply"@
        }
    }

    /// The code of a reload with this plan that failed.
    pub fn failure_code(&self) -> (r: &'static str)
        ensures
            r@ == self.failure_code_text(),
    {
        if self.blocked_replacements.len() > 0 {
            "reload_failed_blocked_change"
        } else if self.supported_replacements.len() > 0 {
            "reload_failed_rollback_preserved"
        } else {
            "reload_failed_apply"
        }
    }

    pub open spec fn restart_start_detail_text(self) -> Seq<char> {
        if self.blocked() {
            "warm restart started; replacement cannot be staged safely for: "@ + name_list(
                self.blocked_replacements@,
            )
        } else if self.overlapping() {
            "warm restart started; overlap-and-drain restart planned for: "@ + name_list(
                self.supported_replacements@,
            )
        } else {
            "warm restart started; no replacement-capable listeners found"@
        }
    }

    /// What is said of a warm restart with this plan as it starts.
    pub fn restart_start_detail(&self) -> (r: String)
        ensures
            r@ == self.restart_start_detail_text(),
    {
        if self.blocked_replacements.len() > 0 {
            let mut out = text("warm restart started; replacement cannot be staged safely for: ");
            put_names(&mut out, &self.blocked_replacements);
            out
        } else if self.supported_replacements.len() > 0 {
            let mut out = text("warm restart started; overlap-and-drain restart planned for: ");
            put_names(&mut out, &self.supported_replacements);
            out
        } else {
            text("warm restart started; no replacement-capable listeners found")
        }
    }

    pub open spec fn restart_start_code_text(self) -> Seq<char> {
        if self.blocked() {
            "restart_started_blocked"@
        } else if self.overlapping() {
            "restart_started_overlap_drain"@
        } else {
            "restart_started_noop"@
        }
    }

    /// The code of a warm restart with this plan as it starts.
    pub fn restart_start_code(&self) -> (r: &'static str)
        ensures
            r@ == self.restart_start_code_text(),
    {
        if self.blocked_replacements.len() > 0 {
            "restart_started_blocked"
        } else if self.supported_replacements.len() > 0 {
            "restart_started_overlap_drain"
        } else {
            "restart_started_noop"
        }
    }

    pub open spec fn restart_success_code_text(self, outcome: WarmRestartApplyOutcome) -> Seq<
        char,
    > {
        if outcome.timed_out() {
            "restart_applied_overlap_drain_timeout"@
        } else if outcome.restarted_listener_count > 0 {
            "restart_applied_overlap_drain"@
        } else {
            "restart_applied_noop"@
        }
    }

    /// The code of a warm restart once it was applied.
    pub fn restart_success_code(&self, outcome: &WarmRestartApplyOutcome) -> (r: &'static str)
        ensures
            r@ == self.restart_success_code_text(*outcome),
    {
        if outcome.timed_out_during_drain() {
            "restart_applied_overlap_drain_timeout"
        } else if outcome.restarted_listener_count > 0 {
            "restart_applied_overlap_drain"
        } else {
            "restart_applied_noop"
        }
    }

    pub open spec fn restart_success_detail_text(self, outcome: WarmRestartApplyOutcome) -> Seq<
        char,
    > {
        if outcome.timed_out() {
            "warm restart applied with drain timeout; restarted_listeners="@ + decimal(
                outcome.restarted_listener_count as nat,
            ) + " completed_drains="@ + decimal(outcome.completed_drain_count as nat)
                + " drain_timeouts="@ + decimal(outcome.drain_timeout_count as nat)
                + " timed_out_listeners="@ + name_list(outcome.drain_timed_out_replacements@)
        } else {
            "warm restart applied; restarted_listeners="@ + decimal(
                outcome.restarted_listener_count as nat,
            ) + " completed_drains="@ + decimal(outcome.completed_drain_count as nat)
                + " drain_timeouts=0"@
        }
    }

    /// What is said of a warm restart once it was applied.
    pub fn restart_success_detail(&self, outcome: &WarmRestartApplyOutcome) -> (r: String)
        ensures
            r@ == self.restart_success_detail_text(*outcome),
    {
        if outcome.timed_out_during_drain() {
            let mut out = text("warm restart applied with drain timeout; restarted_listeners=");
            put_count(&mut out, outcome.restarted_listener_count);
            out.append(" completed_drains=");
            put_count(&mut out, outcome.completed_drain_count);
            out.append(" drain_timeouts=");
            put_count(&mut out, outcome.drain_timeout_count);
            out.append(" timed_out_listeners=");
            put_names(&mut out, &outcome.drain_timed_out_replacements);
            out
        } else {
            let mut out = text("warm restart applied; restarted_listeners=");
            put_count(&mut out, outcome.restarted_listener_count);
            out.append(" completed_drains=");
            put_count(&mut out, outcome.completed_drain_count);
            out.append(" drain_timeouts=0");
            out
        }
    }

    pub open spec fn restart_failure_code_text(self) -> Seq<char> {
        if self.blocked() {
            "restart_failed_blocked"@
        } else {
            "restart_failed_apply"@
        }
    }

    /// The code of a warm restart with this plan that failed.
    pub fn restart_failure_code(&self) -> (r: &'static str)
        ensures
            r@ == self.restart_failure_code_text(),
    {
        if self.blocked_replacements.len() > 0 {
            "restart_failed_blocked"
        } else {
            "restart_failed_apply"
        }
    }

    pub open spec fn restart_failure_detail_text(self, error: Seq<char>) -> Seq<char> {
        if self.blocked() {
            "warm restart failed: "@ + error + "; replacement cannot be staged for: "@ + name_list(
                self.blocked_replacements@,
            )
        } else {
            "warm restart failed: "@ + error
        }
    }

    /// What is said of a warm restart with this plan that failed with `error`.
    pub fn restart_failure_detail(&self, error: &str) -> (r: String)
        ensures
            r@ == self.restart_failure_detail_text(error@),
    {
        let mut out = text("warm restart failed: ");
        out.append(error);
        if self.blocked_replacements.len() > 0 {
            out.append("; replacement cannot be staged for: ");
            put_names(&mut out, &self.blocked_replacements);
        }
        out
    }
}

} // verus!
