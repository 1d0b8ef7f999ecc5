//! What is reported of the listeners: one by one, and whether the whole is ready to serve.

use crate::addr::SocketAddress;
use crate::compile_policies::{
    CompiledHandshakeGuardPolicy, CompiledListenerAbuseProtectionPolicy, CompiledSourceQuotaPolicy,
    SourceAggregation,
};
use crate::config::{ListenerBindMode, ListenerClassConfig, ListenerProtocolConfig};
use crate::json::{escaped, put_escaped, put_number, put_quoted_list, quoted_list};
use crate::listener_lifecycle::{ListenerIdentity, ListenerLifecycleModel};
use crate::overload::OverloadEventStatus;
use crate::switch_over::holds_text;
use crate::text::{decimal, join, joined, str_eq, text, texts};
use vstd::prelude::*;
use vstd::string::*;

verus! {

/// The name of a listener's class in reports.
pub open spec fn class_name(class: ListenerClassConfig) -> Seq<char> {
    match class {
        ListenerClassConfig::Public => "public"@,
        ListenerClassConfig::Admin => "admin"@,
    }
}

/// The name of a listener's class in reports.
pub fn listener_class_name(class: ListenerClassConfig) -> (r: &'static str)
    ensures
        r@ == class_name(class),
{
    match class {
        ListenerClassConfig::Public => "public",
        ListenerClassConfig::Admin => "admin",
    }
}

/// The name of a listener's protocol in reports.
pub open spec fn protocol_name(protocol: ListenerProtocolConfig) -> Seq<char> {
    match protocol {
        ListenerProtocolConfig::Tcp => "tcp"@,
        ListenerProtocolConfig::Http1 => "http1"@,
        ListenerProtocolConfig::Https => "https"@,
        ListenerProtocolConfig::Http2 => "http2"@,
        ListenerProtocolConfig::Http3 => "http3"@,
        ListenerProtocolConfig::Auto => "auto"@,
    }
}

/// The name of a listener's protocol in reports.
pub fn listener_protocol_name(protocol: ListenerProtocolConfig) -> (r: &'static str)
    ensures
        r@ == protocol_name(protocol),
{
    match protocol {
        ListenerProtocolConfig::Tcp => "tcp",
        ListenerProtocolConfig::Http1 => "http1",
        ListenerProtocolConfig::Https => "https",
        ListenerProtocolConfig::Http2 => "http2",
        ListenerProtocolConfig::Http3 => "http3",
        ListenerProtocolConfig::Auto => "auto",
    }
}

/// The name of a bind mode in reports.
pub open spec fn bind_mode_name(bind_mode: ListenerBindMode) -> Seq<char> {
    match bind_mode {
        ListenerBindMode::SingleStack => "single_stack"@,
        ListenerBindMode::DualStack => "dual_stack"@,
        ListenerBindMode::Ipv6Only => "ipv6_only"@,
    }
}

/// The name of a bind mode in reports.
pub fn listener_bind_mode_name(bind_mode: ListenerBindMode) -> (r: &'static str)
    ensures
        r@ == bind_mode_name(bind_mode),
{
    match bind_mode {
        ListenerBindMode::SingleStack => "single_stack",
        ListenerBindMode::DualStack => "dual_stack",
        ListenerBindMode::Ipv6Only => "ipv6_only",
    }
}

/// The name of a way of counting sources together, in reports.
pub open spec fn aggregation_name(aggregation: SourceAggregation) -> Seq<char> {
    match aggregation {
        SourceAggregation::ExactIp => "exact_ip"@,
        SourceAggregation::Ipv4Subnet24 => "ipv4_subnet_24"@,
        SourceAggregation::Ipv6Subnet64 => "ipv6_subnet_64"@,
    }
}

/// The name of a way of counting sources together, in reports.
pub fn source_aggregation_name(aggregation: SourceAggregation) -> (r: &'static str)
    ensures
        r@ == aggregation_name(aggregation),
{
    match aggregation {
        SourceAggregation::ExactIp => "exact_ip",
        SourceAggregation::Ipv4Subnet24 => "ipv4_subnet_24",
        SourceAggregation::Ipv6Subnet64 => "ipv6_subnet_64",
    }
}

/// How the latest reload went.
#[derive(Debug, Clone, Copy, PartialEq, Eq, Structural)]
pub enum ReloadHealthState {
    NotRequested,
    Healthy,
    Failed,
}

/// The name of a reload health in reports and in the journal.
pub open spec fn health_name(state: ReloadHealthState) -> Seq<char> {
    match state {
        ReloadHealthState::NotRequested => "not_requested"@,
        ReloadHealthState::Healthy => "healthy"@,
        ReloadHealthState::Failed => "failed"@,
    }
}

/// The name of a reload health in reports and in the journal.
pub fn reload_health_name(state: ReloadHealthState) -> (r: &'static str)
    ensures
        r@ == health_name(state),
{
    match state {
        ReloadHealthState::NotRequested => "not_requested",
        ReloadHealthState::Healthy => "healthy",
        ReloadHealthState::Failed => "failed",
    }
}

/// The reload health of a name; one that is not known says that none was requested.
pub open spec fn health_named(name: Seq<char>) -> ReloadHealthState {
    if name == "healthy"@ {
        ReloadHealthState::Healthy
    } else if name == "failed"@ {
        ReloadHealthState::Failed
    } else {
        ReloadHealthState::NotRequested
    }
}

/// The reload health of a name.
pub fn reload_health_from_name(name: &str) -> (r: ReloadHealthState)
    ensures
        r == health_named(name@),
{
    if str_eq(name, "healthy") {
        ReloadHealthState::Healthy
    } else if str_eq(name, "failed") {
        ReloadHealthState::Failed
    } else {
        ReloadHealthState::NotRequested
    }
}

/// The number that stands for a reload health.
pub open spec fn health_index(state: ReloadHealthState) -> usize {
    match state {
        ReloadHealthState::NotRequested => 0,
        ReloadHealthState::Healthy => 1,
        ReloadHealthState::Failed => 2,
    }
}

/// The number that stands for a reload health.
pub fn reload_health_index(state: ReloadHealthState) -> (r: usize)
    ensures
        r == health_index(state),
{
    match state {
        ReloadHealthState::NotRequested => 0,
        ReloadHealthState::Healthy => 1,
        ReloadHealthState::Failed => 2,
    }
}

/// The reload health that a number stands for.
pub open spec fn health_at(index: usize) -> ReloadHealthState {
    if index == 1 {
        ReloadHealthState::Healthy
    } else if index == 2 {
        ReloadHealthState::Failed
    } else {
        ReloadHealthState::NotRequested
    }
}

/// The reload health that a number stands for.
pub fn reload_health_from_index(index: usize) -> (r: ReloadHealthState)
    ensures
        r == health_at(index),
{
    match index {
        1 => ReloadHealthState::Healthy,
        2 => ReloadHealthState::Failed,
        _ => ReloadHealthState::NotRequested,
    }
}

/// A reload health that is kept as a name or as a number is the same when it is read back.
pub proof fn reload_health_survives(state: ReloadHealthState)
    ensures
        health_named(health_name(state)) == state,
        health_at(health_index(state)) == state,
{
    reveal_strlit("not_requested");
    reveal_strlit("healthy");
    reveal_strlit("failed");
    assert("not_requested"@.len() != "healthy"@.len());
    assert("not_requested"@.len() != "failed"@.len());
    assert("healthy"@.len() != "failed"@.len());
}

/// A list of reasons with one more, unless it is there already.
pub open spec fn with_reason(reasons: Seq<Seq<char>>, reason: Seq<char>) -> Seq<Seq<char>> {
    if reasons.contains(reason) {
        reasons
    } else {
        reasons.push(reason)
    }
}

/// Adds a reason to a list, unless it is there already.
pub fn push_unique_reason(reasons: &mut Vec<String>, reason: &str)
    ensures
        texts(final(reasons)@) == with_reason(texts(old(reasons)@), reason@),
{
    if !holds_text(reasons, reason) {
        let ghost before = reasons@;
        reasons.push(text(reason));
        proof {
            assert(texts(reasons@) =~= texts(before).push(reason@));
        }
    }
}

/// What hostile-edge protection has counted.
#[derive(Debug, Clone, Copy, PartialEq, Eq, Structural)]
pub struct ListenerAbuseProtectionSnapshot {
    pub source_quota_rejections: u64,
    pub tracked_source_limit_rejections: u64,
    pub handshake_guard_rejections: u64,
    pub tracked_sources: usize,
    pub active_handshakes: usize,
}

/// The codes that hostile-edge protection gives to its reasons for a rejection.
#[derive(Debug)]
pub struct AbuseRejectionCodes {
    pub source_quota_exceeded: String,
    pub tracked_source_limit_reached: String,
    pub handshake_limit_reached: String,
}

/// The quota of a source, as it is reported.
#[derive(Debug)]
pub struct SourceQuotaStatus {
    pub aggregation: String,
    pub max_active_per_source: usize,
    pub max_tracked_sources: usize,
}

/// The guard of handshakes, as it is reported.
#[derive(Debug, Clone, Copy)]
pub struct HandshakeGuardStatus {
    pub max_inflight: usize,
    pub timeout_ms: u64,
}

/// Hostile-edge protection of a listener, as it is reported.
#[derive(Debug)]
pub struct ListenerAbuseProtectionStatus {
    pub state: String,
    pub source_quota: Option<SourceQuotaStatus>,
    pub handshake_guard: Option<HandshakeGuardStatus>,
    pub source_quota_rejections: u64,
    pub tracked_source_limit_rejections: u64,
    pub handshake_guard_rejections: u64,
    pub tracked_sources: usize,
    pub active_handshakes: usize,
    pub reason_codes: Vec<String>,
}

/// A list of reasons with one more where something holds.
pub open spec fn with_reason_if(
    reasons: Seq<Seq<char>>,
    condition: bool,
    reason: Seq<char>,
) -> Seq<Seq<char>> {
    if condition {
        with_reason(reasons, reason)
    } else {
        reasons
    }
}

/// The source quota of a policy that may be missing.
pub open spec fn quota_of(policy: Option<CompiledListenerAbuseProtectionPolicy>) -> Option<
    CompiledSourceQuotaPolicy,
> {
    match policy {
        Some(policy) => policy.source_quota,
        None => None,
    }
}

/// The handshake guard of a policy that may be missing.
pub open spec fn guard_of(policy: Option<CompiledListenerAbuseProtectionPolicy>) -> Option<
    CompiledHandshakeGuardPolicy,
> {
    match policy {
        Some(policy) => policy.handshake_guard,
        None => None,
    }
}

/// Whether no further source can be tracked.
pub open spec fn sources_saturated(
    policy: Option<CompiledListenerAbuseProtectionPolicy>,
    snapshot: ListenerAbuseProtectionSnapshot,
) -> bool {
    quota_of(policy) matches Some(quota) && snapshot.tracked_sources >= quota.max_tracked_sources
}

/// Whether no further handshake may start.
pub open spec fn handshakes_saturated(
    policy: Option<CompiledListenerAbuseProtectionPolicy>,
    snapshot: ListenerAbuseProtectionSnapshot,
) -> bool {
    guard_of(policy) matches Some(guard) && snapshot.active_handshakes >= guard.max_inflight
}

/// The reasons that are reported of hostile-edge protection.
pub open spec fn abuse_reasons(
    policy: Option<CompiledListenerAbuseProtectionPolicy>,
    snapshot: ListenerAbuseProtectionSnapshot,
    codes: AbuseRejectionCodes,
) -> Seq<Seq<char>> {
    let none: Seq<Seq<char>> = Seq::empty();
    let quota = with_reason_if(
        none,
        snapshot.source_quota_rejections > 0,
        codes.source_quota_exceeded@,
    );
    let limited = with_reason_if(
        quota,
        snapshot.tracked_source_limit_rejections > 0,
        codes.tracked_source_limit_reached@,
    );
    let handshake = with_reason_if(
        limited,
        snapshot.handshake_guard_rejections > 0,
        codes.handshake_limit_reached@,
    );
    let sources = with_reason_if(
        handshake,
        sources_saturated(policy, snapshot),
        "tracked_source_capacity_saturated"@,
    );
    with_reason_if(sources, handshakes_saturated(policy, snapshot), "handshake_guard_saturated"@)
}

/// The state of hostile-edge protection.
pub open spec fn abuse_state(
    policy: Option<CompiledListenerAbuseProtectionPolicy>,
    reasons: Seq<Seq<char>>,
) -> Seq<char> {
    if policy is None {
        "disabled"@
    } else if reasons.contains("tracked_source_capacity_saturated"@) || reasons.contains(
        "handshake_guard_saturated"@,
    ) {
        "constrained"@
    } else {
        "enforcing"@
    }
}

impl ListenerAbuseProtectionStatus {
    /// Whether this is the report of a policy and of what its protection has counted.
    pub open spec fn reports(
        self,
        policy: Option<CompiledListenerAbuseProtectionPolicy>,
        snapshot: ListenerAbuseProtectionSnapshot,
        codes: AbuseRejectionCodes,
    ) -> bool {
        &&& texts(self.reason_codes@) == abuse_reasons(policy, snapshot, codes)
        &&& self.state@ == abuse_state(policy, abuse_reasons(policy, snapshot, codes))
        &&& match quota_of(policy) {
            Some(quota) => self.source_quota matches Some(status) && status.aggregation@
                == aggregation_name(quota.aggregation) && status.max_active_per_source
                == quota.max_active_per_source && status.max_tracked_sources
                == quota.max_tracked_sources,
            None => self.source_quota is None,
        }
        &&& match guard_of(policy) {
            Some(guard) => self.handshake_guard matches Some(status) && status.max_inflight
                == guard.max_inflight && status.timeout_ms == guard.timeout_ms,
            None => self.handshake_guard is None,
        }
        &&& self.source_quota_rejections == snapshot.source_quota_rejections
        &&& self.tracked_source_limit_rejections == snapshot.tracked_source_limit_rejections
        &&& self.handshake_guard_rejections == snapshot.handshake_guard_rejections
        &&& self.tracked_sources == snapshot.tracked_sources
        &&& self.active_handshakes == snapshot.active_handshakes
    }

    /// The report of a policy and of what its protection has counted.
    pub fn from_runtime(
        policy: &Option<CompiledListenerAbuseProtectionPolicy>,
        snapshot: ListenerAbuseProtectionSnapshot,
        codes: &AbuseRejectionCodes,
    ) -> (r: Self)
        ensures
            r.reports(*policy, snapshot, *codes),
    {
        let mut reason_codes: Vec<String> = Vec::new();
        proof {
            assert(texts(reason_codes@) =~= Seq::<Seq<char>>::empty());
        }
        if snapshot.source_quota_rejections > 0 {
            push_unique_reason(&mut reason_codes, codes.source_quota_exceeded.as_str());
        }
        if snapshot.tracked_source_limit_rejections > 0 {
            push_unique_reason(&mut reason_codes, codes.tracked_source_limit_reached.as_str());
        }
        if snapshot.handshake_guard_rejections > 0 {
            push_unique_reason(&mut reason_codes, codes.handshake_limit_reached.as_str());
        }
        let (quota, guard, disabled) = match policy {
            Some(policy) => (policy.source_quota, policy.handshake_guard, false),
            None => (None, None, true),
        };
        let source_quota = match quota {
            Some(quota) => {
                if snapshot.tracked_sources >= quota.max_tracked_sources {
                    push_unique_reason(&mut reason_codes, "tracked_source_capacity_saturated");
                }
                Some(
                    SourceQuotaStatus {
                        aggregation: text(source_aggregation_name(quota.aggregation)),
                        max_active_per_source: quota.max_active_per_source,
                        max_tracked_sources: quota.max_tracked_sources,
                    },
                )
            },
            None => None,
        };
        let handshake_guard = match guard {
            Some(guard) => {
                if snapshot.active_handshakes >= guard.max_inflight {
                    push_unique_reason(&mut reason_codes, "handshake_guard_saturated");
                }
                Some(
                    HandshakeGuardStatus {
                        max_inflight: guard.max_inflight,
                        timeout_ms: guard.timeout_ms,
                    },
                )
            },
            None => None,
        };
        let state = if disabled {
            text("disabled")
        } else if holds_text(&reason_codes, "tracked_source_capacity_saturated") || holds_text(
            &reason_codes,
            "handshake_guard_saturated",
        ) {
            text("constrained")
        } else {
            text("enforcing")
        };
        ListenerAbuseProtectionStatus {
            state,
            source_quota,
            handshake_guard,
            source_quota_rejections: snapshot.source_quota_rejections,
            tracked_source_limit_rejections: snapshot.tracked_source_limit_rejections,
            handshake_guard_rejections: snapshot.handshake_guard_rejections,
            tracked_sources: snapshot.tracked_sources,
            active_handshakes: snapshot.active_handshakes,
            reason_codes,
        }
    }

    /// The source quota as a JSON object, or `null`.
    pub open spec fn quota_json(self) -> Seq<char> {
        match self.source_quota {
            Some(quota) => "{\"aggregation\":\""@ + escaped(quota.aggregation@)
                + "\",\"max_active_per_source\":"@ + decimal(quota.max_active_per_source as nat)
                + ",\"max_tracked_sources\":"@ + decimal(quota.max_tracked_sources as nat) + "}"@,
            None => "null"@,
        }
    }

    /// The handshake guard as a JSON object, or `null`.
    pub open spec fn guard_json(self) -> Seq<char> {
        match self.handshake_guard {
            Some(guard) => "{\"max_inflight\":"@ + decimal(guard.max_inflight as nat)
                + ",\"timeout_ms\":"@ + decimal(guard.timeout_ms as nat) + "}"@,
            None => "null"@,
        }
    }

    /// The report as a JSON object.
    pub open spec fn json(self) -> Seq<char> {
        "{\"state\":\""@ + escaped(self.state@) + "\",\"source_quota\":"@ + self.quota_json()
            + ",\"handshake_guard\":"@ + self.guard_json() + ",\"source_quota_rejections\":"@
            + decimal(self.source_quota_rejections as nat)
            + ",\"tracked_source_limit_rejections\":"@ + decimal(
            self.tracked_source_limit_rejections as nat,
        ) + ",\"handshake_guard_rejections\":"@ + decimal(self.handshake_guard_rejections as nat)
            + ",\"tracked_sources\":"@ + decimal(self.tracked_sources as nat)
            + ",\"active_handshakes\":"@ + decimal(self.active_handshakes as nat)
            + ",\"reason_codes\":["@ + quoted_list(texts(self.reason_codes@)) + "]}"@
    }

    fn quota_text(&self) -> (r: String)
        ensures
            r@ == self.quota_json(),
    {
        match &self.source_quota {
            Some(quota) => {
                let mut out = text("{\"aggregation\":\"");
                put_escaped(&mut out, quota.aggregation.as_str());
                out.append("\",\"max_active_per_source\":");
                put_number(&mut out, quota.max_active_per_source as u64);
                out.append(",\"max_tracked_sources\":");
                put_number(&mut out, quota.max_tracked_sources as u64);
                out.append("}");
                out
            },
            None => text("null"),
        }
    }

    fn guard_text(&self) -> (r: String)
        ensures
            r@ == self.guard_json(),
    {
        match &self.handshake_guard {
            Some(guard) => {
                let mut out = text("{\"max_inflight\":");
                put_number(&mut out, guard.max_inflight as u64);
                out.append(",\"timeout_ms\":");
                put_number(&mut out, guard.timeout_ms);
                out.append("}");
                out
            },
            None => text("null"),
        }
    }

    /// The report as a JSON object.
    pub fn to_json(&self) -> (r: String)
        ensures
            r@ == self.json(),
    {
        let mut out = text("{\"state\":\"");
        put_escaped(&mut out, self.state.as_str());
        out.append("\",\"source_quota\":");
        let quota = self.quota_text();
        out.append(quota.as_str());
        out.append(",\"handshake_guard\":");
        let guard = self.guard_text();
        out.append(guard.as_str());
        out.append(",\"source_quota_rejections\":");
        put_number(&mut out, self.source_quota_rejections);
        out.append(",\"tracked_source_limit_rejections\":");
        put_number(&mut out, self.tracked_source_limit_rejections);
        out.append(",\"handshake_guard_rejections\":");
        put_number(&mut out, self.handshake_guard_rejections);
        out.append(",\"tracked_sources\":");
        put_number(&mut out, self.tracked_sources as u64);
        out.append(",\"active_handshakes\":");
        put_number(&mut out, self.active_handshakes as u64);
        out.append(",\"reason_codes\":[");
        put_quoted_list(&mut out, &self.reason_codes);
        out.append("]}");
        out
    }
}

/// What a listener's socket is, as it is reported.
#[derive(Debug, Clone, Copy, PartialEq, Eq, Structural)]
pub struct ListenerIdentityStatus {
    pub class: ListenerClassConfig,
    pub protocol: ListenerProtocolConfig,
    pub configured_bind: SocketAddress,
    pub bind_mode: ListenerBindMode,
}

/// The report of what a listener's socket is.
pub open spec fn identity_status(identity: ListenerIdentity) -> ListenerIdentityStatus {
    ListenerIdentityStatus {
        class: identity.class,
        protocol: identity.protocol,
        configured_bind: identity.configured_bind,
        bind_mode: identity.bind_mode,
    }
}

impl ListenerIdentityStatus {
    /// The report of what a listener's socket is.
    pub fn of(identity: ListenerIdentity) -> (r: Self)
        ensures
            r == identity_status(identity),
    {
        ListenerIdentityStatus {
            class: identity.class,
            protocol: identity.protocol,
            configured_bind: identity.configured_bind,
            bind_mode: identity.bind_mode,
        }
    }

    /// The report as a JSON object.
    pub open spec fn json(self) -> Seq<char> {
        "{\"class\":\""@ + class_name(self.class) + "\",\"protocol\":\""@ + protocol_name(
            self.protocol,
        ) + "\",\"configured_bind\":\""@ + self.configured_bind.written() + "\",\"bind_mode\":\""@
            + bind_mode_name(self.bind_mode) + "\"}"@
    }

    /// The report as a JSON object.
    pub fn to_json(&self) -> (r: String)
        ensures
            r@ == self.json(),
    {
        let mut out = text("{\"class\":\"");
        out.append(listener_class_name(self.class));
        out.append("\",\"protocol\":\"");
        out.append(listener_protocol_name(self.protocol));
        out.append("\",\"configured_bind\":\"");
        let address = self.configured_bind.to_text();
        out.append(address.as_str());
        out.append("\",\"bind_mode\":\"");
        out.append(listener_bind_mode_name(self.bind_mode));
        out.append("\"}");
        out
    }
}

/// Reports of sockets as the elements of a JSON array, without its brackets.
pub open spec fn identity_list(list: Seq<ListenerIdentityStatus>) -> Seq<char> {
    joined(list.map_values(|status: ListenerIdentityStatus| status.json()), ","@)
}

fn put_identity_list(out: &mut String, list: &Vec<ListenerIdentityStatus>)
    ensures
        final(out)@ == old(out)@ + identity_list(list@),
{
    let mut items: Vec<String> = Vec::new();
    let mut i: usize = 0;
    while i < list.len()
        invariant
            i <= list@.len(),
            items@.len() == i,
            forall|j: int| 0 <= j < i ==> (#[trigger] items@[j])@ == list@[j].json(),
        decreases list@.len() - i,
    {
        items.push(list[i].to_json());
        i = i + 1;
    }
    let all = join(&items, ",");
    proof {
        assert(texts(items@) =~= list@.map_values(|status: ListenerIdentityStatus| status.json()));
    }
    out.append(all.as_str());
}

/// A replacement that could not be started, as it is reported.
#[derive(Debug)]
pub struct FailedListenerStartStatus {
    pub identity: ListenerIdentityStatus,
    pub detail: String,
}

impl FailedListenerStartStatus {
    /// The report as a JSON object.
    pub open spec fn json(self) -> Seq<char> {
        "{\"identity\":"@ + self.identity.json() + ",\"detail\":\""@ + escaped(self.detail@)
            + "\"}"@
    }

    /// The report as a JSON object.
    pub fn to_json(&self) -> (r: String)
        ensures
            r@ == self.json(),
    {
        let mut out = text("{\"identity\":");
        let identity = self.identity.to_json();
        out.append(identity.as_str());
        out.append(",\"detail\":\"");
        put_escaped(&mut out, self.detail.as_str());
        out.append("\"}");
        out
    }
}

/// How the replacement of a listener stands, as it is reported.
#[derive(Debug)]
pub struct ListenerReplacementStatus {
    pub state: String,
    pub desired: ListenerIdentityStatus,
    pub draining: Vec<ListenerIdentityStatus>,
    pub retired_recent: Vec<ListenerIdentityStatus>,
    pub drain_timeout_recent: Vec<ListenerIdentityStatus>,
    pub failed_start: Option<FailedListenerStartStatus>,
}

/// The state of a listener's replacement.
pub open spec fn replacement_state(lifecycle: ListenerLifecycleModel) -> Seq<char> {
    if lifecycle.draining_identities@.len() > 0 {
        "replacement_draining"@
    } else if lifecycle.failed_start is Some {
        "failed_start_preserved"@
    } else if lifecycle.drain_timed_out_identities@.len() > 0 {
        "drain_timeout_expired"@
    } else {
        "stable"@
    }
}

/// The reports of sockets.
pub open spec fn identity_statuses(list: Seq<ListenerIdentity>) -> Seq<ListenerIdentityStatus> {
    list.map_values(|identity: ListenerIdentity| identity_status(identity))
}

fn report_identities(list: &Vec<ListenerIdentity>) -> (r: Vec<ListenerIdentityStatus>)
    ensures
        r@ == identity_statuses(list@),
{
    let mut out: Vec<ListenerIdentityStatus> = Vec::new();
    let mut i: usize = 0;
    while i < list.len()
        invariant
            i <= list@.len(),
            out@.len() == i,
            forall|j: int| 0 <= j < i ==> #[trigger] out@[j] == identity_status(list@[j]),
        decreases list@.len() - i,
    {
        out.push(ListenerIdentityStatus::of(list[i]));
        i = i + 1;
    }
    proof {
        assert(out@ =~= identity_statuses(list@));
    }
    out
}

impl ListenerReplacementStatus {
    /// Whether this is the report of a listener's life.
    pub open spec fn reports(self, lifecycle: ListenerLifecycleModel) -> bool {
        &&& self.state@ == replacement_state(lifecycle)
        &&& self.desired == identity_status(lifecycle.desired_identity)
        &&& self.draining@ == identity_statuses(lifecycle.draining_identities@)
        &&& self.retired_recent@ == identity_statuses(lifecycle.retired_identities@)
        &&& self.drain_timeout_recent@ == identity_statuses(lifecycle.drain_timed_out_identities@)
        &&& match lifecycle.failed_start {
            Some(failed) => self.failed_start matches Some(status) && status.identity
                == identity_status(failed.identity) && status.detail == failed.detail,
            None => self.failed_start is None,
        }
    }

    /// The report of a listener's life.
    pub fn from_lifecycle(lifecycle: &ListenerLifecycleModel) -> (r: Self)
        ensures
            r.reports(*lifecycle),
    {
        let failed_start = match &lifecycle.failed_start {
            Some(failed) => Some(
                FailedListenerStartStatus {
                    identity: ListenerIdentityStatus::of(failed.identity),
                    detail: failed.detail.clone(),
                },
            ),
            None => None,
        };
        let state = if lifecycle.draining_identities.len() > 0 {
            text("replacement_draining")
        } else if failed_start.is_some() {
            text("failed_start_preserved")
        } else if lifecycle.drain_timed_out_identities.len() > 0 {
            text("drain_timeout_expired")
        } else {
            text("stable")
        };
        ListenerReplacementStatus {
            state,
            desired: ListenerIdentityStatus::of(lifecycle.desired_identity),
            draining: report_identities(&lifecycle.draining_identities),
            retired_recent: report_identities(&lifecycle.retired_identities),
            drain_timeout_recent: report_identities(&lifecycle.drain_timed_out_identities),
            failed_start,
        }
    }

    /// The failed start as a JSON object, or `null`.
    pub open spec fn failed_json(self) -> Seq<char> {
        match self.failed_start {
            Some(failed) => failed.json(),
            None => "null"@,
        }
    }

    /// The report as a JSON object.
    pub open spec fn json(self) -> Seq<char> {
        "{\"state\":\""@ + escaped(self.state@) + "\",\"desired\":"@ + self.desired.json()
            + ",\"draining\":["@ + identity_list(self.draining@) + "],\"retired_recent\":["@
            + identity_list(self.retired_recent@) + "],\"drain_timeout_recent\":["@ + identity_list(
            self.drain_timeout_recent@,
        ) + "],\"failed_start\":"@ + self.failed_json() + "}"@
    }

    /// The report as a JSON object.
    pub fn to_json(&self) -> (r: String)
        ensures
            r@ == self.json(),
    {
        let mut out = text("{\"state\":\"");
        put_escaped(&mut out, self.state.as_str());
        out.append("\",\"desired\":");
        let desired = self.desired.to_json();
        out.append(desired.as_str());
        out.append(",\"draining\":[");
        put_identity_list(&mut out, &self.draining);
        out.append("],\"retired_recent\":[");
        put_identity_list(&mut out, &self.retired_recent);
        out.append("],\"drain_timeout_recent\":[");
        put_identity_list(&mut out, &self.drain_timeout_recent);
        out.append("],\"failed_start\":");
        let failed = match &self.failed_start {
            Some(failed) => failed.to_json(),
            None => text("null"),
        };
        out.append(failed.as_str());
        out.append("}");
        out
    }
}

/// A listener, as it is reported.
#[derive(Debug)]
pub struct ListenerStatus {
    pub name: String,
    pub class: ListenerClassConfig,
    pub protocol: ListenerProtocolConfig,
    pub configured_bind: SocketAddress,
    pub local_addr: SocketAddress,
    pub state: String,
    pub overload_state: String,
    pub accepted_connections: u64,
    pub active_connections: usize,
    pub completed_connections: u64,
    pub shed_connections: u64,
    pub abuse_protection: ListenerAbuseProtectionStatus,
    pub brownout_features: Vec<String>,
    pub recent_overload_events: Vec<OverloadEventStatus>,
    pub replacement: ListenerReplacementStatus,
    /// What is reported of its certificates, as a JSON object.
    pub tls: Option<String>,
}

/// Overload events as the elements of a JSON array, without its brackets.
pub open spec fn event_list(list: Seq<OverloadEventStatus>, sep: Seq<char>) -> Seq<char> {
    joined(list.map_values(|event: OverloadEventStatus| event.json()), sep)
}

/// Overload events as the elements of a JSON array, without its brackets.
pub fn events_text(list: &Vec<OverloadEventStatus>, sep: &str) -> (r: String)
    ensures
        r@ == event_list(list@, sep@),
{
    let mut items: Vec<String> = Vec::new();
    let mut i: usize = 0;
    while i < list.len()
        invariant
            i <= list@.len(),
            items@.len() == i,
            forall|j: int| 0 <= j < i ==> (#[trigger] items@[j])@ == list@[j].json(),
        decreases list@.len() - i,
    {
        items.push(list[i].to_json());
        i = i + 1;
    }
    proof {
        assert(texts(items@) =~= list@.map_values(|event: OverloadEventStatus| event.json()));
    }
    join(&items, sep)
}

impl ListenerStatus {
    /// What is reported of the certificates.
    pub open spec fn tls_json(self) -> Seq<char> {
        match self.tls {
            Some(tls) => tls@,
            None => "null"@,
        }
    }

    /// The report as a JSON object.
    pub open spec fn json(self) -> Seq<char> {
        "{\"name\":\""@ + escaped(self.name@) + "\",\"class\":\""@ + class_name(self.class)
            + "\",\"protocol\":\""@ + protocol_name(self.protocol) + "\",\"configured_bind\":\""@
            + self.configured_bind.written() + "\",\"local_addr\":\""@ + self.local_addr.written()
            + "\",\"state\":\""@ + escaped(self.state@) + "\",\"overload_state\":\""@ + escaped(
            self.overload_state@,
        ) + "\",\"accepted_connections\":"@ + decimal(self.accepted_connections as nat)
            + ",\"active_connections\":"@ + decimal(self.active_connections as nat)
            + ",\"shed_connections\":"@ + decimal(self.shed_connections as nat)
            + ",\"completed_connections\":"@ + decimal(self.completed_connections as nat)
            + ",\"abuse_protection\":"@ + self.abuse_protection.json()
            + ",\"brownout_features\":["@ + quoted_list(texts(self.brownout_features@))
            + "],\"recent_overload_events\":["@ + event_list(self.recent_overload_events@, ","@)
            + "],\"replacement\":"@ + self.replacement.json() + ",\"tls\":"@ + self.tls_json()
            + "}"@
    }

    /// The report as a JSON object.
    pub fn to_json(&self) -> (r: String)
        ensures
            r@ == self.json(),
    {
        let mut out = text("{\"name\":\"");
        put_escaped(&mut out, self.name.as_str());
        out.append("\",\"class\":\"");
        out.append(listener_class_name(self.class));
        out.append("\",\"protocol\":\"");
        out.append(listener_protocol_name(self.protocol));
        out.append("\",\"configured_bind\":\"");
        let configured = self.configured_bind.to_text();
        out.append(configured.as_str());
        out.append("\",\"local_addr\":\"");
        let local = self.local_addr.to_text();
        out.append(local.as_str());
        out.append("\",\"state\":\"");
        put_escaped(&mut out, self.state.as_str());
        out.append("\",\"overload_state\":\"");
        put_escaped(&mut out, self.overload_state.as_str());
        out.append("\",\"accepted_connections\":");
        put_number(&mut out, self.accepted_connections);
        out.append(",\"active_connections\":");
        put_number(&mut out, self.active_connections as u64);
        out.append(",\"shed_connections\":");
        put_number(&mut out, self.shed_connections);
        out.append(",\"completed_connections\":");
        put_number(&mut out, self.completed_connections);
        out.append(",\"abuse_protection\":");
        let abuse = self.abuse_protection.to_json();
        out.append(abuse.as_str());
        out.append(",\"brownout_features\":[");
        put_quoted_list(&mut out, &self.brownout_features);
        out.append("],\"recent_overload_events\":[");
        let events = events_text(&self.recent_overload_events, ",");
        out.append(events.as_str());
        out.append("],\"replacement\":");
        let replacement = self.replacement.to_json();
        out.append(replacement.as_str());
        out.append(",\"tls\":");
        match &self.tls {
            Some(tls) => out.append(tls.as_str()),
            None => out.append("null"),
        }
        out.append("}");
        out
    }
}

} // verus!
