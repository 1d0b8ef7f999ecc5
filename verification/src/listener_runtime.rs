//! What a running listener decides: which connections it takes, what those are told that it does
//! not take, and how its life ends.

use crate::compile_policies::CompiledListenerAbuseProtectionPolicy;
use crate::compile_runtime::{ListenerService, ManagedProxyConfig};
use crate::destination_policies::EngineDefaults;
use crate::listener_lifecycle::{ListenerDrainOutcome, ManagedListenerSlot};
use crate::listener_status::{
    AbuseRejectionCodes, ListenerAbuseProtectionSnapshot, ListenerAbuseProtectionStatus,
    ListenerReplacementStatus, ListenerStatus,
};
use crate::overload::{
    abuse_rejection_body, abuse_rejection_detail, abuse_rejection_reply, abuse_rejection_response,
    kind_word, overload_state_index, overload_state_name, shed_detail, state_index, state_name,
    ConnectionKind, OverloadManagerStatus, OverloadState,
};
use crate::text::{decimal, text};
use vstd::prelude::*;
use vstd::string::*;
use vstd::utf8::*;

verus! {

/// How long the first bytes of an HTTP/3 connection may take, in milliseconds.
pub const HTTP3_PREFACE_TIMEOUT_MS: u64 = 5000;

/// What a running listener counts. Counters start again at zero after their last value.
#[derive(Debug)]
pub struct ListenerRuntimeCounters {
    pub accepted_connections: u64,
    pub shed_connections: u64,
    pub active_connections: usize,
    pub completed_connections: u64,
    pub overload_state: usize,
    pub state: String,
}

/// How long the first bytes of a connection may take, in milliseconds.
pub open spec fn preface_timeout(proxy: ManagedProxyConfig, defaults: EngineDefaults) -> u64 {
    if proxy is Http3 {
        HTTP3_PREFACE_TIMEOUT_MS
    } else {
        defaults.preface_timeout_ms
    }
}

/// How long the first bytes of a connection may take, in milliseconds.
pub fn proxy_preface_timeout(proxy: &ManagedProxyConfig, defaults: &EngineDefaults) -> (r: u64)
    ensures
        r == preface_timeout(*proxy, *defaults),
{
    match proxy {
        ManagedProxyConfig::Http1(_) => defaults.preface_timeout_ms,
        ManagedProxyConfig::Http2(_) => defaults.preface_timeout_ms,
        ManagedProxyConfig::Https { .. } => defaults.preface_timeout_ms,
        ManagedProxyConfig::Http3 { .. } => HTTP3_PREFACE_TIMEOUT_MS,
    }
}

/// Whether a listener's connections are encrypted by a handshake of their own.
pub open spec fn shakes_hands(service: ListenerService) -> bool {
    match service {
        ListenerService::Public(proxy) => proxy is Https,
        ListenerService::Admin { tls, .. } => tls is Some,
    }
}

/// Whether a connection keeps its handshake permit until its handshake is over. The others give
/// it back at once.
pub fn keeps_handshake_permit(service: &ListenerService) -> (r: bool)
    ensures
        r == shakes_hands(*service),
{
    match service {
        ListenerService::Public(proxy) => match proxy {
            ManagedProxyConfig::Https { .. } => true,
            _ => false,
        },
        ListenerService::Admin { tls, .. } => tls.is_some(),
    }
}

/// Whether a connection that is not taken can be told so in plain HTTP.
pub open spec fn speaks_plainly(service: ListenerService) -> bool {
    match service {
        ListenerService::Public(proxy) => proxy is Http1,
        ListenerService::Admin { tls, .. } => tls is None,
    }
}

/// Whether a connection that is not taken is told so.
pub fn answers_rejections(service: &ListenerService) -> (r: bool)
    ensures
        r == speaks_plainly(*service),
{
    match service {
        ListenerService::Public(proxy) => match proxy {
            ManagedProxyConfig::Http1(_) => true,
            _ => false,
        },
        ListenerService::Admin { tls, .. } => tls.is_none(),
    }
}

/// What becomes of a connection.
#[derive(Debug)]
pub enum Admission {
    Admitted,
    Shed {
        event_detail: String,
    },
}

/// Takes a slot for a connection, unless all are taken.
pub fn try_acquire_listener_slot(
    counters: &mut ListenerRuntimeCounters,
    admission_limit: usize,
) -> (r: bool)
    ensures
        r == (old(counters).active_connections < admission_limit),
        *final(counters) == (if r {
            ListenerRuntimeCounters {
                active_connections: (old(counters).active_connections + 1) as usize,
                ..*old(counters)
            }
        } else {
            *old(counters)
        }),
        old(counters).active_connections <= admission_limit ==> final(counters).active_connections
            <= admission_limit,
{
    if counters.active_connections >= admission_limit {
        return false;
    }
    counters.active_connections = counters.active_connections + 1;
    true
}

impl ListenerRuntimeCounters {
    /// The counters of a listener that starts.
    pub fn new() -> (r: Self)
        ensures
            r.accepted_connections == 0,
            r.shed_connections == 0,
            r.active_connections == 0,
            r.completed_connections == 0,
            r.overload_state == state_index(OverloadState::Normal),
            r.state@ == "starting"@,
    {
        ListenerRuntimeCounters {
            accepted_connections: 0,
            shed_connections: 0,
            active_connections: 0,
            completed_connections: 0,
            overload_state: overload_state_index(OverloadState::Normal),
            state: text("starting"),
        }
    }

    /// Takes note that the listener takes connections.
    pub fn start_running(&mut self)
        ensures
            final(self).state@ == "running"@,
            *final(self) == (ListenerRuntimeCounters { state: final(self).state, ..*old(self) }),
    {
        self.state = text("running");
    }

    /// Takes a connection that reached the listener, or sheds it where all slots are taken.
    pub fn take_connection(&mut self, kind: ConnectionKind, admission_limit: usize) -> (r: Admission)
        ensures
            r is Admitted <==> old(self).active_connections < admission_limit,
            r matches Admission::Shed { event_detail } ==> event_detail@ == "listener shed "@
                + kind_word(kind) + " connection at capacity "@ + decimal(admission_limit as nat),
            *final(self) == (if r is Admitted {
                ListenerRuntimeCounters {
                    accepted_connections: old(self).accepted_connections.wrapping_add(1),
                    active_connections: (old(self).active_connections + 1) as usize,
                    ..*old(self)
                }
            } else {
                ListenerRuntimeCounters {
                    accepted_connections: old(self).accepted_connections.wrapping_add(1),
                    shed_connections: old(self).shed_connections.wrapping_add(1),
                    ..*old(self)
                }
            }),
            old(self).active_connections <= admission_limit ==> final(self).active_connections
                <= admission_limit,
    {
        self.accepted_connections = self.accepted_connections.wrapping_add(1);
        if try_acquire_listener_slot(self, admission_limit) {
            Admission::Admitted
        } else {
            self.shed_connections = self.shed_connections.wrapping_add(1);
            Admission::Shed { event_detail: shed_detail(kind, admission_limit) }
        }
    }

    /// Gives back the slot of a connection that is over.
    pub fn finish_connection(&mut self)
        ensures
            *final(self) == (ListenerRuntimeCounters {
                active_connections: old(self).active_connections.wrapping_sub(1),
                completed_connections: old(self).completed_connections.wrapping_add(1),
                ..*old(self)
            }),
            old(self).active_connections > 0 ==> final(self).active_connections == old(
                self,
            ).active_connections - 1,
    {
        self.active_connections = self.active_connections.wrapping_sub(1);
        self.completed_connections = self.completed_connections.wrapping_add(1);
    }

    /// Takes note that the listener takes no more connections.
    pub fn start_draining(&mut self)
        ensures
            final(self).state@ == "draining"@,
            *final(self) == (ListenerRuntimeCounters { state: final(self).state, ..*old(self) }),
    {
        self.state = text("draining");
    }

    /// Takes note of how the draining ended.
    pub fn finish_draining(&mut self, drained_in_time: bool) -> (r: ListenerDrainOutcome)
        ensures
            r is Completed <==> drained_in_time,
            final(self).state@ == (if drained_in_time {
                "stopped"@
            } else {
                "drain_timeout_expired"@
            }),
            *final(self) == (ListenerRuntimeCounters { state: final(self).state, ..*old(self) }),
    {
        if drained_in_time {
            self.state = text("stopped");
            ListenerDrainOutcome::Completed
        } else {
            self.state = text("drain_timeout_expired");
            ListenerDrainOutcome::TimedOut
        }
    }
}

/// How a connection is turned away that hostile-edge protection rejects.
#[derive(Debug)]
pub struct HostileRejection {
    /// The detail of the event that reports it.
    pub event_detail: String,
    /// The whole reply, where the client is told.
    pub reply: Option<String>,
}

/// Turns away a connection that hostile-edge protection rejects, for the reason with a code and a
/// detail.
pub fn reject_hostile_connection(service: &ListenerService, code: &str, detail: &str) -> (r:
    HostileRejection)
    ensures
        r.event_detail@ == "listener rejected hostile-edge connection: "@ + code@ + " ("@ + detail@
            + ")"@,
        match r.reply {
            Some(reply) => speaks_plainly(*service) && reply@ == abuse_rejection_reply(
                code@,
                encode_utf8(abuse_rejection_body(code@)).len(),
            ),
            None => !speaks_plainly(*service),
        },
{
    let event_detail = abuse_rejection_detail(code, detail);
    let reply = if answers_rejections(service) {
        Some(abuse_rejection_response(code))
    } else {
        None
    };
    HostileRejection { event_detail, reply }
}

/// What a connection that was shed is told: a status, a content type and a body.
pub fn overload_response(service: &ListenerService) -> (r: Option<
    (&'static str, &'static str, &'static str),
>)
    ensures
        match r {
            Some((status, content_type, body)) => {
                &&& speaks_plainly(*service)
                &&& status@ == "503 Service Unavailable"@
                &&& content_type@ == "text/plain; charset=utf-8"@
                &&& body@ == "listener overloaded\n"@
            },
            None => !speaks_plainly(*service),
        },
{
    if answers_rejections(service) {
        Some(
            ("503 Service Unavailable", "text/plain; charset=utf-8", "listener overloaded\n"),
        )
    } else {
        None
    }
}

/// What is read of a running listener for a report.
#[derive(Debug)]
pub struct ListenerReadings {
    pub overload: OverloadManagerStatus,
    pub abuse_policy: Option<CompiledListenerAbuseProtectionPolicy>,
    pub abuse_snapshot: ListenerAbuseProtectionSnapshot,
    /// What is reported of its certificates, as a JSON object.
    pub tls_report: Option<String>,
}

/// Reports on a running listener. Certificates are reported where connections are encrypted by a
/// handshake of their own.
pub fn report_listener(
    name: &str,
    slot: &ManagedListenerSlot,
    service: &ListenerService,
    counters: &ListenerRuntimeCounters,
    readings: ListenerReadings,
    codes: &AbuseRejectionCodes,
) -> (r: ListenerStatus)
    ensures
        r.name@ == name@,
        r.class == slot.active.class,
        r.protocol == slot.active.protocol,
        r.configured_bind == slot.active.configured_bind,
        r.local_addr == slot.active.local_addr,
        r.state == counters.state,
        r.overload_state@ == state_name(readings.overload.state),
        r.accepted_connections == counters.accepted_connections,
        r.active_connections == counters.active_connections,
        r.shed_connections == counters.shed_connections,
        r.completed_connections == counters.completed_connections,
        r.abuse_protection.reports(readings.abuse_policy, readings.abuse_snapshot, *codes),
        r.brownout_features == readings.overload.disabled_features,
        r.recent_overload_events == readings.overload.recent_events,
        r.replacement.reports(slot.lifecycle),
        r.tls == (if shakes_hands(*service) {
            readings.tls_report
        } else {
            None
        }),
{
    let tls = if keeps_handshake_permit(service) {
        readings.tls_report
    } else {
        None
    };
    ListenerStatus {
        name: text(name),
        class: slot.active.class,
        protocol: slot.active.protocol,
        configured_bind: slot.active.configured_bind,
        local_addr: slot.active.local_addr,
        state: counters.state.clone(),
        overload_state: text(overload_state_name(readings.overload.state)),
        accepted_connections: counters.accepted_connections,
        active_connections: counters.active_connections,
        completed_connections: counters.completed_connections,
        shed_connections: counters.shed_connections,
        abuse_protection: ListenerAbuseProtectionStatus::from_runtime(
            &readings.abuse_policy,
            readings.abuse_snapshot,
            codes,
        ),
        brownout_features: readings.overload.disabled_features,
        recent_overload_events: readings.overload.recent_events,
        replacement: ListenerReplacementStatus::from_lifecycle(&slot.lifecycle),
        tls,
    }
}

} // verus!
