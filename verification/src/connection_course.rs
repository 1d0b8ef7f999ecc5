//! The course of a connection: what is asked about it before it is served, what becomes of it, and
//! what is counted.

use crate::addr::SocketAddress;
use crate::compile_runtime::{ListenerService, ManagedProxyConfig};
use crate::destination_policies::EngineDefaults;
use crate::listener_runtime::{
    answers_rejections, keeps_handshake_permit, preface_timeout, proxy_preface_timeout, shakes_hands,
    speaks_plainly, Admission, ListenerRuntimeCounters,
};
use crate::overload::ConnectionKind;
use crate::proxy_protocol::{downstream_address, ProxyProtocolModeConfig};
use vstd::prelude::*;

verus! {

/// The terms on which a listener takes connections.
#[derive(Debug, Clone, Copy, PartialEq, Eq, Structural)]
pub struct ListenerTerms {
    pub kind: ConnectionKind,
    /// Where the first bytes of a connection say who the client is.
    pub proxy_protocol: ProxyProtocolModeConfig,
    pub preface_timeout_ms: u64,
    /// Whether a connection that is turned away can be told so.
    pub tells: bool,
    /// Whether a connection keeps its handshake permit until its own handshake is over.
    pub keeps_permit: bool,
}

/// What kind of connections a service takes.
pub open spec fn kind_of(service: ListenerService) -> ConnectionKind {
    match service {
        ListenerService::Admin { .. } => ConnectionKind::Admin,
        ListenerService::Public(proxy) => if proxy is Http3 {
            ConnectionKind::Http3
        } else {
            ConnectionKind::Public
        },
    }
}

impl ListenerTerms {
    /// The terms of a listener's service. The administration interface reads no preface.
    pub open spec fn of_service(
        service: ListenerService,
        proxy_protocol: ProxyProtocolModeConfig,
        defaults: EngineDefaults,
    ) -> Self {
        ListenerTerms {
            kind: kind_of(service),
            proxy_protocol: if service is Admin {
                ProxyProtocolModeConfig::Disabled
            } else {
                proxy_protocol
            },
            preface_timeout_ms: match service {
                ListenerService::Public(proxy) => preface_timeout(proxy, defaults),
                ListenerService::Admin { .. } => 0,
            },
            tells: speaks_plainly(service),
            keeps_permit: shakes_hands(service),
        }
    }

    /// The terms of a listener's service.
    pub fn of(
        service: &ListenerService,
        proxy_protocol: ProxyProtocolModeConfig,
        defaults: &EngineDefaults,
    ) -> (r: Self)
        ensures
            r == Self::of_service(*service, proxy_protocol, *defaults),
    {
        let tells = answers_rejections(service);
        let keeps_permit = keeps_handshake_permit(service);
        match service {
            ListenerService::Admin { .. } => ListenerTerms {
                kind: ConnectionKind::Admin,
                proxy_protocol: ProxyProtocolModeConfig::Disabled,
                preface_timeout_ms: 0,
                tells,
                keeps_permit,
            },
            ListenerService::Public(proxy) => {
                let kind = match proxy {
                    ManagedProxyConfig::Http3 { .. } => ConnectionKind::Http3,
                    _ => ConnectionKind::Public,
                };
                ListenerTerms {
                    kind,
                    proxy_protocol,
                    preface_timeout_ms: proxy_preface_timeout(proxy, defaults),
                    tells,
                    keeps_permit,
                }
            },
        }
    }
}

/// How far a connection has come.
#[derive(Debug, Clone, Copy, PartialEq, Eq, Structural)]
pub enum ConnectionStage {
    /// It has not reached the listener yet.
    Expected,
    /// Its first bytes are being read.
    Preface { peer: SocketAddress },
    /// The quota of its source has been asked for a place.
    Quota { address: SocketAddress },
    /// The guard of handshakes has been asked for a permit.
    Guard { address: SocketAddress },
    /// It holds a slot, and its transport is being set up.
    Connecting,
    /// It holds a slot, and the quota of its source has been asked for a place.
    LateQuota { address: SocketAddress },
    /// It holds a slot and is served.
    Serving,
    /// It is over.
    Closed,
}

/// What happens to a connection.
#[derive(Debug, Clone, Copy, PartialEq, Eq, Structural)]
pub enum ConnectionEvent {
    Reached { peer: SocketAddress },
    PrefaceRead { named: Option<SocketAddress> },
    PrefaceFailed,
    /// What was asked for is granted.
    Granted,
    /// What was asked for is refused.
    Refused,
    Connected { address: SocketAddress },
    /// Its transport could not be set up.
    Broken,
    /// It has been served.
    Ended,
}

/// What is done about a connection.
#[derive(Debug, Clone, Copy, PartialEq, Eq, Structural)]
pub enum ConnectionStep {
    /// Its first bytes are read, for no longer than a time.
    ReadPreface { version: ProxyProtocolModeConfig, timeout_ms: u64 },
    /// The quota of its source is asked for a place.
    AskQuota { address: SocketAddress },
    /// The guard of handshakes is asked for a permit, which is given back at once if it is not
    /// kept.
    AskGuard { keep_permit: bool },
    /// Its transport is set up.
    Connect,
    /// It is served.
    Serve { address: SocketAddress },
    /// It is turned away, and that is reported. Its place in the quota is given back if it has
    /// one, and it is told why if it can be.
    TurnAway { leave_quota: bool, tell: bool },
    /// It is shed, and that is reported. What it holds of the quota and the guard is given back,
    /// and it is told why if it can be.
    Shed { leave_guards: bool, tell: bool },
    /// It is closed without a word.
    Drop,
    /// What it holds is given back.
    Finish,
    /// The event says nothing of a connection at this stage.
    Ignore,
}

/// What is counted.
pub enum Count {
    Nothing,
    Taken,
    Shed,
    Finished,
}

/// What follows once a slot has been asked for.
pub open spec fn slotted(
    free: bool,
    stage: ConnectionStage,
    step: ConnectionStep,
    leave_guards: bool,
    tell: bool,
) -> (ConnectionStage, ConnectionStep, Count) {
    if free {
        (stage, step, Count::Taken)
    } else {
        (ConnectionStage::Closed, ConnectionStep::Shed { leave_guards, tell }, Count::Shed)
    }
}

/// What follows from an event, where a slot is free or not.
pub open spec fn course(
    terms: ListenerTerms,
    free: bool,
    stage: ConnectionStage,
    event: ConnectionEvent,
) -> (ConnectionStage, ConnectionStep, Count) {
    match (stage, event) {
        (ConnectionStage::Expected, ConnectionEvent::Reached { peer }) => {
            if terms.kind is Http3 {
                slotted(free, ConnectionStage::Connecting, ConnectionStep::Connect, false, terms.tells)
            } else if terms.proxy_protocol is Disabled {
                (
                    ConnectionStage::Quota { address: peer },
                    ConnectionStep::AskQuota { address: peer },
                    Count::Nothing,
                )
            } else {
                (
                    ConnectionStage::Preface { peer },
                    ConnectionStep::ReadPreface {
                        version: terms.proxy_protocol,
                        timeout_ms: terms.preface_timeout_ms,
                    },
                    Count::Nothing,
                )
            }
        },
        (ConnectionStage::Preface { peer }, ConnectionEvent::PrefaceRead { named }) => {
            let address = match named {
                Some(address) => address,
                None => peer,
            };
            (
                ConnectionStage::Quota { address },
                ConnectionStep::AskQuota { address },
                Count::Nothing,
            )
        },
        (ConnectionStage::Preface { .. }, ConnectionEvent::PrefaceFailed) => (
            ConnectionStage::Closed,
            ConnectionStep::Drop,
            Count::Nothing,
        ),
        (ConnectionStage::Quota { address }, ConnectionEvent::Granted) => (
            ConnectionStage::Guard { address },
            ConnectionStep::AskGuard { keep_permit: terms.keeps_permit },
            Count::Nothing,
        ),
        (ConnectionStage::Quota { .. }, ConnectionEvent::Refused) => (
            ConnectionStage::Closed,
            ConnectionStep::TurnAway { leave_quota: false, tell: terms.tells },
            Count::Nothing,
        ),
        (ConnectionStage::Guard { address }, ConnectionEvent::Granted) => slotted(
            free,
            ConnectionStage::Serving,
            ConnectionStep::Serve { address },
            true,
            terms.tells,
        ),
        (ConnectionStage::Guard { .. }, ConnectionEvent::Refused) => (
            ConnectionStage::Closed,
            ConnectionStep::TurnAway { leave_quota: true, tell: terms.tells },
            Count::Nothing,
        ),
        (ConnectionStage::Connecting, ConnectionEvent::Connected { address }) => (
            ConnectionStage::LateQuota { address },
            ConnectionStep::AskQuota { address },
            Count::Nothing,
        ),
        (ConnectionStage::Connecting, ConnectionEvent::Broken) => (
            ConnectionStage::Closed,
            ConnectionStep::Finish,
            Count::Finished,
        ),
        (ConnectionStage::LateQuota { address }, ConnectionEvent::Granted) => (
            ConnectionStage::Serving,
            ConnectionStep::Serve { address },
            Count::Nothing,
        ),
        (ConnectionStage::LateQuota { .. }, ConnectionEvent::Refused) => (
            ConnectionStage::Closed,
            ConnectionStep::Finish,
            Count::Finished,
        ),
        (ConnectionStage::Serving, ConnectionEvent::Ended) => (
            ConnectionStage::Closed,
            ConnectionStep::Finish,
            Count::Finished,
        ),
        _ => (stage, ConnectionStep::Ignore, Count::Nothing),
    }
}

/// The counters after something was counted.
pub open spec fn counted(counters: ListenerRuntimeCounters, count: Count) -> ListenerRuntimeCounters {
    match count {
        Count::Nothing => counters,
        Count::Taken => ListenerRuntimeCounters {
            accepted_connections: counters.accepted_connections.wrapping_add(1),
            active_connections: (counters.active_connections + 1) as usize,
            ..counters
        },
        Count::Shed => ListenerRuntimeCounters {
            accepted_connections: counters.accepted_connections.wrapping_add(1),
            shed_connections: counters.shed_connections.wrapping_add(1),
            ..counters
        },
        Count::Finished => ListenerRuntimeCounters {
            active_connections: counters.active_connections.wrapping_sub(1),
            completed_connections: counters.completed_connections.wrapping_add(1),
            ..counters
        },
    }
}

/// What follows from an event, and the counters after it.
pub open spec fn advanced(
    terms: ListenerTerms,
    limit: usize,
    stage: ConnectionStage,
    event: ConnectionEvent,
    counters: ListenerRuntimeCounters,
) -> (ConnectionStage, ConnectionStep, ListenerRuntimeCounters) {
    let (next, step, count) = course(terms, counters.active_connections < limit, stage, event);
    (next, step, counted(counters, count))
}

fn take_slot(
    terms: &ListenerTerms,
    limit: usize,
    counters: &mut ListenerRuntimeCounters,
    stage: ConnectionStage,
    step: ConnectionStep,
    leave_guards: bool,
) -> (r: (ConnectionStage, ConnectionStep))
    ensures
        ({
            let (next, done, count) = slotted(
                old(counters).active_connections < limit,
                stage,
                step,
                leave_guards,
                terms.tells,
            );
            r == (next, done) && *final(counters) == counted(*old(counters), count)
        }),
{
    match counters.take_connection(terms.kind, limit) {
        Admission::Admitted => (stage, step),
        Admission::Shed { .. } => (
            ConnectionStage::Closed,
            ConnectionStep::Shed { leave_guards, tell: terms.tells },
        ),
    }
}

/// Decides what is done about a connection after an event, and counts it.
pub fn advance_connection(
    terms: &ListenerTerms,
    limit: usize,
    stage: ConnectionStage,
    event: ConnectionEvent,
    counters: &mut ListenerRuntimeCounters,
) -> (r: (ConnectionStage, ConnectionStep))
    ensures
        (r.0, r.1, *final(counters)) == advanced(*terms, limit, stage, event, *old(counters)),
        old(counters).active_connections <= limit && !(r.1 is Finish)
            ==> final(counters).active_connections <= limit,
{
    match (stage, event) {
        (ConnectionStage::Expected, ConnectionEvent::Reached { peer }) => {
            match (terms.kind, terms.proxy_protocol) {
                (ConnectionKind::Http3, _) => take_slot(
                    terms,
                    limit,
                    counters,
                    ConnectionStage::Connecting,
                    ConnectionStep::Connect,
                    false,
                ),
                (_, ProxyProtocolModeConfig::Disabled) => (
                    ConnectionStage::Quota { address: peer },
                    ConnectionStep::AskQuota { address: peer },
                ),
                (_, version) => (
                    ConnectionStage::Preface { peer },
                    ConnectionStep::ReadPreface { version, timeout_ms: terms.preface_timeout_ms },
                ),
            }
        },
        (ConnectionStage::Preface { peer }, ConnectionEvent::PrefaceRead { named }) => {
            let address = downstream_address(peer, named);
            (ConnectionStage::Quota { address }, ConnectionStep::AskQuota { address })
        },
        (ConnectionStage::Preface { .. }, ConnectionEvent::PrefaceFailed) => (
            ConnectionStage::Closed,
            ConnectionStep::Drop,
        ),
        (ConnectionStage::Quota { address }, ConnectionEvent::Granted) => (
            ConnectionStage::Guard { address },
            ConnectionStep::AskGuard { keep_permit: terms.keeps_permit },
        ),
        (ConnectionStage::Quota { .. }, ConnectionEvent::Refused) => (
            ConnectionStage::Closed,
            ConnectionStep::TurnAway { leave_quota: false, tell: terms.tells },
        ),
        (ConnectionStage::Guard { address }, ConnectionEvent::Granted) => take_slot(
            terms,
            limit,
            counters,
            ConnectionStage::Serving,
            ConnectionStep::Serve { address },
            true,
        ),
        (ConnectionStage::Guard { .. }, ConnectionEvent::Refused) => (
            ConnectionStage::Closed,
            ConnectionStep::TurnAway { leave_quota: true, tell: terms.tells },
        ),
        (ConnectionStage::Connecting, ConnectionEvent::Connected { address }) => (
            ConnectionStage::LateQuota { address },
            ConnectionStep::AskQuota { address },
        ),
        (ConnectionStage::LateQuota { address }, ConnectionEvent::Granted) => (
            ConnectionStage::Serving,
            ConnectionStep::Serve { address },
        ),
        (ConnectionStage::Connecting, ConnectionEvent::Broken) => {
            counters.finish_connection();
            (ConnectionStage::Closed, ConnectionStep::Finish)
        },
        (ConnectionStage::LateQuota { .. }, ConnectionEvent::Refused) => {
            counters.finish_connection();
            (ConnectionStage::Closed, ConnectionStep::Finish)
        },
        (ConnectionStage::Serving, ConnectionEvent::Ended) => {
            counters.finish_connection();
            (ConnectionStage::Closed, ConnectionStep::Finish)
        },
        _ => (stage, ConnectionStep::Ignore),
    }
}

/// The stage and the counters after a connection went through events.
pub open spec fn run(
    terms: ListenerTerms,
    limit: usize,
    counters: ListenerRuntimeCounters,
    events: Seq<ConnectionEvent>,
) -> (ConnectionStage, ListenerRuntimeCounters)
    decreases events.len(),
{
    if events.len() == 0 {
        (ConnectionStage::Expected, counters)
    } else {
        let (stage, before) = run(terms, limit, counters, events.drop_last());
        let (next, step, after) = advanced(terms, limit, stage, events.last(), before);
        (next, after)
    }
}

/// How often something was granted.
pub open spec fn grants(events: Seq<ConnectionEvent>) -> nat
    decreases events.len(),
{
    if events.len() == 0 {
        0
    } else {
        grants(events.drop_last()) + if events.last() is Granted {
            1nat
        } else {
            0nat
        }
    }
}

/// Whether a connection at a stage holds a slot.
pub open spec fn holds_slot(stage: ConnectionStage) -> bool {
    stage is Connecting || stage is LateQuota || stage is Serving
}

/// A connection holds a slot only after both the quota of its source and the guard of handshakes
/// let it pass, and it is served over HTTP/3 only after the quota did.
pub proof fn served_connections_passed_the_gates(
    terms: ListenerTerms,
    limit: usize,
    counters: ListenerRuntimeCounters,
    events: Seq<ConnectionEvent>,
)
    ensures
        ({
            let stage = run(terms, limit, counters, events).0;
            &&& stage is Guard ==> grants(events) >= 1
            &&& !(terms.kind is Http3) && holds_slot(stage) ==> stage is Serving && grants(events)
                >= 2
            &&& terms.kind is Http3 ==> !(stage is Guard) && !(stage is Quota) && !(
            stage is Preface)
            &&& stage is Serving ==> grants(events) >= 1
        }),
    decreases events.len(),
{
    if events.len() > 0 {
        served_connections_passed_the_gates(terms, limit, counters, events.drop_last());
    }
}

/// A connection takes one slot as long as it holds one, and gives it back: once it is over, as
/// many slots are taken as before it came.
pub proof fn connections_give_their_slot_back(
    terms: ListenerTerms,
    limit: usize,
    counters: ListenerRuntimeCounters,
    events: Seq<ConnectionEvent>,
)
    ensures
        ({
            let (stage, after) = run(terms, limit, counters, events);
            &&& holds_slot(stage) ==> counters.active_connections < limit
                && after.active_connections == counters.active_connections + 1
            &&& !holds_slot(stage) ==> after.active_connections == counters.active_connections
        }),
    decreases events.len(),
{
    if events.len() > 0 {
        connections_give_their_slot_back(terms, limit, counters, events.drop_last());
    }
}

/// A connection that is turned away or dropped is not counted.
pub proof fn unserved_connections_are_not_counted(
    terms: ListenerTerms,
    limit: usize,
    stage: ConnectionStage,
    event: ConnectionEvent,
    counters: ListenerRuntimeCounters,
)
    requires
        ({
            let step = advanced(terms, limit, stage, event, counters).1;
            step is TurnAway || step is Drop || step is Ignore
        }),
    ensures
        advanced(terms, limit, stage, event, counters).2 == counters,
{
}

} // verus!
