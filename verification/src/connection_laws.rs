//! What holds of all connections: on which terms they are taken, what they are asked for, and how
//! they are counted.

use crate::addr::SocketAddress;
use crate::compile_runtime::{ListenerService, ManagedProxyConfig};
use crate::connection_course::{
    advanced, holds_slot, run, ConnectionEvent, ConnectionStage, ConnectionStep, ListenerTerms,
};
use crate::destination_policies::EngineDefaults;
use crate::listener_runtime::ListenerRuntimeCounters;
use crate::overload::ConnectionKind;
use crate::proxy_protocol::ProxyProtocolModeConfig;
use vstd::prelude::*;

verus! {

/// The terms of a public listener: its preface is the one that is configured, and may take as long
/// as the engine says, or five seconds over HTTP/3. Only plain HTTP/1 can be told why it is turned
/// away, and only HTTPS keeps its handshake permit.
pub proof fn public_listeners_have_their_terms(
    proxy: ManagedProxyConfig,
    proxy_protocol: ProxyProtocolModeConfig,
    defaults: EngineDefaults,
)
    ensures
        ({
            let terms = ListenerTerms::of_service(
                ListenerService::Public(proxy),
                proxy_protocol,
                defaults,
            );
            &&& terms.kind == (if proxy is Http3 {
                ConnectionKind::Http3
            } else {
                ConnectionKind::Public
            })
            &&& terms.proxy_protocol == proxy_protocol
            &&& terms.preface_timeout_ms == (if proxy is Http3 {
                5000u64
            } else {
                defaults.preface_timeout_ms
            })
            &&& terms.tells <==> proxy is Http1
            &&& terms.keeps_permit <==> proxy is Https
        }),
{
}

/// The terms of an administration listener: it reads no preface, is told why it is turned away
/// exactly where it is not encrypted, and keeps its handshake permit exactly where it is.
pub proof fn administration_listeners_have_their_terms(
    service: ListenerService,
    proxy_protocol: ProxyProtocolModeConfig,
    defaults: EngineDefaults,
)
    requires
        service is Admin,
    ensures
        ({
            let terms = ListenerTerms::of_service(service, proxy_protocol, defaults);
            &&& terms.kind is Admin
            &&& terms.proxy_protocol is Disabled
            &&& terms.tells <==> service->Admin_tls is None
            &&& terms.keeps_permit <==> service->Admin_tls is Some
        }),
{
}

/// Whether a connection is about to ask for a slot.
pub open spec fn asks_for_a_slot(
    terms: ListenerTerms,
    stage: ConnectionStage,
    event: ConnectionEvent,
) -> bool {
    ||| stage is Guard && event is Granted
    ||| terms.kind is Http3 && stage is Expected && event is Reached
}

/// A connection that asks for a slot gets one exactly where one is free, and is shed otherwise. Both
/// are counted as accepted; one that got a slot is active, and one that did not is counted as shed.
pub proof fn slots_are_given_while_they_last(
    terms: ListenerTerms,
    limit: usize,
    stage: ConnectionStage,
    event: ConnectionEvent,
    counters: ListenerRuntimeCounters,
)
    requires
        asks_for_a_slot(terms, stage, event),
    ensures
        ({
            let (next, step, after) = advanced(terms, limit, stage, event, counters);
            let free = counters.active_connections < limit;
            &&& holds_slot(next) <==> free
            &&& step is Shed <==> !free
            &&& !free ==> next is Closed && step == (ConnectionStep::Shed {
                leave_guards: stage is Guard,
                tell: terms.tells,
            })
            &&& free && stage is Guard ==> step == (ConnectionStep::Serve {
                address: stage->Guard_address,
            })
            &&& free && stage is Expected ==> step is Connect
            &&& after.accepted_connections == (if counters.accepted_connections == u64::MAX {
                0
            } else {
                counters.accepted_connections + 1
            })
            &&& after.active_connections == counters.active_connections + if free {
                1int
            } else {
                0int
            }
            &&& free ==> after.shed_connections == counters.shed_connections
            &&& !free ==> after.shed_connections == (if counters.shed_connections == u64::MAX {
                0
            } else {
                counters.shed_connections + 1
            })
            &&& after.completed_connections == counters.completed_connections
        }),
{
}

/// Nothing but asking for a slot counts a connection as accepted or shed, and exactly the end of a
/// connection that holds a slot counts it as completed.
pub proof fn connections_are_counted_once(
    terms: ListenerTerms,
    limit: usize,
    stage: ConnectionStage,
    event: ConnectionEvent,
    counters: ListenerRuntimeCounters,
)
    ensures
        ({
            let (next, step, after) = advanced(terms, limit, stage, event, counters);
            &&& !asks_for_a_slot(terms, stage, event) ==> after.accepted_connections
                == counters.accepted_connections && after.shed_connections
                == counters.shed_connections
            &&& step is Finish <==> holds_slot(stage) && next is Closed
            &&& step is Finish ==> after.completed_connections == (
            if counters.completed_connections == u64::MAX {
                0
            } else {
                counters.completed_connections + 1
            })
            &&& !(step is Finish) ==> after.completed_connections
                == counters.completed_connections
            &&& after.state == counters.state
            &&& after.overload_state == counters.overload_state
        }),
{
}

/// A connection is judged by the address of its client: by the one that its preface names where it
/// names one, and by the one that it comes from otherwise. A preface is read exactly where one is
/// configured, in the version that is configured.
pub proof fn connections_are_judged_by_their_client(
    terms: ListenerTerms,
    limit: usize,
    counters: ListenerRuntimeCounters,
    peer: SocketAddress,
    named: Option<SocketAddress>,
)
    requires
        !(terms.kind is Http3),
    ensures
        ({
            let reached = ConnectionEvent::Reached { peer };
            let read = ConnectionEvent::PrefaceRead { named };
            let first = advanced(terms, limit, ConnectionStage::Expected, reached, counters);
            let second = advanced(terms, limit, ConnectionStage::Preface { peer }, read, counters);
            let failed = advanced(
                terms,
                limit,
                ConnectionStage::Preface { peer },
                ConnectionEvent::PrefaceFailed,
                counters,
            );
            let client = if named is Some {
                named->0
            } else {
                peer
            };
            &&& terms.proxy_protocol is Disabled ==> first.1 == (ConnectionStep::AskQuota {
                address: peer,
            }) && first.0 == (ConnectionStage::Quota { address: peer })
            &&& !(terms.proxy_protocol is Disabled) ==> first.1 == (ConnectionStep::ReadPreface {
                version: terms.proxy_protocol,
                timeout_ms: terms.preface_timeout_ms,
            }) && first.0 == (ConnectionStage::Preface { peer })
            &&& second.1 == (ConnectionStep::AskQuota { address: client })
            &&& second.0 == (ConnectionStage::Quota { address: client })
            &&& failed.1 is Drop && failed.0 is Closed
        }),
{
}

/// The quota and the guard are asked one after the other about the same client. A connection that
/// one of them refuses is turned away, and gives back what the other granted.
pub proof fn refused_connections_give_back_their_place(
    terms: ListenerTerms,
    limit: usize,
    counters: ListenerRuntimeCounters,
    address: SocketAddress,
)
    ensures
        ({
            let quota = ConnectionStage::Quota { address };
            let guard = ConnectionStage::Guard { address };
            let granted = advanced(terms, limit, quota, ConnectionEvent::Granted, counters);
            let refused = advanced(terms, limit, quota, ConnectionEvent::Refused, counters);
            let guarded = advanced(terms, limit, guard, ConnectionEvent::Refused, counters);
            &&& granted.0 == guard
            &&& granted.1 == (ConnectionStep::AskGuard { keep_permit: terms.keeps_permit })
            &&& refused.0 is Closed && refused.1 == (ConnectionStep::TurnAway {
                leave_quota: false,
                tell: terms.tells,
            })
            &&& guarded.0 is Closed && guarded.1 == (ConnectionStep::TurnAway {
                leave_quota: true,
                tell: terms.tells,
            })
        }),
{
}

/// A connection over HTTP/3 asks the quota about its client once its transport is set up, is served
/// where the quota grants it a place, and gives its slot back otherwise.
pub proof fn late_clients_are_asked_about(
    terms: ListenerTerms,
    limit: usize,
    counters: ListenerRuntimeCounters,
    address: SocketAddress,
)
    ensures
        ({
            let late = ConnectionStage::LateQuota { address };
            let connected = advanced(
                terms,
                limit,
                ConnectionStage::Connecting,
                ConnectionEvent::Connected { address },
                counters,
            );
            let granted = advanced(terms, limit, late, ConnectionEvent::Granted, counters);
            let refused = advanced(terms, limit, late, ConnectionEvent::Refused, counters);
            let broken = advanced(
                terms,
                limit,
                ConnectionStage::Connecting,
                ConnectionEvent::Broken,
                counters,
            );
            &&& connected.0 == late
            &&& connected.1 == (ConnectionStep::AskQuota { address })
            &&& granted.0 is Serving && granted.1 == (ConnectionStep::Serve { address })
            &&& refused.0 is Closed && refused.1 is Finish
            &&& broken.0 is Closed && broken.1 is Finish
        }),
{
}

/// A connection that is over stays so, whatever happens, and nothing more is counted of it.
pub proof fn closed_connections_stay_closed(
    terms: ListenerTerms,
    limit: usize,
    counters: ListenerRuntimeCounters,
    events: Seq<ConnectionEvent>,
    event: ConnectionEvent,
)
    requires
        run(terms, limit, counters, events).0 is Closed,
    ensures
        run(terms, limit, counters, events.push(event)) == run(terms, limit, counters, events),
{
    assert(events.push(event).drop_last() =~= events);
    assert(events.push(event).last() == event);
}

} // verus!
