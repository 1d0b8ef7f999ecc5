use workspace_serve::addr::{IpAddress, SocketAddress};
use workspace_serve::config::{ListenerBindMode, ListenerClassConfig, ListenerProtocolConfig};
use workspace_serve::listener_lifecycle::{
    CurrentListenerIdentity, ListenerDrainOutcome, ListenerIdentity, ListenerLifecycleEntry,
    ListenerLifecycleModel, ListenerLifecycleState, ManagedListenerSlot,
};
use workspace_serve::proxy_protocol::ProxyProtocolModeConfig;

fn loopback(port: u16) -> SocketAddress {
    SocketAddress::new(IpAddress::V4(0x7f00_0001), port)
}

fn identity(
    protocol: ListenerProtocolConfig,
    proxy_protocol: ProxyProtocolModeConfig,
    port: u16,
) -> ListenerIdentity {
    ListenerIdentity {
        class: ListenerClassConfig::Public,
        protocol,
        proxy_protocol,
        configured_bind: loopback(port),
        bind_mode: ListenerBindMode::SingleStack,
    }
}

fn running(port: u16) -> CurrentListenerIdentity {
    CurrentListenerIdentity {
        class: ListenerClassConfig::Public,
        protocol: ListenerProtocolConfig::Http1,
        proxy_protocol: ProxyProtocolModeConfig::Disabled,
        configured_bind: loopback(port),
        bind_mode: ListenerBindMode::SingleStack,
        local_addr: loopback(port),
    }
}

#[test]
fn listener_lifecycle_model_transitions_are_deterministic() {
    let active =
        identity(ListenerProtocolConfig::Http1, ProxyProtocolModeConfig::Disabled, 8080);
    let replacement = identity(ListenerProtocolConfig::Http2, ProxyProtocolModeConfig::V1, 8080);
    let mut lifecycle = ListenerLifecycleModel::new_active(active);

    assert_eq!(
        lifecycle.entries(),
        vec![ListenerLifecycleEntry { identity: active, state: ListenerLifecycleState::Active }]
    );

    let drained = lifecycle.activate_replacement(replacement);
    assert_eq!(drained, Some(active));
    assert_eq!(
        lifecycle.entries(),
        vec![
            ListenerLifecycleEntry {
                identity: replacement,
                state: ListenerLifecycleState::Active,
            },
            ListenerLifecycleEntry { identity: active, state: ListenerLifecycleState::Draining },
        ]
    );

    lifecycle.finish_draining(active, ListenerDrainOutcome::Completed);
    assert_eq!(
        lifecycle.entries(),
        vec![
            ListenerLifecycleEntry {
                identity: replacement,
                state: ListenerLifecycleState::Active,
            },
            ListenerLifecycleEntry { identity: active, state: ListenerLifecycleState::Retired },
        ]
    );
}

#[test]
fn listener_lifecycle_failed_start_keeps_active_identity() {
    let active =
        identity(ListenerProtocolConfig::Http1, ProxyProtocolModeConfig::Disabled, 8080);
    let attempted = identity(ListenerProtocolConfig::Https, ProxyProtocolModeConfig::V1, 8443);
    let mut lifecycle = ListenerLifecycleModel::new_active(active);

    lifecycle.record_failed_start(attempted, String::from("bind failed"));

    assert_eq!(lifecycle.active_identity(), Some(active));
    assert_eq!(
        lifecycle.entries(),
        vec![
            ListenerLifecycleEntry { identity: active, state: ListenerLifecycleState::Active },
            ListenerLifecycleEntry {
                identity: attempted,
                state: ListenerLifecycleState::FailedStart,
            },
        ]
    );
}

#[test]
fn only_the_latest_retired_sockets_are_remembered() {
    let mut slot = ManagedListenerSlot::new(running(8000));
    for step in 1_u16..=6 {
        let retired = slot.activate_replacement(String::from("public"), running(8000 + step));
        assert_eq!(retired.slot_name.as_deref(), Some("public"));
        assert_eq!(retired.identity.configured_bind, loopback(8000 + step - 1));
        slot.finish_draining_with_outcome(retired.identity, ListenerDrainOutcome::TimedOut);
    }

    let binds: Vec<SocketAddress> =
        slot.lifecycle.retired_identities.iter().map(|retired| retired.configured_bind).collect();
    assert_eq!(binds, vec![loopback(8002), loopback(8003), loopback(8004), loopback(8005)]);
    let timed_out: Vec<SocketAddress> = slot
        .lifecycle
        .drain_timed_out_identities
        .iter()
        .map(|retired| retired.configured_bind)
        .collect();
    assert_eq!(timed_out, binds);
    assert!(slot.lifecycle.draining_identities.is_empty());
}

#[test]
fn a_socket_that_does_not_drain_is_not_retired() {
    let active =
        identity(ListenerProtocolConfig::Http1, ProxyProtocolModeConfig::Disabled, 8080);
    let other = identity(ListenerProtocolConfig::Http2, ProxyProtocolModeConfig::Disabled, 8081);
    let mut lifecycle = ListenerLifecycleModel::new_active(active);

    lifecycle.finish_draining(other, ListenerDrainOutcome::TimedOut);

    assert_eq!(lifecycle.entries().len(), 1);
    assert!(lifecycle.drain_timed_out_identities.is_empty());
}

#[test]
fn retiring_a_slot_gives_its_identity() {
    let slot = ManagedListenerSlot::new(running(8080));

    let retired = slot.into_retired();

    assert!(retired.slot_name.is_none());
    assert_eq!(retired.identity.configured_bind, loopback(8080));
}
