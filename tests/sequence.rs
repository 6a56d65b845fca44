use picow_mqtt::sequence::{replay, step, Action, Event, Fault, Phase};
use picow_mqtt::settings::{
    client_settings, message, transport_settings, ClientSettings, Endpoint, Message,
    QualityOfService, TransportSettings,
};

fn happy_path() -> Vec<Event> {
    vec![
        Event::Boot,
        Event::RadioReady,
        Event::Joined,
        Event::AddressPolled { configured: true },
        Event::TransportConnected { ok: true },
        Event::BrokerConnected { ok: true },
        Event::Published { ok: true },
    ]
}

fn expected_transport() -> TransportSettings {
    TransportSettings {
        remote: Endpoint { octets: (192, 168, 5, 85), port: 1883 },
        idle_timeout_secs: 10,
        rx_buffer_len: 4096,
        tx_buffer_len: 4096,
    }
}

fn expected_client() -> ClientSettings {
    ClientSettings {
        protocol_version: 5,
        max_subscribe_qos: QualityOfService::AtMostOnce,
        username: "tasmota_plug",
        password: "plugs",
        keep_alive_secs: u16::MAX,
        write_buffer_len: 1000,
        read_buffer_len: 1000,
        max_in_flight: 20,
    }
}

fn rank_of_call(a: &Action) -> Option<u32> {
    match a {
        Action::InitRadio => Some(1),
        Action::Join | Action::RetryJoin { .. } => Some(2),
        Action::PollAddress { .. } => Some(3),
        Action::ConnectTransport { .. } => Some(4),
        Action::ConnectBroker { .. } => Some(5),
        Action::Publish { .. } => Some(6),
        _ => None,
    }
}

#[test]
fn happy_path_publishes_once() {
    let (phase, actions) = replay(Phase::initial(), &happy_path());
    assert_eq!(phase, Phase::Done);
    assert_eq!(
        actions,
        vec![
            Action::InitRadio,
            Action::Join,
            Action::PollAddress { delay_ms: 0 },
            Action::ConnectTransport { settings: expected_transport() },
            Action::ConnectBroker { settings: expected_client() },
            Action::Publish {
                message: Message { topic: "test-topic", payload: "{'temp':42}" }
            },
            Action::Finish,
        ]
    );
    let publishes = actions.iter().filter(|a| matches!(a, Action::Publish { .. })).count();
    let finishes = actions.iter().filter(|a| matches!(a, Action::Finish)).count();
    assert_eq!(publishes, 1);
    assert_eq!(finishes, 1);
}

#[test]
fn events_after_done_change_nothing() {
    let mut events = happy_path();
    events.extend(happy_path());
    let (phase, actions) = replay(Phase::initial(), &events);
    assert_eq!(phase, Phase::Done);
    assert!(actions[7..].iter().all(|a| *a == Action::Idle));
}

#[test]
fn join_retried_until_success() {
    let events = vec![
        Event::Boot,
        Event::RadioReady,
        Event::JoinFailed { status: 7 },
        Event::JoinFailed { status: 1 },
        Event::JoinFailed { status: 7 },
        Event::Joined,
        Event::JoinFailed { status: 2 },
        Event::Joined,
    ];
    let (phase, actions) = replay(Phase::initial(), &events);
    assert_eq!(phase, Phase::AwaitingAddress);
    let attempts = actions
        .iter()
        .filter(|a| matches!(a, Action::Join | Action::RetryJoin { .. }))
        .count();
    assert_eq!(attempts, 4);
    assert_eq!(actions[2], Action::RetryJoin { status: 7 });
    assert_eq!(actions[3], Action::RetryJoin { status: 1 });
    assert_eq!(actions[6], Action::Idle);
    assert_eq!(actions[7], Action::Idle);
}

#[test]
fn address_polled_until_configured() {
    let mut events = vec![Event::Joined];
    for _ in 0..4 {
        events.push(Event::AddressPolled { configured: false });
    }
    events.push(Event::AddressPolled { configured: true });
    events.push(Event::AddressPolled { configured: false });
    let (phase, actions) = replay(Phase::Associating, &events);
    assert_eq!(phase, Phase::Connecting);
    let polls: Vec<&Action> = actions
        .iter()
        .filter(|a| matches!(a, Action::PollAddress { .. }))
        .collect();
    assert_eq!(polls.len(), 5);
    assert_eq!(*polls[0], Action::PollAddress { delay_ms: 0 });
    for p in &polls[1..] {
        assert_eq!(**p, Action::PollAddress { delay_ms: 100 });
    }
    assert_eq!(actions[5], Action::ConnectTransport { settings: expected_transport() });
    assert_eq!(actions[6], Action::Idle);
}

#[test]
fn calls_come_in_order() {
    let events = vec![
        Event::Joined,
        Event::Boot,
        Event::AddressPolled { configured: true },
        Event::RadioReady,
        Event::TransportConnected { ok: true },
        Event::JoinFailed { status: 3 },
        Event::Joined,
        Event::BrokerConnected { ok: true },
        Event::AddressPolled { configured: false },
        Event::AddressPolled { configured: true },
        Event::Published { ok: true },
        Event::TransportConnected { ok: true },
        Event::BrokerConnected { ok: true },
        Event::Published { ok: true },
    ];
    let (phase, actions) = replay(Phase::initial(), &events);
    assert_eq!(phase, Phase::Done);
    let ranks: Vec<u32> = actions.iter().filter_map(rank_of_call).collect();
    assert_eq!(ranks, vec![1, 2, 2, 3, 3, 4, 5, 6]);
}

#[test]
fn transport_failure_is_fatal() {
    let events = vec![
        Event::Boot,
        Event::RadioReady,
        Event::Joined,
        Event::AddressPolled { configured: true },
        Event::TransportConnected { ok: false },
        Event::TransportConnected { ok: true },
        Event::BrokerConnected { ok: true },
        Event::Published { ok: true },
    ];
    let (phase, actions) = replay(Phase::initial(), &events);
    assert_eq!(phase, Phase::Aborted { fault: Fault::Transport });
    assert_eq!(actions[4], Action::Abort { fault: Fault::Transport });
    let aborts = actions.iter().filter(|a| matches!(a, Action::Abort { .. })).count();
    assert_eq!(aborts, 1);
    assert!(!actions
        .iter()
        .any(|a| matches!(a, Action::ConnectBroker { .. } | Action::Publish { .. })));
}

#[test]
fn broker_failure_is_fatal() {
    let events = vec![
        Event::Boot,
        Event::RadioReady,
        Event::Joined,
        Event::AddressPolled { configured: true },
        Event::TransportConnected { ok: true },
        Event::BrokerConnected { ok: false },
        Event::BrokerConnected { ok: true },
        Event::Published { ok: true },
    ];
    let (phase, actions) = replay(Phase::initial(), &events);
    assert_eq!(phase, Phase::Aborted { fault: Fault::Broker });
    assert_eq!(actions[5], Action::Abort { fault: Fault::Broker });
    assert!(!actions.iter().any(|a| matches!(a, Action::Publish { .. })));
}

#[test]
fn publish_failure_is_fatal() {
    let mut events = happy_path();
    events[6] = Event::Published { ok: false };
    let (phase, actions) = replay(Phase::initial(), &events);
    assert_eq!(phase, Phase::Aborted { fault: Fault::Publish });
    assert_eq!(actions[6], Action::Abort { fault: Fault::Publish });
    assert!(phase.is_finished());
}

#[test]
fn stray_event_is_ignored() {
    assert_eq!(step(Phase::PoweredOff, Event::Joined), (Phase::PoweredOff, Action::Idle));
    assert_eq!(
        step(Phase::Associating, Event::AddressPolled { configured: true }),
        (Phase::Associating, Action::Idle)
    );
    assert_eq!(
        step(Phase::Handshaking, Event::TransportConnected { ok: false }),
        (Phase::Handshaking, Action::Idle)
    );
}

#[test]
fn only_done_and_aborted_are_finished() {
    assert!(Phase::Done.is_finished());
    assert!(Phase::Aborted { fault: Fault::Broker }.is_finished());
    assert!(!Phase::initial().is_finished());
    assert!(!Phase::Publishing.is_finished());
}

#[test]
fn fixed_settings() {
    assert_eq!(transport_settings(), expected_transport());
    assert_eq!(client_settings(), expected_client());
    assert_eq!(message(), Message { topic: "test-topic", payload: "{'temp':42}" });
}
