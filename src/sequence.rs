//! The bring-up sequence as a state machine.
//!
//! The driver starts in `Phase::PoweredOff`, hands the machine `Event::Boot`,
//! and from then on carries out each action it gets back and reports the
//! outcome as the next event. Joining is retried without bound, the address
//! status is polled at a fixed interval, and a failed transport connect,
//! broker connect or publish ends the sequence for good.
use vstd::prelude::*;
use crate::settings::{
    ClientSettings, Message, TransportSettings, POLL_INTERVAL_MS, client_settings, message,
    spec_client_settings, spec_message, spec_transport_settings, transport_settings,
};

verus! {

/// The step whose failure ended the sequence.
#[derive(Clone, Copy, Debug, PartialEq, Eq, Structural)]
pub enum Fault {
    Transport,
    Broker,
    Publish,
}

/// Where the sequence stands.
#[derive(Clone, Copy, Debug, PartialEq, Eq, Structural)]
pub enum Phase {
    /// Nothing has been started.
    PoweredOff,
    /// The radio is being brought up.
    RadioStarting,
    /// Joining the wireless network (not associated yet).
    Associating,
    /// Associated; waiting for DHCP to configure an address.
    AwaitingAddress,
    /// Opening the transport connection to the broker.
    Connecting,
    /// Connected; doing the MQTT handshake.
    Handshaking,
    /// Authenticated; publishing the message.
    Publishing,
    /// The message was sent.
    Done,
    /// A fatal failure ended the sequence.
    Aborted { fault: Fault },
}

/// The outcome of the operation that the driver last carried out.
#[derive(Clone, Copy, Debug, PartialEq, Eq, Structural)]
pub enum Event {
    Boot,
    RadioReady,
    Joined,
    JoinFailed { status: u32 },
    AddressPolled { configured: bool },
    TransportConnected { ok: bool },
    BrokerConnected { ok: bool },
    Published { ok: bool },
}

/// What the driver is to do next.
#[derive(Clone, Copy, Debug, PartialEq, Eq)]
pub enum Action {
    /// Power the radio, load its firmware, start its run loop and the
    /// network stack, set power saving.
    InitRadio,
    /// Attempt to join the network.
    Join,
    /// Report the failed attempt's status code, then attempt again at once.
    RetryJoin { status: u32 },
    /// Wait `delay_ms`, then ask whether the address is configured.
    PollAddress { delay_ms: u64 },
    /// Open the transport connection.
    ConnectTransport { settings: TransportSettings },
    /// Build the MQTT client over the connection and connect to the broker.
    ConnectBroker { settings: ClientSettings },
    /// Publish the message.
    Publish { message: Message },
    /// Report that the message was sent; the sequence is over.
    Finish,
    /// Signal the fatal failure; the sequence is over.
    Abort { fault: Fault },
    /// Nothing: the event does not belong to the current phase.
    Idle,
}

/// The transition table: the phase after `e` in `p`, and the action to carry out.
pub open spec fn transition(p: Phase, e: Event) -> (Phase, Action) {
    match (p, e) {
        (Phase::PoweredOff, Event::Boot) => (Phase::RadioStarting, Action::InitRadio),
        (Phase::RadioStarting, Event::RadioReady) => (Phase::Associating, Action::Join),
        (Phase::Associating, Event::Joined) => (
            Phase::AwaitingAddress,
            Action::PollAddress { delay_ms: 0 },
        ),
        (Phase::Associating, Event::JoinFailed { status }) => (
            Phase::Associating,
            Action::RetryJoin { status },
        ),
        (Phase::AwaitingAddress, Event::AddressPolled { configured }) => if configured {
            (Phase::Connecting, Action::ConnectTransport { settings: spec_transport_settings() })
        } else {
            (Phase::AwaitingAddress, Action::PollAddress { delay_ms: POLL_INTERVAL_MS })
        },
        (Phase::Connecting, Event::TransportConnected { ok }) => if ok {
            (Phase::Handshaking, Action::ConnectBroker { settings: spec_client_settings() })
        } else {
            (Phase::Aborted { fault: Fault::Transport }, Action::Abort { fault: Fault::Transport })
        },
        (Phase::Handshaking, Event::BrokerConnected { ok }) => if ok {
            (Phase::Publishing, Action::Publish { message: spec_message() })
        } else {
            (Phase::Aborted { fault: Fault::Broker }, Action::Abort { fault: Fault::Broker })
        },
        (Phase::Publishing, Event::Published { ok }) => if ok {
            (Phase::Done, Action::Finish)
        } else {
            (Phase::Aborted { fault: Fault::Publish }, Action::Abort { fault: Fault::Publish })
        },
        _ => (p, Action::Idle),
    }
}

/// The phase reached and the actions handed out, one per event, when `events`
/// are fed in order from `start`.
pub open spec fn trace(start: Phase, events: Seq<Event>) -> (Phase, Seq<Action>)
    decreases events.len(),
{
    if events.len() == 0 {
        (start, Seq::empty())
    } else {
        let before = trace(start, events.drop_last());
        let (p, a) = transition(before.0, events.last());
        (p, before.1.push(a))
    }
}

impl Phase {
    /// The phase in which the sequence starts.
    pub fn initial() -> (r: Phase)
        ensures
            r == Phase::PoweredOff,
    {
        Phase::PoweredOff
    }

    /// Whether the sequence is over, done or aborted.
    pub fn is_finished(&self) -> (r: bool)
        ensures
            r <==> (*self == Phase::Done || *self is Aborted),
    {
        match self {
            Phase::Done => true,
            Phase::Aborted { .. } => true,
            _ => false,
        }
    }
}

/// Feeds one event to the machine.
pub fn step(p: Phase, e: Event) -> (r: (Phase, Action))
    ensures
        r == transition(p, e),
{
    match (p, e) {
        (Phase::PoweredOff, Event::Boot) => (Phase::RadioStarting, Action::InitRadio),
        (Phase::RadioStarting, Event::RadioReady) => (Phase::Associating, Action::Join),
        (Phase::Associating, Event::Joined) => (
            Phase::AwaitingAddress,
            Action::PollAddress { delay_ms: 0 },
        ),
        (Phase::Associating, Event::JoinFailed { status }) => (
            Phase::Associating,
            Action::RetryJoin { status },
        ),
        (Phase::AwaitingAddress, Event::AddressPolled { configured }) => if configured {
            (Phase::Connecting, Action::ConnectTransport { settings: transport_settings() })
        } else {
            (Phase::AwaitingAddress, Action::PollAddress { delay_ms: POLL_INTERVAL_MS })
        },
        (Phase::Connecting, Event::TransportConnected { ok }) => if ok {
            (Phase::Handshaking, Action::ConnectBroker { settings: client_settings() })
        } else {
            (Phase::Aborted { fault: Fault::Transport }, Action::Abort { fault: Fault::Transport })
        },
        (Phase::Handshaking, Event::BrokerConnected { ok }) => if ok {
            (Phase::Publishing, Action::Publish { message: message() })
        } else {
            (Phase::Aborted { fault: Fault::Broker }, Action::Abort { fault: Fault::Broker })
        },
        (Phase::Publishing, Event::Published { ok }) => if ok {
            (Phase::Done, Action::Finish)
        } else {
            (Phase::Aborted { fault: Fault::Publish }, Action::Abort { fault: Fault::Publish })
        },
        _ => (p, Action::Idle),
    }
}

/// Feeds `events` in order from `start`; returns the phase reached and the
/// actions handed out.
pub fn replay(start: Phase, events: &Vec<Event>) -> (r: (Phase, Vec<Action>))
    ensures
        r.0 == trace(start, events@).0,
        r.1@ == trace(start, events@).1,
{
    let mut phase = start;
    let mut actions: Vec<Action> = Vec::new();
    let mut i: usize = 0;
    while i < events.len()
        invariant
            i <= events.len(),
            phase == trace(start, events@.take(i as int)).0,
            actions@ == trace(start, events@.take(i as int)).1,
        decreases events.len() - i,
    {
        let (next, action) = step(phase, events[i]);
        proof {
            assert(events@.take(i + 1).drop_last() =~= events@.take(i as int));
        }
        phase = next;
        actions.push(action);
        i = i + 1;
    }
    proof {
        assert(events@.take(events.len() as int) =~= events@);
    }
    (phase, actions)
}

} // verus!
