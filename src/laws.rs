//! What holds of every run of the bring-up sequence: retries, polling, the
//! order of the outside calls, and the fatal failures.
use vstd::prelude::*;
use crate::settings::POLL_INTERVAL_MS;
use crate::sequence::{Action, Event, Fault, Phase, trace, transition};

verus! {

/// How far the sequence has come; the terminal phases rank highest.
pub open spec fn rank(p: Phase) -> nat {
    match p {
        Phase::PoweredOff => 0,
        Phase::RadioStarting => 1,
        Phase::Associating => 2,
        Phase::AwaitingAddress => 3,
        Phase::Connecting => 4,
        Phase::Handshaking => 5,
        Phase::Publishing => 6,
        Phase::Done => 7,
        Phase::Aborted { .. } => 8,
    }
}

/// Whether the action is a call into an outside collaborator.
pub open spec fn is_call(a: Action) -> bool {
    match a {
        Action::Finish | Action::Abort { .. } | Action::Idle => false,
        _ => true,
    }
}

/// The rank of the phase in which a call is made.
pub open spec fn call_rank(a: Action) -> nat {
    match a {
        Action::InitRadio => 1,
        Action::Join | Action::RetryJoin { .. } => 2,
        Action::PollAddress { .. } => 3,
        Action::ConnectTransport { .. } => 4,
        Action::ConnectBroker { .. } => 5,
        Action::Publish { .. } => 6,
        _ => 0,
    }
}

pub open spec fn is_join_attempt(a: Action) -> bool {
    a is Join || a is RetryJoin
}

pub open spec fn is_poll(a: Action) -> bool {
    a is PollAddress
}

pub open spec fn is_broker_connect(a: Action) -> bool {
    a is ConnectBroker
}

pub open spec fn is_publish(a: Action) -> bool {
    a is Publish
}

pub open spec fn is_abort(a: Action) -> bool {
    a is Abort
}

/// The event that moves the sequence on from `p`.
pub open spec fn advance_event(p: Phase) -> Event {
    match p {
        Phase::PoweredOff => Event::Boot,
        Phase::RadioStarting => Event::RadioReady,
        Phase::Associating => Event::Joined,
        Phase::AwaitingAddress => Event::AddressPolled { configured: true },
        Phase::Connecting => Event::TransportConnected { ok: true },
        Phase::Handshaking => Event::BrokerConnected { ok: true },
        _ => Event::Published { ok: true },
    }
}

/// How many of `acts` meet `f`.
pub open spec fn count(acts: Seq<Action>, f: spec_fn(Action) -> bool) -> nat
    decreases acts.len(),
{
    if acts.len() == 0 {
        0
    } else {
        count(acts.drop_last(), f) + if f(acts.last()) { 1nat } else { 0nat }
    }
}

/// `n` failed join attempts with the given status codes.
pub open spec fn join_failures(statuses: Seq<u32>) -> Seq<Event> {
    Seq::new(statuses.len(), |i: int| Event::JoinFailed { status: statuses[i] })
}

/// Power-up, the join failing with each of `statuses` in turn, then joined.
pub open spec fn join_after_failures(statuses: Seq<u32>) -> Seq<Event> {
    seq![Event::Boot, Event::RadioReady] + join_failures(statuses) + seq![Event::Joined]
}

/// Joined, `n` polls finding no address, then one finding it.
pub open spec fn address_after_polls(n: nat) -> Seq<Event> {
    seq![Event::Joined] + unconfigured_polls(n) + seq![Event::AddressPolled { configured: true }]
}

pub open spec fn transport_failed() -> Event {
    Event::TransportConnected { ok: false }
}

pub open spec fn broker_failed() -> Event {
    Event::BrokerConnected { ok: false }
}

/// `before`, then `e`, then `after`.
pub open spec fn around(before: Seq<Event>, e: Event, after: Seq<Event>) -> Seq<Event> {
    before + seq![e] + after
}

/// `n` address polls that found no address yet.
pub open spec fn unconfigured_polls(n: nat) -> Seq<Event> {
    Seq::new(n, |i: int| Event::AddressPolled { configured: false })
}

proof fn lemma_count_append(a: Seq<Action>, b: Seq<Action>, f: spec_fn(Action) -> bool)
    ensures
        count(a + b, f) == count(a, f) + count(b, f),
    decreases b.len(),
{
    if b.len() == 0 {
        assert(a + b =~= a);
    } else {
        assert((a + b).drop_last() =~= a + b.drop_last());
        assert((a + b).last() == b.last());
        lemma_count_append(a, b.drop_last(), f);
    }
}

proof fn lemma_count_none(a: Seq<Action>, f: spec_fn(Action) -> bool)
    requires
        forall|i: int| 0 <= i < a.len() ==> !f(#[trigger] a[i]),
    ensures
        count(a, f) == 0,
    decreases a.len(),
{
    if a.len() > 0 {
        lemma_count_none(a.drop_last(), f);
    }
}

proof fn lemma_count_all(a: Seq<Action>, f: spec_fn(Action) -> bool)
    requires
        forall|i: int| 0 <= i < a.len() ==> f(#[trigger] a[i]),
    ensures
        count(a, f) == a.len(),
    decreases a.len(),
{
    if a.len() > 0 {
        lemma_count_all(a.drop_last(), f);
    }
}

/// Feeding two runs of events one after the other is feeding them joined.
pub proof fn lemma_trace_append(start: Phase, a: Seq<Event>, b: Seq<Event>)
    ensures
        trace(start, a + b).0 == trace(trace(start, a).0, b).0,
        trace(start, a + b).1 == trace(start, a).1 + trace(trace(start, a).0, b).1,
    decreases b.len(),
{
    if b.len() == 0 {
        assert(a + b =~= a);
        assert(trace(start, a).1 + Seq::<Action>::empty() =~= trace(start, a).1);
    } else {
        assert((a + b).drop_last() =~= a + b.drop_last());
        assert((a + b).last() == b.last());
        lemma_trace_append(start, a, b.drop_last());
        let mid = trace(start, a).0;
        assert(trace(start, a).1 + trace(mid, b.drop_last()).1.push(
            transition(trace(mid, b.drop_last()).0, b.last()).1,
        ) =~= (trace(start, a).1 + trace(mid, b.drop_last()).1).push(
            transition(trace(mid, b.drop_last()).0, b.last()).1,
        ));
    }
}

/// One step never moves the sequence back, a call is made in the phase it
/// leads to, an abort leads to an aborted phase, and nothing happens once the
/// sequence is over.
pub proof fn lemma_step_rank(p: Phase, e: Event)
    ensures
        rank(transition(p, e).0) >= rank(p),
        is_call(transition(p, e).1) ==> call_rank(transition(p, e).1) == rank(
            transition(p, e).0,
        ),
        is_abort(transition(p, e).1) ==> rank(transition(p, e).0) == 8,
        rank(p) >= 7 ==> transition(p, e) == (p, Action::Idle),
{
}

/// Along any run, the phase only moves forward, and each call is made in a
/// phase between the start's and the end's.
pub proof fn lemma_trace_rank(start: Phase, events: Seq<Event>)
    ensures
        trace(start, events).1.len() == events.len(),
        rank(trace(start, events).0) >= rank(start),
        rank(trace(start, events).0) <= 8,
        forall|i: int|
            0 <= i < events.len() && is_call(#[trigger] trace(start, events).1[i]) ==> rank(start)
                <= call_rank(trace(start, events).1[i]) <= rank(trace(start, events).0),
        forall|i: int, j: int|
            0 <= i < j < events.len() && is_call(#[trigger] trace(start, events).1[i]) && is_call(
                #[trigger] trace(start, events).1[j],
            ) ==> call_rank(trace(start, events).1[i]) <= call_rank(trace(start, events).1[j]),
        forall|i: int|
            0 <= i < events.len() && is_abort(#[trigger] trace(start, events).1[i]) ==> rank(
                trace(start, events).0,
            ) == 8,
        rank(start) >= 7 ==> trace(start, events).0 == start,
        rank(start) >= 7 ==> forall|i: int|
            0 <= i < events.len() ==> #[trigger] trace(start, events).1[i] == Action::Idle,
    decreases events.len(),
{
    if events.len() > 0 {
        let before = trace(start, events.drop_last());
        lemma_trace_rank(start, events.drop_last());
        lemma_step_rank(before.0, events.last());
        let acts = trace(start, events).1;
        assert(acts == before.1.push(transition(before.0, events.last()).1));
        assert forall|i: int| 0 <= i < events.len() - 1 implies acts[i] == before.1[i] by {}
    }
}


pub open spec fn join_attempts() -> spec_fn(Action) -> bool {
    |a: Action| is_join_attempt(a)
}

pub open spec fn polls() -> spec_fn(Action) -> bool {
    |a: Action| is_poll(a)
}

pub open spec fn broker_connects() -> spec_fn(Action) -> bool {
    |a: Action| is_broker_connect(a)
}

pub open spec fn publishes() -> spec_fn(Action) -> bool {
    |a: Action| is_publish(a)
}

pub open spec fn aborts() -> spec_fn(Action) -> bool {
    |a: Action| is_abort(a)
}

/// A call of a kind that belongs to no phase between `start` and the end of
/// the run is never made in it.
proof fn lemma_no_call_outside(start: Phase, events: Seq<Event>, f: spec_fn(Action) -> bool)
    requires
        forall|a: Action|
            #[trigger] f(a) ==> is_call(a) && (call_rank(a) < rank(start) || call_rank(a) > rank(
                trace(start, events).0,
            )),
    ensures
        count(trace(start, events).1, f) == 0,
{
    lemma_trace_rank(start, events);
    let acts = trace(start, events).1;
    assert forall|i: int| 0 <= i < acts.len() implies !f(#[trigger] acts[i]) by {
        if f(acts[i]) {
            assert(is_call(acts[i]));
        }
    }
    lemma_count_none(acts, f);
}

/// A run that does not end aborted signals no fatal failure.
proof fn lemma_no_abort_before(start: Phase, events: Seq<Event>)
    requires
        rank(trace(start, events).0) < 8,
    ensures
        count(trace(start, events).1, aborts()) == 0,
{
    lemma_trace_rank(start, events);
    let acts = trace(start, events).1;
    assert forall|i: int| 0 <= i < acts.len() implies !aborts()(#[trigger] acts[i]) by {
        if is_abort(acts[i]) {
            assert(rank(trace(start, events).0) == 8);
        }
    }
    lemma_count_none(acts, aborts());
}

/// Once the sequence is over, later events change nothing and start nothing.
proof fn lemma_finished_is_quiet(start: Phase, events: Seq<Event>, f: spec_fn(Action) -> bool)
    requires
        rank(start) >= 7,
        !f(Action::Idle),
    ensures
        trace(start, events).0 == start,
        count(trace(start, events).1, f) == 0,
{
    lemma_trace_rank(start, events);
    let acts = trace(start, events).1;
    assert forall|i: int| 0 <= i < acts.len() implies !f(#[trigger] acts[i]) by {
        assert(acts[i] == Action::Idle);
    }
    lemma_count_none(acts, f);
}

proof fn lemma_single_trace(p: Phase, e: Event)
    ensures
        trace(p, seq![e]) == (transition(p, e).0, seq![transition(p, e).1]),
{
    let evs = seq![e];
    assert(evs.drop_last() =~= Seq::<Event>::empty());
    assert(trace(p, evs.drop_last()) == (p, Seq::<Action>::empty()));
    assert(evs.last() == e);
    assert(Seq::<Action>::empty().push(transition(p, e).1) =~= seq![transition(p, e).1]);
}

proof fn lemma_count_single(a: Action, f: spec_fn(Action) -> bool)
    ensures
        count(seq![a], f) == if f(a) { 1nat } else { 0nat },
{
    let s = seq![a];
    assert(s.drop_last() =~= Seq::<Action>::empty());
    assert(count(s.drop_last(), f) == 0);
    assert(s.last() == a);
}

proof fn lemma_boot_trace()
    ensures
        trace(Phase::PoweredOff, seq![Event::Boot, Event::RadioReady]) == (
            Phase::Associating,
            seq![Action::InitRadio, Action::Join],
        ),
{
    lemma_single_trace(Phase::PoweredOff, Event::Boot);
    lemma_single_trace(Phase::RadioStarting, Event::RadioReady);
    lemma_trace_append(Phase::PoweredOff, seq![Event::Boot], seq![Event::RadioReady]);
    assert(seq![Event::Boot] + seq![Event::RadioReady] =~= seq![Event::Boot, Event::RadioReady]);
    assert(seq![Action::InitRadio] + seq![Action::Join] =~= seq![Action::InitRadio, Action::Join]);
}

proof fn lemma_failures_trace(statuses: Seq<u32>)
    ensures
        trace(Phase::Associating, join_failures(statuses)).0 == Phase::Associating,
        trace(Phase::Associating, join_failures(statuses)).1 =~= Seq::new(
            statuses.len(),
            |i: int| Action::RetryJoin { status: statuses[i] },
        ),
    decreases statuses.len(),
{
    if statuses.len() > 0 {
        assert(join_failures(statuses).drop_last() =~= join_failures(statuses.drop_last()));
        lemma_failures_trace(statuses.drop_last());
    }
}

proof fn lemma_unconfigured_trace(n: nat)
    ensures
        trace(Phase::AwaitingAddress, unconfigured_polls(n)).0 == Phase::AwaitingAddress,
        trace(Phase::AwaitingAddress, unconfigured_polls(n)).1 =~= Seq::new(
            n,
            |i: int| Action::PollAddress { delay_ms: POLL_INTERVAL_MS },
        ),
    decreases n,
{
    if n > 0 {
        assert(unconfigured_polls(n).drop_last() =~= unconfigured_polls((n - 1) as nat));
        lemma_unconfigured_trace((n - 1) as nat);
    }
}

/// Joining is retried until it succeeds and never after: when the join fails
/// with the given status codes and then succeeds, it is attempted exactly one
/// more time than it failed, the wait for an address begins, and whatever
/// follows attempts no further join.
pub proof fn lemma_join_retried_until_success(statuses: Seq<u32>, later: Seq<Event>)
    ensures
        trace(Phase::PoweredOff, join_after_failures(statuses)).0 == Phase::AwaitingAddress,
        count(trace(Phase::PoweredOff, join_after_failures(statuses)).1, join_attempts())
            == statuses.len() + 1,
        count(trace(Phase::PoweredOff, join_after_failures(statuses) + later).1, join_attempts())
            == statuses.len() + 1,
{
    let boot = seq![Event::Boot, Event::RadioReady];
    let fails = join_failures(statuses);
    let joined = seq![Event::Joined];
    lemma_boot_trace();
    lemma_failures_trace(statuses);
    lemma_single_trace(Phase::Associating, Event::Joined);
    lemma_trace_append(Phase::PoweredOff, boot, fails);
    lemma_trace_append(Phase::PoweredOff, boot + fails, joined);
    lemma_trace_append(Phase::PoweredOff, boot + fails + joined, later);
    let retries = trace(Phase::Associating, fails).1;
    lemma_count_append(seq![Action::InitRadio, Action::Join], retries, join_attempts());
    lemma_count_append(
        seq![Action::InitRadio, Action::Join] + retries,
        seq![Action::PollAddress { delay_ms: 0 }],
        join_attempts(),
    );
    lemma_count_all(retries, join_attempts());
    lemma_count_single(Action::InitRadio, join_attempts());
    lemma_count_single(Action::Join, join_attempts());
    lemma_count_append(seq![Action::InitRadio], seq![Action::Join], join_attempts());
    assert(seq![Action::InitRadio] + seq![Action::Join] =~= seq![Action::InitRadio, Action::Join]);
    lemma_count_single(Action::PollAddress { delay_ms: 0 }, join_attempts());
    let all = trace(Phase::PoweredOff, boot + fails + joined).1;
    lemma_no_call_outside(Phase::AwaitingAddress, later, join_attempts());
    lemma_count_append(all, trace(Phase::AwaitingAddress, later).1, join_attempts());
}


/// The address status is polled until it reports an address and never after:
/// once associated, when `n` polls find no address and the next one finds it,
/// it is polled exactly `n + 1` times, the first at once and each later one
/// after the poll interval, the transport connect follows, and whatever comes
/// after polls no more.
pub proof fn lemma_address_polled_until_configured(n: nat, later: Seq<Event>)
    ensures
        trace(Phase::Associating, address_after_polls(n)).0 == Phase::Connecting,
        count(trace(Phase::Associating, address_after_polls(n)).1, polls()) == n + 1,
        trace(Phase::Associating, address_after_polls(n)).1[0] == (Action::PollAddress {
            delay_ms: 0,
        }),
        forall|i: int|
            1 <= i <= n ==> #[trigger] trace(Phase::Associating, address_after_polls(n)).1[i]
                == (Action::PollAddress { delay_ms: POLL_INTERVAL_MS }),
        count(trace(Phase::Associating, address_after_polls(n) + later).1, polls()) == n + 1,
{
    let joined = seq![Event::Joined];
    let waits = unconfigured_polls(n);
    let up = seq![Event::AddressPolled { configured: true }];
    lemma_single_trace(Phase::Associating, Event::Joined);
    lemma_unconfigured_trace(n);
    lemma_single_trace(Phase::AwaitingAddress, Event::AddressPolled { configured: true });
    lemma_trace_append(Phase::Associating, joined, waits);
    lemma_trace_append(Phase::Associating, joined + waits, up);
    lemma_trace_append(Phase::Associating, joined + waits + up, later);
    let first = seq![Action::PollAddress { delay_ms: 0 }];
    let repeats = trace(Phase::AwaitingAddress, waits).1;
    let connect = seq![transition(Phase::AwaitingAddress, Event::AddressPolled { configured: true }).1];
    lemma_count_single(Action::PollAddress { delay_ms: 0 }, polls());
    lemma_count_all(repeats, polls());
    lemma_count_single(connect[0], polls());
    lemma_count_append(first, repeats, polls());
    lemma_count_append(first + repeats, connect, polls());
    let all = trace(Phase::Associating, joined + waits + up).1;
    assert(all =~= first + repeats + connect);
    lemma_no_call_outside(Phase::Connecting, later, polls());
    lemma_count_append(all, trace(Phase::Connecting, later).1, polls());
}

/// The outside calls come in the order of the sequence: radio bring-up, join
/// attempts, address polls, transport connect, broker connect, publish. Along
/// any run from power-off no call is made after one of a later step.
pub proof fn lemma_calls_in_order(events: Seq<Event>)
    ensures
        forall|i: int, j: int|
            0 <= i < j < events.len() && is_call(#[trigger] trace(Phase::PoweredOff, events).1[i])
                && is_call(#[trigger] trace(Phase::PoweredOff, events).1[j]) ==> call_rank(
                trace(Phase::PoweredOff, events).1[i],
            ) <= call_rank(trace(Phase::PoweredOff, events).1[j]),
{
    lemma_trace_rank(Phase::PoweredOff, events);
}

/// A step starts the call of a later step only on the success of the current
/// one: radio ready, joined, address configured, transport connected, broker
/// connected; the first call, the radio bring-up, only on boot.
pub proof fn lemma_advance_only_on_success(p: Phase, e: Event)
    ensures
        is_call(transition(p, e).1) && call_rank(transition(p, e).1) > rank(p) ==> e
            == advance_event(p) && call_rank(transition(p, e).1) == rank(p) + 1,
{
}

/// A failed transport connect is fatal: from then on neither the broker
/// connect nor the publish is attempted, whatever follows, and the failure is
/// signalled exactly once over the whole run.
pub proof fn lemma_transport_failure_is_fatal(prefix: Seq<Event>, later: Seq<Event>)
    requires
        trace(Phase::PoweredOff, prefix).0 == Phase::Connecting,
    ensures
        trace(Phase::PoweredOff, around(prefix, transport_failed(), later)).0 == (Phase::Aborted {
            fault: Fault::Transport,
        }),
        count(trace(Phase::PoweredOff, around(prefix, transport_failed(), later)).1, broker_connects())
            == 0,
        count(trace(Phase::PoweredOff, around(prefix, transport_failed(), later)).1, publishes())
            == 0,
        count(trace(Phase::PoweredOff, around(prefix, transport_failed(), later)).1, aborts())
            == 1,
{
    let fail = seq![Event::TransportConnected { ok: false }];
    let aborted = Phase::Aborted { fault: Fault::Transport };
    let signal = Action::Abort { fault: Fault::Transport };
    lemma_single_trace(Phase::Connecting, Event::TransportConnected { ok: false });
    lemma_trace_append(Phase::PoweredOff, prefix, fail);
    lemma_trace_append(Phase::PoweredOff, prefix + fail, later);
    let before = trace(Phase::PoweredOff, prefix).1;
    let after = trace(aborted, later).1;
    lemma_no_call_outside(Phase::PoweredOff, prefix, broker_connects());
    lemma_no_call_outside(Phase::PoweredOff, prefix, publishes());
    lemma_no_abort_before(Phase::PoweredOff, prefix);
    lemma_finished_is_quiet(aborted, later, broker_connects());
    lemma_finished_is_quiet(aborted, later, publishes());
    lemma_finished_is_quiet(aborted, later, aborts());
    lemma_count_single(signal, broker_connects());
    lemma_count_single(signal, publishes());
    lemma_count_single(signal, aborts());
    lemma_count_append(before, seq![signal], broker_connects());
    lemma_count_append(before, seq![signal], publishes());
    lemma_count_append(before, seq![signal], aborts());
    lemma_count_append(before + seq![signal], after, broker_connects());
    lemma_count_append(before + seq![signal], after, publishes());
    lemma_count_append(before + seq![signal], after, aborts());
}

/// A failed broker connect after a successful transport connect is fatal: the
/// publish is never attempted, whatever follows.
pub proof fn lemma_broker_failure_is_fatal(prefix: Seq<Event>, later: Seq<Event>)
    requires
        trace(Phase::PoweredOff, prefix).0 == Phase::Handshaking,
    ensures
        trace(Phase::PoweredOff, around(prefix, broker_failed(), later)).0 == (Phase::Aborted {
            fault: Fault::Broker,
        }),
        count(trace(Phase::PoweredOff, around(prefix, broker_failed(), later)).1, publishes())
            == 0,
{
    let fail = seq![Event::BrokerConnected { ok: false }];
    let aborted = Phase::Aborted { fault: Fault::Broker };
    let signal = Action::Abort { fault: Fault::Broker };
    lemma_single_trace(Phase::Handshaking, Event::BrokerConnected { ok: false });
    lemma_trace_append(Phase::PoweredOff, prefix, fail);
    lemma_trace_append(Phase::PoweredOff, prefix + fail, later);
    let before = trace(Phase::PoweredOff, prefix).1;
    let after = trace(aborted, later).1;
    lemma_no_call_outside(Phase::PoweredOff, prefix, publishes());
    lemma_finished_is_quiet(aborted, later, publishes());
    lemma_count_single(signal, publishes());
    lemma_count_append(before, seq![signal], publishes());
    lemma_count_append(before + seq![signal], after, publishes());
}

} // verus!
