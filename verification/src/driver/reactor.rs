//! One poll of everything the driver waits for: who reported what, and what it
//! means.
//!
//! The surrounding program polls. It hands each report to
//! [`Reactor::on_ready`], drains the source it is told to and passes on what
//! came.

use vstd::prelude::*;
use crate::channels::{Inbox, Look};
use crate::driver::forward::Rejection;
use crate::driver::ipc::hub;
use crate::ids::ResourceId;
use crate::model::diagnostic::SensorFailure;

verus! {

/// The file system sensor.
pub const TOKEN_WATCHER: usize = 0;

/// The watcher of the configuration file.
pub const TOKEN_CONFIG_WATCHER: usize = 1;

/// The pipe that signals come through.
pub const TOKEN_SIGNAL: usize = 2;

/// The waker that the prober and the actuator pull.
pub const TOKEN_WAKER: usize = 3;

/// The socket that operators connect to.
pub const TOKEN_LISTENER: usize = 4;

/// How a poll ended.
#[derive(Clone, Copy, Debug, PartialEq, Eq, Structural)]
pub enum PollEvent {
    /// With reports, or none in time.
    Ready,
    /// A signal came in between.
    Interrupted,
    /// Any other failure.
    Failed,
}

/// What follows a poll.
#[derive(Clone, Copy, Debug, PartialEq, Eq, Structural)]
pub enum PollStep {
    /// Go through the reports.
    Drain,
    /// Take the turn with nothing drained.
    Pass,
    /// Give up.
    Fail,
}

/// What follows a poll.
pub fn after_poll(event: PollEvent) -> (step: PollStep)
    ensures
        step == (match event {
            PollEvent::Ready => PollStep::Drain,
            PollEvent::Interrupted => PollStep::Pass,
            PollEvent::Failed => PollStep::Fail,
        }),
{
    match event {
        PollEvent::Ready => PollStep::Drain,
        PollEvent::Interrupted => PollStep::Pass,
        PollEvent::Failed => PollStep::Fail,
    }
}

/// What a report asks the surrounding program to drain.
#[derive(Clone, Copy, Debug, PartialEq, Eq, Structural)]
pub enum DrainStep {
    /// The sensor, for [`DrainedTick::drain_watcher`].
    Watcher,
    /// The watcher of the configuration file, for
    /// [`DrainedTick::drain_config_watcher`].
    ConfigWatcher,
    /// The pipe of signals, for [`DrainedTick::drain_signals`].
    Signals,
    /// Nothing.
    Nothing,
}

/// An event of the sensor.
#[derive(Debug)]
pub enum WatcherEvent<E, S> {
    /// Something happened to a resource.
    Fs { resource: ResourceId, event: E },
    /// The kernel lost events.
    Overflow { scope: S },
}

/// Everything one poll brought. `E` is an event of a resource, `S` what an
/// overflow covers and `I` an input of the engine; the driver looks into none
/// of them.
#[derive(Debug)]
pub struct DrainedTick<E, S, I> {
    pub fs_events: Vec<(ResourceId, E)>,
    pub sensor_overflows: Vec<S>,
    pub probe_responses: Vec<I>,
    pub effect_completions: Vec<I>,
    /// In the order they came.
    pub signals: Vec<i32>,
    /// Whether the configuration file may have changed.
    pub config_event_pulse: bool,
    /// Whether an operator knocks.
    pub listener_ready: bool,
    /// Whether the actuator is gone.
    pub actuator_gone: bool,
    /// Connections with room for bytes.
    pub ready_writes: Vec<usize>,
    /// Connections with bytes to read.
    pub ready_reads: Vec<usize>,
}

/// The events of resources among those of the sensor, in order.
pub open spec fn resource_events<E, S>(events: Seq<WatcherEvent<E, S>>) -> Seq<(ResourceId, E)>
    decreases events.len(),
{
    if events.len() == 0 {
        Seq::empty()
    } else {
        let before = resource_events(events.drop_last());
        match events.last() {
            WatcherEvent::Fs { resource, event } => before.push((resource, event)),
            WatcherEvent::Overflow { .. } => before,
        }
    }
}

/// The overflows among the events of the sensor, in order.
pub open spec fn overflow_scopes<E, S>(events: Seq<WatcherEvent<E, S>>) -> Seq<S>
    decreases events.len(),
{
    if events.len() == 0 {
        Seq::empty()
    } else {
        let before = overflow_scopes(events.drop_last());
        match events.last() {
            WatcherEvent::Fs { .. } => before,
            WatcherEvent::Overflow { scope } => before.push(scope),
        }
    }
}

/// Every event of the sensor is taken on once, as what it is and in its turn:
/// one more event of a resource is the last of those, one more overflow the
/// last of these, and the other list stays.
pub proof fn law_sensor_events_are_taken_apart<E, S>(
    events: Seq<WatcherEvent<E, S>>,
    more: WatcherEvent<E, S>,
)
    ensures
        resource_events(events).len() + overflow_scopes(events).len() == events.len(),
        more matches WatcherEvent::Fs { resource, event } ==> {
            &&& resource_events(events.push(more)) == resource_events(events).push(
                (resource, event),
            )
            &&& overflow_scopes(events.push(more)) == overflow_scopes(events)
        },
        more matches WatcherEvent::Overflow { scope } ==> {
            &&& overflow_scopes(events.push(more)) == overflow_scopes(events).push(scope)
            &&& resource_events(events.push(more)) == resource_events(events)
        },
    decreases events.len(),
{
    assert(events.push(more).drop_last() =~= events);
    if events.len() > 0 {
        law_sensor_events_are_taken_apart(events.drop_last(), more);
    }
}

/// The most looks of one drain; what is left after them waits for the next.
pub const MOST_LOOKS: u64 = u64::MAX;

/// Whether `looks` empty a channel: each but the last finds a message, and the
/// last finds none, unless there were too many of them.
pub open spec fn emptied<T>(looks: Seq<Look<T>>) -> bool {
    &&& 0 < looks.len() <= MOST_LOOKS
    &&& forall|i: int| 0 <= i < looks.len() - 1 ==> (#[trigger] looks[i]) is Message
    &&& looks.last() is Message ==> looks.len() == MOST_LOOKS
}

/// The messages found, in order.
pub open spec fn messages<T>(looks: Seq<Look<T>>) -> Seq<T>
    decreases looks.len(),
{
    if looks.len() == 0 {
        Seq::empty()
    } else {
        let before = messages(looks.drop_last());
        match looks.last() {
            Look::Message(message) => before.push(message),
            _ => before,
        }
    }
}

/// What the looks since `before` found.
pub open spec fn looks_since<T>(before: Inbox<T>, after: Inbox<T>) -> Seq<Look<T>> {
    after.log().skip(before.log().len() as int)
}

/// Whether `after` is `before` looked into until it was empty, and no further.
pub open spec fn drained<T>(before: Inbox<T>, after: Inbox<T>) -> bool {
    &&& after.rx() == before.rx()
    &&& after.log() == before.log() + looks_since(before, after)
    &&& emptied(looks_since(before, after))
}

/// Nothing that was sent before a channel ran empty is lost: each look but the
/// last is a message kept, in its place. So what was finished before the
/// actuator went is known before it counts as gone.
pub proof fn law_every_message_is_kept<T>(looks: Seq<Look<T>>)
    requires
        emptied(looks),
        !(looks.last() is Message),
    ensures
        messages(looks).len() == looks.len() - 1,
        forall|i: int|
            0 <= i < looks.len() - 1 ==> (#[trigger] looks[i]) == Look::Message(messages(looks)[i]),
{
    let front = looks.drop_last();
    lemma_messages_stand(front);
    assert forall|i: int| 0 <= i < looks.len() - 1 implies (#[trigger] looks[i]) == Look::Message(
        messages(looks)[i],
    ) by {
        assert(front[i] == looks[i]);
    }
}

/// Among looks that all found one, each message stands where it was found.
proof fn lemma_messages_stand<T>(looks: Seq<Look<T>>)
    requires
        forall|i: int| 0 <= i < looks.len() ==> (#[trigger] looks[i]) is Message,
    ensures
        messages(looks).len() == looks.len(),
        forall|i: int|
            0 <= i < looks.len() ==> (#[trigger] looks[i]) == Look::Message(messages(looks)[i]),
    decreases looks.len(),
{
    if looks.len() > 0 {
        let front = looks.drop_last();
        lemma_messages_stand(front);
        assert forall|i: int| 0 <= i < looks.len() implies (#[trigger] looks[i]) == Look::Message(
            messages(looks)[i],
        ) by {
            if i < front.len() {
                assert(front[i] == looks[i]);
            }
        }
    }
}

/// Looks into a channel until it is empty, and keeps what it finds. Tells
/// whether nobody is left to send.
fn empty_into<T>(inbox: &mut Inbox<T>, out: &mut Vec<T>) -> (gone: bool)
    ensures
        drained(*old(inbox), *final(inbox)),
        final(out)@ == old(out)@ + messages(looks_since(*old(inbox), *final(inbox))),
        gone == (looks_since(*old(inbox), *final(inbox)).last() is Disconnected),
{
    let mut left: u64 = MOST_LOOKS;
    let mut gone: bool = false;
    let ghost mut looks: Seq<Look<T>> = Seq::empty();
    assert(out@ =~= old(out)@ + messages(looks));
    assert(inbox.log() =~= old(inbox).log() + looks);
    loop
        invariant_except_break
            looks.len() + left == MOST_LOOKS,
            left > 0,
            !gone,
            forall|i: int| 0 <= i < looks.len() ==> (#[trigger] looks[i]) is Message,
            inbox.rx() == old(inbox).rx(),
            inbox.log() == old(inbox).log() + looks,
            out@ == old(out)@ + messages(looks),
        ensures
            emptied(looks),
            inbox.rx() == old(inbox).rx(),
            inbox.log() == old(inbox).log() + looks,
            out@ == old(out)@ + messages(looks),
            gone == (looks.last() is Disconnected),
        decreases left,
    {
        let ghost before = looks;
        let found: Look<T> = inbox.look();
        left = left - 1;
        proof {
            looks = looks.push(found);
            assert(looks.drop_last() =~= before);
            assert(inbox.log() =~= old(inbox).log() + looks);
        }
        match found {
            Look::Message(message) => {
                out.push(message);
                assert(out@ =~= old(out)@ + messages(looks));
            },
            Look::Empty => {
                break;
            },
            Look::Disconnected => {
                gone = true;
                break;
            },
        }
        if left == 0 {
            break;
        }
    }
    assert(looks_since(*old(inbox), *inbox) =~= looks);
    gone
}

/// Whether `after` is `before` with the events of the sensor taken on.
pub open spec fn watcher_noted<E, S, I>(
    before: DrainedTick<E, S, I>,
    events: Seq<WatcherEvent<E, S>>,
    after: DrainedTick<E, S, I>,
) -> bool {
    &&& after.fs_events@ == before.fs_events@ + resource_events(events)
    &&& after.sensor_overflows@ == before.sensor_overflows@ + overflow_scopes(events)
    &&& after == (DrainedTick {
        fs_events: after.fs_events,
        sensor_overflows: after.sensor_overflows,
        ..before
    })
}

/// Whether `after` is `before` with the word of the watcher of the
/// configuration file taken on.
pub open spec fn pulse_noted<E, S, I>(
    before: DrainedTick<E, S, I>,
    seen: bool,
    after: DrainedTick<E, S, I>,
) -> bool {
    after == (DrainedTick { config_event_pulse: before.config_event_pulse || seen, ..before })
}

/// Whether `after` is `before` with the signals taken on.
pub open spec fn signals_noted<E, S, I>(
    before: DrainedTick<E, S, I>,
    pending: Seq<i32>,
    after: DrainedTick<E, S, I>,
) -> bool {
    &&& after.signals@ == before.signals@ + pending
    &&& after == (DrainedTick { signals: after.signals, ..before })
}

/// What the sensor reports is taken on behind what was there, in order and
/// nothing of it lost: the events and the overflows are together as many as the
/// reports. A changed configuration file is never forgotten, and no signal is.
/// None of the three touches what the others take on.
pub proof fn law_what_a_turn_brings_is_kept<E, S, I>(
    start: DrainedTick<E, S, I>,
    events: Seq<WatcherEvent<E, S>>,
    watched: DrainedTick<E, S, I>,
    seen: bool,
    pulsed: DrainedTick<E, S, I>,
    pending: Seq<i32>,
    end: DrainedTick<E, S, I>,
)
    requires
        watcher_noted(start, events, watched),
        pulse_noted(watched, seen, pulsed),
        signals_noted(pulsed, pending, end),
    ensures
        start.fs_events@.is_prefix_of(end.fs_events@),
        start.sensor_overflows@.is_prefix_of(end.sensor_overflows@),
        end.fs_events@.len() + end.sensor_overflows@.len() == start.fs_events@.len()
            + start.sensor_overflows@.len() + events.len(),
        end.config_event_pulse <==> start.config_event_pulse || seen,
        end.signals@.len() == start.signals@.len() + pending.len(),
        start.signals@.is_prefix_of(end.signals@),
        forall|i: int|
            0 <= i < pending.len() ==> end.signals@[start.signals@.len() + i] == #[trigger] pending[i],
        end.probe_responses == start.probe_responses,
        end.effect_completions == start.effect_completions,
        end.ready_reads == start.ready_reads,
        end.ready_writes == start.ready_writes,
        end.listener_ready == start.listener_ready,
        end.actuator_gone == start.actuator_gone,
{
    lemma_every_report_is_taken(events);
    assert(start.fs_events@ =~= end.fs_events@.subrange(0, start.fs_events@.len() as int));
    assert(start.sensor_overflows@ =~= end.sensor_overflows@.subrange(
        0,
        start.sensor_overflows@.len() as int,
    ));
    assert(start.signals@ =~= end.signals@.subrange(0, start.signals@.len() as int));
}

/// A report is an event or an overflow.
proof fn lemma_every_report_is_taken<E, S>(events: Seq<WatcherEvent<E, S>>)
    ensures
        resource_events(events).len() + overflow_scopes(events).len() == events.len(),
    decreases events.len(),
{
    if events.len() > 0 {
        lemma_every_report_is_taken(events.drop_last());
    }
}

impl<E, S, I> DrainedTick<E, S, I> {
    /// Nothing yet.
    pub fn new() -> (tick: Self)
        ensures
            tick.fs_events@ == Seq::<(ResourceId, E)>::empty(),
            tick.sensor_overflows@ == Seq::<S>::empty(),
            tick.probe_responses@ == Seq::<I>::empty(),
            tick.effect_completions@ == Seq::<I>::empty(),
            tick.signals@ == Seq::<i32>::empty(),
            !tick.config_event_pulse,
            !tick.listener_ready,
            !tick.actuator_gone,
            tick.ready_writes@ == Seq::<usize>::empty(),
            tick.ready_reads@ == Seq::<usize>::empty(),
    {
        DrainedTick {
            fs_events: Vec::new(),
            sensor_overflows: Vec::new(),
            probe_responses: Vec::new(),
            effect_completions: Vec::new(),
            signals: Vec::new(),
            config_event_pulse: false,
            listener_ready: false,
            actuator_gone: false,
            ready_writes: Vec::new(),
            ready_reads: Vec::new(),
        }
    }

    /// Takes on the events of the sensor, those of resources apart from
    /// overflows.
    pub fn drain_watcher(&mut self, events: Vec<WatcherEvent<E, S>>)
        ensures
            watcher_noted(*old(self), events@, *final(self)),
    {
        let ghost all = events@;
        assert(all.take(0) =~= Seq::empty());
        assert(self.fs_events@ =~= old(self).fs_events@ + resource_events(all.take(0)));
        assert(self.sensor_overflows@ =~= old(self).sensor_overflows@ + overflow_scopes(
            all.take(0),
        ));
        for event in it: events
            invariant
                it.seq() == all,
                self.fs_events@ == old(self).fs_events@ + resource_events(
                    all.take(it.index() as int),
                ),
                self.sensor_overflows@ == old(self).sensor_overflows@ + overflow_scopes(
                    all.take(it.index() as int),
                ),
                *self == (DrainedTick {
                    fs_events: self.fs_events,
                    sensor_overflows: self.sensor_overflows,
                    ..*old(self)
                }),
        {
            assert(all.take(it.index() + 1).drop_last() =~= all.take(it.index() as int));
            match event {
                WatcherEvent::Fs { resource, event } => {
                    self.fs_events.push((resource, event));
                },
                WatcherEvent::Overflow { scope } => {
                    self.sensor_overflows.push(scope);
                },
            }
            assert(self.fs_events@ =~= old(self).fs_events@ + resource_events(
                all.take(it.index() + 1),
            ));
            assert(self.sensor_overflows@ =~= old(self).sensor_overflows@ + overflow_scopes(
                all.take(it.index() + 1),
            ));
        }
        assert(all.take(all.len() as int) =~= all);
    }

    /// Takes on whether the watcher of the configuration file saw anything.
    pub fn drain_config_watcher(&mut self, seen: bool)
        ensures
            pulse_noted(*old(self), seen, *final(self)),
    {
        if seen {
            self.config_event_pulse = true;
        }
    }

    /// Takes on signals, in the order they came.
    pub fn drain_signals(&mut self, mut pending: Vec<i32>)
        ensures
            signals_noted(*old(self), pending@, *final(self)),
    {
        self.signals.append(&mut pending);
    }

    /// Takes on everything the prober answered.
    pub fn drain_prober_responses(&mut self, inbox: &mut Inbox<I>)
        ensures
            drained(*old(inbox), *final(inbox)),
            final(self).probe_responses@ == old(self).probe_responses@ + messages(
                looks_since(*old(inbox), *final(inbox)),
            ),
            *final(self) == (DrainedTick {
                probe_responses: final(self).probe_responses,
                ..*old(self)
            }),
    {
        let _ = empty_into(inbox, &mut self.probe_responses);
    }

    /// Takes on everything the actuator finished, and then, where nobody is
    /// left to finish anything, that the actuator is gone.
    pub fn drain_effect_completions(&mut self, inbox: &mut Inbox<I>)
        ensures
            drained(*old(inbox), *final(inbox)),
            final(self).effect_completions@ == old(self).effect_completions@ + messages(
                looks_since(*old(inbox), *final(inbox)),
            ),
            *final(self) == (DrainedTick {
                effect_completions: final(self).effect_completions,
                actuator_gone: old(self).actuator_gone || looks_since(
                    *old(inbox),
                    *final(inbox),
                ).last() is Disconnected,
                ..*old(self)
            }),
    {
        if empty_into(inbox, &mut self.effect_completions) {
            self.actuator_gone = true;
        }
    }
}

/// The channels that the driver drains when it is woken.
#[verifier::reject_recursive_types(I)]
pub struct Reactor<I> {
    pub prober_response_rx: Inbox<I>,
    pub effect_complete_rx: Inbox<I>,
}

/// What a report under `token` asks for.
pub open spec fn drain_step(token: usize) -> DrainStep {
    if token == TOKEN_WATCHER {
        DrainStep::Watcher
    } else if token == TOKEN_CONFIG_WATCHER {
        DrainStep::ConfigWatcher
    } else if token == TOKEN_SIGNAL {
        DrainStep::Signals
    } else {
        DrainStep::Nothing
    }
}

/// The tick after a report of anything but a wake: the listener and the
/// connections are noted, all others change nothing by themselves.
pub open spec fn noted<E, S, I>(
    before: DrainedTick<E, S, I>,
    token: usize,
    readable: bool,
    writable: bool,
    after: DrainedTick<E, S, I>,
) -> bool {
    let is_conn = token >= hub::TOKEN_CONN_BASE;
    &&& after.ready_reads@ == if is_conn && readable {
        before.ready_reads@.push(token)
    } else {
        before.ready_reads@
    }
    &&& after.ready_writes@ == if is_conn && writable {
        before.ready_writes@.push(token)
    } else {
        before.ready_writes@
    }
    &&& after == (DrainedTick {
        listener_ready: before.listener_ready || token == TOKEN_LISTENER,
        ready_reads: after.ready_reads,
        ready_writes: after.ready_writes,
        ..before
    })
}

/// A connection that is reported is read exactly where it is readable and
/// written exactly where it is writable, each whatever the other is, once, and
/// behind those reported before. No other report touches either list.
pub proof fn law_reports_of_connections_are_taken_apart<E, S, I>(
    before: DrainedTick<E, S, I>,
    token: usize,
    readable: bool,
    writable: bool,
    after: DrainedTick<E, S, I>,
)
    requires
        noted(before, token, readable, writable, after),
    ensures
        writable && token >= hub::TOKEN_CONN_BASE <==> after.ready_writes@ != before.ready_writes@,
        readable && token >= hub::TOKEN_CONN_BASE <==> after.ready_reads@ != before.ready_reads@,
        writable && token >= hub::TOKEN_CONN_BASE ==> after.ready_writes@.len()
            == before.ready_writes@.len() + 1 && after.ready_writes@.last() == token
            && after.ready_writes@.drop_last() == before.ready_writes@,
        readable && token >= hub::TOKEN_CONN_BASE ==> after.ready_reads@.len()
            == before.ready_reads@.len() + 1 && after.ready_reads@.last() == token
            && after.ready_reads@.drop_last() == before.ready_reads@,
        after.listener_ready <==> before.listener_ready || token == TOKEN_LISTENER,
        after.fs_events == before.fs_events,
        after.sensor_overflows == before.sensor_overflows,
        after.probe_responses == before.probe_responses,
        after.effect_completions == before.effect_completions,
        after.signals == before.signals,
        after.config_event_pulse == before.config_event_pulse,
        after.actuator_gone == before.actuator_gone,
{
    if writable && token >= hub::TOKEN_CONN_BASE {
        assert(after.ready_writes@.drop_last() =~= before.ready_writes@);
    }
    if readable && token >= hub::TOKEN_CONN_BASE {
        assert(after.ready_reads@.drop_last() =~= before.ready_reads@);
    }
}

/// Each fixed source has its own drain, and nothing else asks for one.
pub proof fn law_each_source_has_its_drain(token: usize)
    ensures
        drain_step(token) is Watcher <==> token == TOKEN_WATCHER,
        drain_step(token) is ConfigWatcher <==> token == TOKEN_CONFIG_WATCHER,
        drain_step(token) is Signals <==> token == TOKEN_SIGNAL,
        drain_step(TOKEN_WAKER) is Nothing,
        drain_step(TOKEN_LISTENER) is Nothing,
        token >= hub::TOKEN_CONN_BASE ==> drain_step(token) is Nothing,
{
}

/// A wake takes on what the prober answered as answers, what the actuator
/// finished as finished, each in order, behind what was there, and counts the
/// actuator as gone exactly where nobody is left at its end or it already was.
pub proof fn law_a_wake_keeps_the_channels_apart<E, S, I>(
    reactor: Reactor<I>,
    before: DrainedTick<E, S, I>,
    next: Reactor<I>,
    after: DrainedTick<E, S, I>,
)
    requires
        woke(reactor, before, next, after),
        !(looks_since(reactor.prober_response_rx, next.prober_response_rx).last() is Message),
        !(looks_since(reactor.effect_complete_rx, next.effect_complete_rx).last() is Message),
    ensures
        ({
            let probes = looks_since(reactor.prober_response_rx, next.prober_response_rx);
            let effects = looks_since(reactor.effect_complete_rx, next.effect_complete_rx);
            let p = before.probe_responses@.len();
            let e = before.effect_completions@.len();
            &&& after.probe_responses@.len() == p + probes.len() - 1
            &&& after.effect_completions@.len() == e + effects.len() - 1
            &&& after.probe_responses@.take(p as int) == before.probe_responses@
            &&& after.effect_completions@.take(e as int) == before.effect_completions@
            &&& forall|i: int|
                0 <= i < probes.len() - 1 ==> (#[trigger] probes[i]) == Look::Message(
                    after.probe_responses@[p + i],
                )
            &&& forall|i: int|
                0 <= i < effects.len() - 1 ==> (#[trigger] effects[i]) == Look::Message(
                    after.effect_completions@[e + i],
                )
            &&& after.actuator_gone <==> before.actuator_gone || effects.last() is Disconnected
        }),
        after.ready_reads == before.ready_reads,
        after.ready_writes == before.ready_writes,
        after.signals == before.signals,
        after.fs_events == before.fs_events,
        after.listener_ready == before.listener_ready,
        after.config_event_pulse == before.config_event_pulse,
{
    let probes = looks_since(reactor.prober_response_rx, next.prober_response_rx);
    let effects = looks_since(reactor.effect_complete_rx, next.effect_complete_rx);
    law_every_message_is_kept(probes);
    law_every_message_is_kept(effects);
    let p = before.probe_responses@.len() as int;
    let e = before.effect_completions@.len() as int;
    assert(after.probe_responses@.take(p) =~= before.probe_responses@);
    assert(after.effect_completions@.take(e) =~= before.effect_completions@);
    assert forall|i: int| 0 <= i < probes.len() - 1 implies (#[trigger] probes[i])
        == Look::Message(after.probe_responses@[p + i]) by {
        assert(after.probe_responses@[p + i] == messages(probes)[i]);
    }
    assert forall|i: int| 0 <= i < effects.len() - 1 implies (#[trigger] effects[i])
        == Look::Message(after.effect_completions@[e + i]) by {
        assert(after.effect_completions@[e + i] == messages(effects)[i]);
    }
}

/// The tick after a wake: both channels are drained.
pub open spec fn woke<E, S, I>(
    reactor: Reactor<I>,
    before: DrainedTick<E, S, I>,
    next: Reactor<I>,
    after: DrainedTick<E, S, I>,
) -> bool {
    let probes = looks_since(reactor.prober_response_rx, next.prober_response_rx);
    let effects = looks_since(reactor.effect_complete_rx, next.effect_complete_rx);
    &&& drained(reactor.prober_response_rx, next.prober_response_rx)
    &&& drained(reactor.effect_complete_rx, next.effect_complete_rx)
    &&& after.probe_responses@ == before.probe_responses@ + messages(probes)
    &&& after.effect_completions@ == before.effect_completions@ + messages(effects)
    &&& after == (DrainedTick {
        probe_responses: after.probe_responses,
        effect_completions: after.effect_completions,
        actuator_gone: before.actuator_gone || effects.last() is Disconnected,
        ..before
    })
}

impl<I> Reactor<I> {
    /// Takes on one report of a poll. A wake drains the channels at once; the
    /// sensor, the watcher of the configuration file and the signals are left
    /// to the surrounding program.
    pub fn on_ready<E, S>(
        &mut self,
        tick: &mut DrainedTick<E, S, I>,
        token: usize,
        readable: bool,
        writable: bool,
    ) -> (step: DrainStep)
        ensures
            step == drain_step(token),
            token == TOKEN_WAKER ==> woke(*old(self), *old(tick), *final(self), *final(tick)),
            token != TOKEN_WAKER ==> *final(self) == *old(self) && noted(
                *old(tick),
                token,
                readable,
                writable,
                *final(tick),
            ),
            token >= hub::TOKEN_CONN_BASE ==> {
                &&& writable ==> final(tick).ready_writes@ == old(tick).ready_writes@.push(token)
                &&& !writable ==> final(tick).ready_writes@ == old(tick).ready_writes@
                &&& readable ==> final(tick).ready_reads@ == old(tick).ready_reads@.push(token)
                &&& !readable ==> final(tick).ready_reads@ == old(tick).ready_reads@
            },
    {
        if token == TOKEN_WAKER {
            tick.drain_prober_responses(&mut self.prober_response_rx);
            tick.drain_effect_completions(&mut self.effect_complete_rx);
            return DrainStep::Nothing;
        }
        let mut step: DrainStep = DrainStep::Nothing;
        if token == TOKEN_WATCHER {
            step = DrainStep::Watcher;
        } else if token == TOKEN_CONFIG_WATCHER {
            step = DrainStep::ConfigWatcher;
        } else if token == TOKEN_SIGNAL {
            step = DrainStep::Signals;
        } else if token == TOKEN_LISTENER {
            tick.listener_ready = true;
        } else if token >= hub::TOKEN_CONN_BASE {
            if readable {
                tick.ready_reads.push(token);
            }
            if writable {
                tick.ready_writes.push(token);
            }
        }
        step
    }
}

/// One watch that the sensor was asked for, and its refusal.
#[derive(Debug)]
pub struct WatchResult {
    pub resource: ResourceId,
    pub failure: Option<SensorFailure>,
}

/// The refusals, in order.
pub open spec fn refusals(results: Seq<WatchResult>) -> Seq<Rejection>
    decreases results.len(),
{
    if results.len() == 0 {
        Seq::empty()
    } else {
        let before = refusals(results.drop_last());
        match results.last().failure {
            Some(failure) => before.push(
                Rejection { resource: results.last().resource, failure },
            ),
            None => before,
        }
    }
}

/// Every watch that the sensor refused is reported, in its turn and with its
/// own reason, and no other is.
pub proof fn law_every_refusal_is_reported(results: Seq<WatchResult>, more: WatchResult)
    ensures
        refusals(results).len() == results.filter(|r: WatchResult| r.failure is Some).len(),
        more.failure is None ==> refusals(results.push(more)) == refusals(results),
        more.failure matches Some(failure) ==> {
            let after = refusals(results.push(more));
            &&& after.len() == refusals(results).len() + 1
            &&& after.drop_last() == refusals(results)
            &&& after.last().resource == more.resource
            &&& after.last().failure == failure
        },
    decreases results.len(),
{
    reveal(Seq::filter);
    assert(results.push(more).drop_last() =~= results);
    if results.len() > 0 {
        law_every_refusal_is_reported(results.drop_last(), more);
    }
    if more.failure is Some {
        assert(refusals(results.push(more)).drop_last() =~= refusals(results));
    }
}

/// Picks out what the sensor refused, in order.
pub fn apply_watch_ops(results: Vec<WatchResult>) -> (rejected: Vec<Rejection>)
    ensures
        rejected@ == refusals(results@),
{
    let ghost all = results@;
    let mut rejected: Vec<Rejection> = Vec::new();
    assert(all.take(0) =~= Seq::empty());
    for result in it: results
        invariant
            it.seq() == all,
            rejected@ == refusals(all.take(it.index() as int)),
    {
        assert(all.take(it.index() + 1).drop_last() =~= all.take(it.index() as int));
        let WatchResult { resource, failure } = result;
        if let Some(failure) = failure {
            rejected.push(Rejection { resource, failure });
        }
    }
    assert(all.take(all.len() as int) =~= all);
    rejected
}

} // verus!
