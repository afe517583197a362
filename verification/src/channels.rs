//! The channels between the driver and the actuator, which runs the programs
//! of the watches on a thread of its own.

use vstd::prelude::*;
use crate::ids::ProfileId;

verus! {

/// One program to run. The driver does not look into it; the ticket is what
/// the surrounding program finds it by.
#[derive(Clone, Copy, Debug, PartialEq, Eq, Structural)]
pub struct Effect {
    pub ticket: u64,
}

/// What the driver tells the actuator.
#[derive(Clone, Copy, Debug, PartialEq, Eq, Structural)]
pub enum EffectOp {
    /// Stop whatever runs for the profile.
    Cancel { profile: ProfileId },
    /// Run a program.
    Submit(Effect),
}

/// The sending end of a channel of the `crossbeam` crate.
#[verifier::external_type_specification]
#[verifier::external_body]
#[verifier::reject_recursive_types(T)]
pub struct ExSender<T>(crossbeam::channel::Sender<T>);

/// The receiving end of a channel of the `crossbeam` crate.
#[verifier::external_type_specification]
#[verifier::external_body]
#[verifier::reject_recursive_types(T)]
pub struct ExReceiver<T>(crossbeam::channel::Receiver<T>);

/// Which channel an effects sender feeds.
pub uninterp spec fn effects_into(tx: crossbeam::channel::Sender<EffectOp>) -> int;

/// Which channel an effects receiver drains.
pub uninterp spec fn effects_from(rx: crossbeam::channel::Receiver<EffectOp>) -> int;

/// How many messages an effects channel holds.
pub uninterp spec fn effects_limit(tx: crossbeam::channel::Sender<EffectOp>) -> nat;

/// Which channel a pulse sender feeds.
pub uninterp spec fn pulses_into(tx: crossbeam::channel::Sender<()>) -> int;

/// Which channel a pulse receiver drains.
pub uninterp spec fn pulses_from(rx: crossbeam::channel::Receiver<()>) -> int;

/// How many messages a pulse channel holds.
pub uninterp spec fn pulses_limit(tx: crossbeam::channel::Sender<()>) -> nat;

/// Room of the effects channel.
pub const EFFECTS_ROOM: usize = 1024;

/// Room of a pulse channel: a second pulse that finds one waiting is the same
/// pulse.
pub const PULSE_ROOM: usize = 1;

/// Calls `crossbeam::channel::bounded` for effects.
///
/// Believed without proof: both ends belong to one channel, which holds at
/// most `room` messages.
#[verifier::external_body]
fn bounded_effects(room: usize) -> (ends: (
    crossbeam::channel::Sender<EffectOp>,
    crossbeam::channel::Receiver<EffectOp>,
))
    requires
        0 < room <= EFFECTS_ROOM,
    ensures
        effects_into(ends.0) == effects_from(ends.1),
        effects_limit(ends.0) == room,
{
    crossbeam::channel::bounded(room)
}

/// The two ends of a pulse channel.
struct PulseLeg {
    tx: crossbeam::channel::Sender<()>,
    rx: crossbeam::channel::Receiver<()>,
}

/// Calls `crossbeam::channel::bounded` for pulses, three times.
///
/// Believed without proof: the ends of each call belong to one channel, which
/// holds at most `room` messages, and each call opens another channel.
#[verifier::external_body]
fn bounded_pulses(room: usize) -> (legs: (PulseLeg, PulseLeg, PulseLeg))
    requires
        0 < room <= EFFECTS_ROOM,
    ensures
        pulses_into(legs.0.tx) == pulses_from(legs.0.rx),
        pulses_into(legs.1.tx) == pulses_from(legs.1.rx),
        pulses_into(legs.2.tx) == pulses_from(legs.2.rx),
        pulses_limit(legs.0.tx) == room,
        pulses_limit(legs.1.tx) == room,
        pulses_limit(legs.2.tx) == room,
        pulses_into(legs.0.tx) != pulses_into(legs.1.tx),
        pulses_into(legs.0.tx) != pulses_into(legs.2.tx),
        pulses_into(legs.1.tx) != pulses_into(legs.2.tx),
{
    let (a, b) = crossbeam::channel::bounded(room);
    let (c, d) = crossbeam::channel::bounded(room);
    let (e, f) = crossbeam::channel::bounded(room);
    (PulseLeg { tx: a, rx: b }, PulseLeg { tx: c, rx: d }, PulseLeg { tx: e, rx: f })
}

/// What became of a message that was not waited for.
#[derive(Clone, Copy, Debug, PartialEq, Eq, Structural)]
pub enum Verdict {
    /// On its way.
    Sent,
    /// The channel had no room; the message is lost.
    Full,
    /// Nobody is there to receive; the message is lost.
    Disconnected,
}

/// A sending end that keeps account of every message it was ever given, in
/// order, and of what became of each.
#[verifier::reject_recursive_types(T)]
pub struct Port<T> {
    tx: crossbeam::channel::Sender<T>,
    log: Ghost<Seq<(T, Verdict)>>,
}

impl<T> Port<T> {
    /// The sender behind the port.
    pub closed spec fn tx(self) -> crossbeam::channel::Sender<T> {
        self.tx
    }

    /// Every message offered so far, in order, with what became of it.
    pub closed spec fn log(self) -> Seq<(T, Verdict)> {
        self.log@
    }

    /// A port that was given nothing yet.
    pub fn new(tx: crossbeam::channel::Sender<T>) -> (port: Port<T>)
        ensures
            port.tx() == tx,
            port.log() == Seq::<(T, Verdict)>::empty(),
    {
        Port { tx, log: Ghost(Seq::empty()) }
    }

    /// The sender behind the port. The account knows nothing of what is sent
    /// through it.
    pub fn sender(&self) -> (tx: &crossbeam::channel::Sender<T>)
        ensures
            *tx == self.tx(),
    {
        &self.tx
    }

    /// Calls `Sender::try_send` of the `crossbeam` crate, once, with `message`.
    ///
    /// Believed without proof: the account grows by this message and what
    /// became of it. Whether it gets through depends on the other end.
    #[verifier::external_body]
    pub(crate) fn offer(&mut self, message: T) -> (verdict: Verdict)
        ensures
            final(self).tx() == old(self).tx(),
            final(self).log() == old(self).log().push((message, verdict)),
    {
        match self.tx.try_send(message) {
            Ok(()) => Verdict::Sent,
            Err(crossbeam::channel::TrySendError::Full(_)) => Verdict::Full,
            Err(crossbeam::channel::TrySendError::Disconnected(_)) => Verdict::Disconnected,
        }
    }
}

/// What a look into a channel found.
#[derive(Debug)]
pub enum Look<T> {
    /// A message, taken off the channel.
    Message(T),
    /// Nothing at the moment.
    Empty,
    /// Nothing, and nobody is left to send.
    Disconnected,
}

/// A receiving end that keeps account of every look into its channel, in
/// order, and of what it found.
#[verifier::reject_recursive_types(T)]
pub struct Inbox<T> {
    rx: crossbeam::channel::Receiver<T>,
    log: Ghost<Seq<Look<T>>>,
}

impl<T> Inbox<T> {
    /// The receiver behind the inbox.
    pub closed spec fn rx(self) -> crossbeam::channel::Receiver<T> {
        self.rx
    }

    /// What every look so far found, in order.
    pub closed spec fn log(self) -> Seq<Look<T>> {
        self.log@
    }

    /// An inbox that nobody looked into yet.
    pub fn new(rx: crossbeam::channel::Receiver<T>) -> (inbox: Inbox<T>)
        ensures
            inbox.rx() == rx,
            inbox.log() == Seq::<Look<T>>::empty(),
    {
        Inbox { rx, log: Ghost(Seq::empty()) }
    }

    /// Calls `Receiver::try_recv` of the `crossbeam` crate, once.
    ///
    /// Believed without proof: the account grows by what this look found. What
    /// that is depends on the other end.
    #[verifier::external_body]
    pub(crate) fn look(&mut self) -> (found: Look<T>)
        ensures
            final(self).rx() == old(self).rx(),
            final(self).log() == old(self).log().push(found),
    {
        match self.rx.try_recv() {
            Ok(message) => Look::Message(message),
            Err(crossbeam::channel::TryRecvError::Empty) => Look::Empty,
            Err(crossbeam::channel::TryRecvError::Disconnected) => Look::Disconnected,
        }
    }
}

/// The driver's ends: programs to run, the request to stop, the request to
/// stop at once, and the word that everything is stopped.
pub struct ActuatorIO {
    pub effects_tx: Port<EffectOp>,
    pub shutdown_actuator_tx: Port<()>,
    pub hard_shutdown_actuator_tx: Port<()>,
    pub hard_shutdown_done_rx: crossbeam::channel::Receiver<()>,
}

/// The actuator's ends.
#[derive(Debug)]
pub struct ActuatorSide {
    pub effects_rx: crossbeam::channel::Receiver<EffectOp>,
    pub shutdown_actuator_rx: crossbeam::channel::Receiver<()>,
    pub hard_shutdown_actuator_rx: crossbeam::channel::Receiver<()>,
    pub hard_shutdown_done_tx: crossbeam::channel::Sender<()>,
}

impl ActuatorIO {
    /// Opens the four channels, no two of them the same, and hands each side
    /// its ends.
    pub fn pair() -> (ends: (ActuatorIO, ActuatorSide))
        ensures
            ends.0.effects_tx.log().len() == 0,
            ends.0.shutdown_actuator_tx.log().len() == 0,
            ends.0.hard_shutdown_actuator_tx.log().len() == 0,
            effects_into(ends.0.effects_tx.tx()) == effects_from(ends.1.effects_rx),
            effects_limit(ends.0.effects_tx.tx()) == EFFECTS_ROOM,
            pulses_into(ends.0.shutdown_actuator_tx.tx()) == pulses_from(ends.1.shutdown_actuator_rx),
            pulses_limit(ends.0.shutdown_actuator_tx.tx()) == PULSE_ROOM,
            pulses_into(ends.0.hard_shutdown_actuator_tx.tx()) == pulses_from(
                ends.1.hard_shutdown_actuator_rx,
            ),
            pulses_limit(ends.0.hard_shutdown_actuator_tx.tx()) == PULSE_ROOM,
            pulses_into(ends.1.hard_shutdown_done_tx) == pulses_from(ends.0.hard_shutdown_done_rx),
            pulses_limit(ends.1.hard_shutdown_done_tx) == PULSE_ROOM,
            pulses_into(ends.0.shutdown_actuator_tx.tx()) != pulses_into(
                ends.0.hard_shutdown_actuator_tx.tx(),
            ),
            pulses_into(ends.0.shutdown_actuator_tx.tx()) != pulses_into(ends.1.hard_shutdown_done_tx),
            pulses_into(ends.0.hard_shutdown_actuator_tx.tx()) != pulses_into(
                ends.1.hard_shutdown_done_tx,
            ),
    {
        let (effects_tx, effects_rx) = bounded_effects(EFFECTS_ROOM);
        let (stop, stop_at_once, stopped): (PulseLeg, PulseLeg, PulseLeg) = bounded_pulses(
            PULSE_ROOM,
        );
        (
            ActuatorIO {
                effects_tx: Port::new(effects_tx),
                shutdown_actuator_tx: Port::new(stop.tx),
                hard_shutdown_actuator_tx: Port::new(stop_at_once.tx),
                hard_shutdown_done_rx: stopped.rx,
            },
            ActuatorSide {
                effects_rx,
                shutdown_actuator_rx: stop.rx,
                hard_shutdown_actuator_rx: stop_at_once.rx,
                hard_shutdown_done_tx: stopped.tx,
            },
        )
    }
}

} // verus!
