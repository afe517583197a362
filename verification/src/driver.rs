//! The engine driver: the single-threaded owner of the daemon's decisions.

use std::collections::VecDeque;
use vstd::prelude::*;
use crate::channels::{ActuatorIO, Port};
use crate::driver::ipc::conns::ConnState;
use crate::driver::ipc::hub;
use crate::driver::ipc::hub::Hub;
use crate::driver::state::DriverState;
use crate::model::config::{Config, FileMeta, Loader};
use crate::model::input::{Flow, Input};
use crate::names::NameSet;
use crate::time::{MonoTime, WallTime};

pub mod broker;
pub mod forward;
pub mod ipc;
pub mod laws;
pub mod log;
pub mod reactor;
pub mod reload;
pub mod state;

verus! {

/// Why the driver's loop ended.
#[derive(Clone, Copy, Debug, PartialEq, Eq, Structural)]
pub enum ExitReason {
    /// An operator's signal, or the actuator is gone.
    Shutdown,
}

/// What one turn of the driver's loop asks for.
#[derive(Clone, Copy, Debug, PartialEq, Eq, Structural)]
pub enum TickOutcome {
    /// Another turn.
    Continue,
    /// The end; no probe of the engine is under way any more.
    Shutdown,
}

/// Whether the loop ends after a turn.
pub fn after_tick(outcome: TickOutcome) -> (exit: Option<ExitReason>)
    ensures
        exit == (match outcome {
            TickOutcome::Continue => None::<ExitReason>,
            TickOutcome::Shutdown => Some(ExitReason::Shutdown),
        }),
{
    match outcome {
        TickOutcome::Continue => None,
        TickOutcome::Shutdown => Some(ExitReason::Shutdown),
    }
}

/// How a turn ends: the driver is done once the actuator is gone, or once any
/// step of the turn says so.
pub fn tick_outcome(actuator_gone: bool, flow: Flow) -> (outcome: TickOutcome)
    ensures
        outcome == (if actuator_gone || flow == Flow::Break {
            TickOutcome::Shutdown
        } else {
            TickOutcome::Continue
        }),
{
    if actuator_gone {
        return TickOutcome::Shutdown;
    }
    match flow {
        Flow::Continue => TickOutcome::Continue,
        Flow::Break => TickOutcome::Shutdown,
    }
}

/// What a signal asks for.
#[derive(Clone, Copy, Debug, PartialEq, Eq, Structural)]
pub enum SignalAction {
    /// Nothing.
    Ignore,
    /// A reload of the configuration.
    Reload,
    /// An orderly end. The actuator has been told; the driver goes on until
    /// the actuator is done.
    Shutdown,
    /// An end at once. The actuator has been told; its word that all is
    /// stopped is waited for a short while, then the process exits with
    /// [`HARD_EXIT_CODE`].
    HardExit,
}

/// The exit code of an end at once.
pub const HARD_EXIT_CODE: i32 = 130;

/// How the daemon came to its end.
#[derive(Clone, Copy, Debug, PartialEq, Eq, Structural)]
pub enum DaemonEnd {
    /// Something that the start needs could not be had.
    StartFailed,
    /// The actuator went while the configuration was attached; the loop was
    /// not entered.
    StoppedAtBoot,
    /// The loop ended.
    Ran(ExitReason),
}

/// The exit code of the daemon, unless it ends at once: zero unless its start
/// failed.
pub fn exit_code(end: DaemonEnd) -> (code: u8)
    ensures
        code == (if end == DaemonEnd::StartFailed {
            1u8
        } else {
            0u8
        }),
{
    match end {
        DaemonEnd::StartFailed => 1,
        DaemonEnd::StoppedAtBoot | DaemonEnd::Ran(_) => 0,
    }
}

/// Reads `signal_hook::consts::SIGHUP`.
///
/// Believed without proof: the number, the same on every Unix system.
#[verifier::external_body]
fn sighup() -> (signal: i32)
    ensures
        signal == 1,
{
    signal_hook::consts::SIGHUP
}

/// Reads `signal_hook::consts::SIGINT`.
///
/// Believed without proof: the number, the same on every Unix system.
#[verifier::external_body]
fn sigint() -> (signal: i32)
    ensures
        signal == 2,
{
    signal_hook::consts::SIGINT
}

/// Reads `signal_hook::consts::SIGTERM`.
///
/// Believed without proof: the number, the same on every Unix system.
#[verifier::external_body]
fn sigterm() -> (signal: i32)
    ensures
        signal == 15,
{
    signal_hook::consts::SIGTERM
}

/// Whether the signal asks the process to end.
pub open spec fn is_termination(sig: i32) -> bool {
    sig == 2 || sig == 15
}

/// What a signal at `now` asks for, where the last request to end that was
/// not the second within `window` nanoseconds of another came at `first_term`.
pub open spec fn signal_meaning(
    sig: i32,
    now: MonoTime,
    first_term: Option<MonoTime>,
    window: u64,
) -> SignalAction {
    if sig == 1 {
        SignalAction::Reload
    } else if is_termination(sig) {
        if first_term is Some && now.spec_since(first_term->0) < window {
            SignalAction::HardExit
        } else {
            SignalAction::Shutdown
        }
    } else {
        SignalAction::Ignore
    }
}

/// The request to end that is remembered after a signal at `now`.
pub open spec fn remembered(
    action: SignalAction,
    now: MonoTime,
    first_term: Option<MonoTime>,
) -> Option<MonoTime> {
    if action == SignalAction::Shutdown {
        Some(now)
    } else {
        first_term
    }
}

/// Once the process was asked to end that is not forgotten, and what the next
/// signal asks for follows from when it was: a request to end that was orderly
/// makes each further one within the window, and none after it, an end at
/// once. No other signal makes a difference.
pub proof fn law_a_request_to_end_is_remembered(
    first: i32,
    t1: MonoTime,
    before: Option<MonoTime>,
    second: i32,
    t2: MonoTime,
    window: u64,
)
    requires
        second == 2 || second == 15,
        t1.nanos <= t2.nanos,
    ensures
        ({
            let action = signal_meaning(first, t1, before, window);
            let after = remembered(action, t1, before);
            let next = signal_meaning(second, t2, after, window);
            &&& first == 2 || first == 15 ==> after is Some
            &&& before is Some ==> after is Some
            &&& action is Shutdown ==> (next is HardExit <==> t2.nanos - t1.nanos < window)
            &&& first != 2 && first != 15 ==> after == before
            &&& action is HardExit ==> after == before
        }),
{
}

/// Whether a leg was given one pulse more and is the same otherwise.
pub open spec fn pulsed(before: Port<()>, after: Port<()>) -> bool {
    &&& after.tx() == before.tx()
    &&& after.log().len() == before.log().len() + 1
    &&& after.log().drop_last() == before.log()
}

/// Whether the actuator was told what `action` says, once and nothing else: to
/// stop, to stop at once, or nothing.
pub open spec fn passed_on(action: SignalAction, before: ActuatorIO, after: ActuatorIO) -> bool {
    match action {
        SignalAction::Shutdown => {
            &&& pulsed(before.shutdown_actuator_tx, after.shutdown_actuator_tx)
            &&& after == (ActuatorIO {
                shutdown_actuator_tx: after.shutdown_actuator_tx,
                ..before
            })
        },
        SignalAction::HardExit => {
            &&& pulsed(before.hard_shutdown_actuator_tx, after.hard_shutdown_actuator_tx)
            &&& after == (ActuatorIO {
                hard_shutdown_actuator_tx: after.hard_shutdown_actuator_tx,
                ..before
            })
        },
        SignalAction::Ignore | SignalAction::Reload => after == before,
    }
}

/// Reads a signal and passes a request to end on to the actuator. Only the
/// first of two close requests is remembered. Whether the actuator still
/// listens does not matter.
pub fn dispatch_signal_inner(
    sig: i32,
    now: MonoTime,
    first_term: &mut Option<MonoTime>,
    io: &mut ActuatorIO,
    window: u64,
) -> (action: SignalAction)
    ensures
        action == signal_meaning(sig, now, *old(first_term), window),
        passed_on(action, *old(io), *final(io)),
        *final(first_term) == remembered(action, now, *old(first_term)),
{
    if sig == sighup() {
        return SignalAction::Reload;
    }
    if sig != sigint() && sig != sigterm() {
        return SignalAction::Ignore;
    }
    if let Some(prev) = *first_term {
        if now.saturating_since(prev) < window {
            let _ = io.hard_shutdown_actuator_tx.offer(());
            assert(io.hard_shutdown_actuator_tx.log().drop_last()
                =~= old(io).hard_shutdown_actuator_tx.log());
            return SignalAction::HardExit;
        }
    }
    *first_term = Some(now);
    let _ = io.shutdown_actuator_tx.offer(());
    assert(io.shutdown_actuator_tx.log().drop_last() =~= old(io).shutdown_actuator_tx.log());
    SignalAction::Shutdown
}

/// What follows the attachment of the configuration at boot.
#[derive(Clone, Copy, Debug, PartialEq, Eq, Structural)]
pub enum BootStep {
    /// The driver's loop.
    Run,
    /// A reload: the file changed while the daemon started.
    Reload,
    /// The end; the loop is not entered.
    Stop,
}

/// What follows the attachment at boot, where the file was read in the state
/// `known` and was left as `found`.
pub open spec fn boot_step(attached: Flow, known: FileMeta, found: Option<FileMeta>) -> BootStep {
    if attached == Flow::Break {
        BootStep::Stop
    } else if found is Some && found->0 != known {
        BootStep::Reload
    } else {
        BootStep::Run
    }
}

/// The loop is entered unless the boot ended. Before that the file is read
/// again exactly where it can be looked at and anything about it changed since
/// it was read.
pub proof fn law_a_file_that_changed_during_boot_is_read_again(
    attached: Flow,
    known: FileMeta,
    found: Option<FileMeta>,
)
    ensures
        boot_step(attached, known, found) is Stop <==> attached == Flow::Break,
        boot_step(attached, known, found) is Reload <==> attached == Flow::Continue && (
        found matches Some(meta) && !(meta.inode == known.inode && meta.device == known.device
            && meta.mtime_sec == known.mtime_sec && meta.mtime_nsec == known.mtime_nsec && meta.size
            == known.size && meta.mode == known.mode && meta.uid == known.uid && meta.gid
            == known.gid)),
{
}

/// Whether `inputs` are handed out for the turn, and `after` is the driver that
/// is left.
pub open spec fn replayed(before: EngineDriver, inputs: Seq<Input>, after: EngineDriver) -> bool {
    &&& inputs == before.deferred_inputs@
    &&& after.deferred_inputs@ == Seq::<Input>::empty()
    &&& after == (EngineDriver { deferred_inputs: after.deferred_inputs, ..before })
}

/// Each input that waited is handed out once, in the order in which they came:
/// those handed out and those left are those that waited, and none is left for
/// another turn.
pub proof fn law_no_input_waits_twice(
    before: EngineDriver,
    inputs: Seq<Input>,
    after: EngineDriver,
    again: Seq<Input>,
    end: EngineDriver,
)
    requires
        replayed(before, inputs, after),
        replayed(after, again, end),
    ensures
        inputs + after.deferred_inputs@ == before.deferred_inputs@,
        again.len() == 0,
        after.ipc == before.ipc,
        after.loader == before.loader,
        after.disabled_runtime == before.disabled_runtime,
        after.first_term == before.first_term,
{
    assert(inputs + after.deferred_inputs@ =~= before.deferred_inputs@);
}

/// The earlier of two moments, where there are any.
pub open spec fn sooner(a: Option<MonoTime>, b: Option<MonoTime>) -> Option<MonoTime> {
    match (a, b) {
        (Some(x), Some(y)) => if x.nanos <= y.nanos {
            a
        } else {
            b
        },
        (Some(_), None) => a,
        (None, _) => b,
    }
}

/// How long a poll at `now` may wait while `waiting` inputs wait for the turn.
pub open spec fn poll_wait(
    waiting: nat,
    now: MonoTime,
    engine_deadline: Option<MonoTime>,
    settle_deadline: Option<MonoTime>,
) -> Option<u64> {
    if waiting > 0 {
        Some(0u64)
    } else {
        match sooner(engine_deadline, settle_deadline) {
            Some(t) => Some(t.spec_since(now) as u64),
            None => None,
        }
    }
}

/// A poll waits as long as it may and no longer: not at all while an input
/// waits or a deadline is over, without an end while there is no deadline, and
/// else exactly until the first of the deadlines.
pub proof fn law_a_poll_waits_for_the_first_deadline(
    waiting: nat,
    now: MonoTime,
    engine_deadline: Option<MonoTime>,
    settle_deadline: Option<MonoTime>,
)
    ensures
        ({
            let wait = poll_wait(waiting, now, engine_deadline, settle_deadline);
            &&& waiting > 0 ==> wait == Some(0u64)
            &&& wait is None <==> waiting == 0 && engine_deadline is None && settle_deadline is None
            &&& wait matches Some(w) ==> {
                &&& engine_deadline matches Some(t) ==> now.nanos + w <= t.nanos || w == 0
                &&& settle_deadline matches Some(t) ==> now.nanos + w <= t.nanos || w == 0
                &&& waiting == 0 && w > 0 ==> (engine_deadline matches Some(t) && now.nanos + w
                    == t.nanos) || (settle_deadline matches Some(t) && now.nanos + w == t.nanos)
                &&& waiting == 0 && w == 0 ==> (engine_deadline matches Some(t) && t.nanos
                    <= now.nanos) || (settle_deadline matches Some(t) && t.nanos <= now.nanos)
            }
        }),
{
}

/// Everything the driver decides by, apart from the engine and the sockets.
pub struct EngineDriver {
    pub loader: Loader,
    pub config_path: String,
    pub driver_state: DriverState,
    /// When a changed configuration file counts as settled.
    pub config_settle_until: Option<MonoTime>,
    /// Names of watches an operator switched off.
    pub disabled_runtime: NameSet,
    pub actuator_io: ActuatorIO,
    /// When the process was asked to end.
    pub first_term: Option<MonoTime>,
    /// Two requests to end within as many nanoseconds end the process at
    /// once.
    pub hard_exit_window: u64,
    /// Inputs for the engine that wait for the next turn.
    pub deferred_inputs: VecDeque<Input>,
    pub ipc: Hub,
}

/// The places of the enabled watches, in order.
pub open spec fn active_places(enabled: Seq<bool>) -> Seq<int>
    decreases enabled.len(),
{
    if enabled.len() == 0 {
        Seq::empty()
    } else {
        let before = active_places(enabled.drop_last());
        if enabled.last() {
            before.push(enabled.len() - 1)
        } else {
            before
        }
    }
}

/// Which static watches are enabled.
pub open spec fn watch_flags(config: Config) -> Seq<bool> {
    Seq::new(config.watches@.len(), |i: int| config.watches@[i].enabled)
}

/// Which dynamic watches are enabled.
pub open spec fn promoter_flags(config: Config) -> Seq<bool> {
    Seq::new(config.promoters@.len(), |i: int| config.promoters@[i].enabled)
}

/// The inputs that attach a configuration: its enabled static watches, then
/// its enabled dynamic ones, each in the order of the file.
pub open spec fn attach_inputs(config: Config) -> Seq<Input> {
    active_places(watch_flags(config)).map_values(
        |i: int| Input::AttachSub { watch: i as usize },
    ) + active_places(promoter_flags(config)).map_values(
        |i: int| Input::AttachPromoter { promoter: i as usize },
    )
}

impl EngineDriver {
    /// What every operation keeps.
    pub open spec fn wf(self) -> bool {
        &&& self.ipc.wf()
        &&& self.disabled_runtime.wf()
        &&& self.driver_state.wf()
    }

    /// A driver at boot.
    pub fn new(
        loader: Loader,
        config_path: String,
        socket_path: String,
        start_instant: MonoTime,
        start_wall: WallTime,
        actuator_io: ActuatorIO,
        hard_exit_window: u64,
    ) -> (driver: EngineDriver)
        ensures
            driver.wf(),
            driver.loader == loader,
            driver.config_path == config_path,
            driver.driver_state.start_instant == start_instant,
            driver.driver_state.start_wall == start_wall,
            driver.driver_state.reload_count == 0,
            driver.driver_state.last_reload is None,
            driver.driver_state.socket_path == socket_path,
            driver.config_settle_until is None,
            driver.disabled_runtime@ == Set::<Seq<char>>::empty(),
            driver.actuator_io == actuator_io,
            driver.first_term is None,
            driver.hard_exit_window == hard_exit_window,
            driver.deferred_inputs@ == Seq::<Input>::empty(),
            driver.ipc@.conns == Map::<usize, ConnState>::empty(),
            driver.ipc.conns@.len() == 0,
            driver.ipc.next_conn_token == hub::TOKEN_CONN_BASE,
    {
        EngineDriver {
            loader,
            config_path,
            driver_state: DriverState::new(socket_path, start_instant, start_wall),
            config_settle_until: None,
            disabled_runtime: NameSet::new(),
            actuator_io,
            first_term: None,
            hard_exit_window,
            deferred_inputs: VecDeque::new(),
            ipc: Hub::new(),
        }
    }

    /// The inputs that attach the configuration at boot, in order. The first
    /// of them after which the driver does not go on ends the boot.
    pub fn initial_attach(&self) -> (inputs: Vec<Input>)
        ensures
            inputs@ == attach_inputs(self.loader.current_config),
    {
        let config = &self.loader.current_config;
        let ghost flags = watch_flags(*config);
        let ghost more = promoter_flags(*config);
        let mut inputs: Vec<Input> = Vec::new();
        let mut i: usize = 0;
        assert(flags.take(0) =~= Seq::empty());
        while i < config.watches.len()
            invariant
                i <= config.watches@.len(),
                flags == watch_flags(*config),
                inputs@ == active_places(flags.take(i as int)).map_values(
                    |p: int| Input::AttachSub { watch: p as usize },
                ),
            decreases config.watches@.len() - i,
        {
            let ghost before = inputs@;
            if config.watches[i].enabled {
                inputs.push(Input::AttachSub { watch: i });
            }
            proof {
                assert(flags.take(i + 1).drop_last() =~= flags.take(i as int));
                assert(inputs@ =~= active_places(flags.take(i + 1)).map_values(
                    |p: int| Input::AttachSub { watch: p as usize },
                ));
            }
            i = i + 1;
        }
        assert(flags.take(i as int) =~= flags);
        let ghost head = inputs@;
        let mut j: usize = 0;
        assert(more.take(0) =~= Seq::empty());
        while j < config.promoters.len()
            invariant
                j <= config.promoters@.len(),
                more == promoter_flags(*config),
                inputs@ == head + active_places(more.take(j as int)).map_values(
                    |p: int| Input::AttachPromoter { promoter: p as usize },
                ),
            decreases config.promoters@.len() - j,
        {
            if config.promoters[j].enabled {
                inputs.push(Input::AttachPromoter { promoter: j });
            }
            proof {
                assert(more.take(j + 1).drop_last() =~= more.take(j as int));
                assert(inputs@ =~= head + active_places(more.take(j + 1)).map_values(
                    |p: int| Input::AttachPromoter { promoter: p as usize },
                ));
            }
            j = j + 1;
        }
        assert(more.take(j as int) =~= more);
        inputs
    }

    /// What follows the attachment at boot, which ended as `attached` says and
    /// left the file as `found`. A file that cannot be looked at is left for
    /// the loop.
    pub fn after_attach(&self, attached: Flow, found: Option<FileMeta>) -> (step: BootStep)
        ensures
            step == boot_step(attached, self.loader.config_meta, found),
    {
        if let Flow::Break = attached {
            return BootStep::Stop;
        }
        match found {
            Some(meta) => if meta != self.loader.config_meta {
                BootStep::Reload
            } else {
                BootStep::Run
            },
            None => BootStep::Run,
        }
    }

    /// How long the next poll may wait, in nanoseconds: not at all where an
    /// input waits for the turn, else until the next moment at which the
    /// engine or the settle deadline asks for one, else without an end.
    pub fn block_timeout(&self, now: MonoTime, engine_deadline: Option<MonoTime>) -> (wait: Option<
        u64,
    >)
        ensures
            wait == poll_wait(
                self.deferred_inputs@.len(),
                now,
                engine_deadline,
                self.config_settle_until,
            ),
    {
        if self.deferred_inputs.len() > 0 {
            return Some(0);
        }
        let next: Option<MonoTime> = match (engine_deadline, self.config_settle_until) {
            (Some(x), Some(y)) => if x.nanos <= y.nanos {
                Some(x)
            } else {
                Some(y)
            },
            (Some(x), None) => Some(x),
            (None, y) => y,
        };
        match next {
            Some(t) => Some(t.saturating_since(now)),
            None => None,
        }
    }

    /// Hands out the inputs that waited for this turn, in order, and lets none
    /// wait twice.
    pub fn replay_deferred_inputs(&mut self) -> (inputs: VecDeque<Input>)
        requires
            old(self).wf(),
        ensures
            final(self).wf(),
            replayed(*old(self), inputs@, *final(self)),
    {
        let mut inputs: VecDeque<Input> = VecDeque::new();
        inputs.append(&mut self.deferred_inputs);
        assert(inputs@ =~= old(self).deferred_inputs@);
        inputs
    }

    /// Reads a signal and passes a request to end on to the actuator.
    pub fn dispatch_signal(&mut self, sig: i32, now: MonoTime) -> (action: SignalAction)
        requires
            old(self).wf(),
        ensures
            final(self).wf(),
            action == signal_meaning(sig, now, old(self).first_term, old(self).hard_exit_window),
            passed_on(action, old(self).actuator_io, final(self).actuator_io),
            *final(self) == (EngineDriver {
                first_term: remembered(action, now, old(self).first_term),
                actuator_io: final(self).actuator_io,
                ..*old(self)
            }),
    {
        dispatch_signal_inner(
            sig,
            now,
            &mut self.first_term,
            &mut self.actuator_io,
            self.hard_exit_window,
        )
    }
}

/// What follows a reload at boot.
pub fn after_boot_reload(reload: Flow) -> (step: BootStep)
    ensures
        step == (match reload {
            Flow::Continue => BootStep::Run,
            Flow::Break => BootStep::Stop,
        }),
{
    match reload {
        Flow::Continue => BootStep::Run,
        Flow::Break => BootStep::Stop,
    }
}

/// Whether the driver goes on after a signal, where a reload that it asked for
/// ended as `reload` says.
pub fn after_signal(action: SignalAction, reload: Flow) -> (flow: Flow)
    ensures
        flow == (match action {
            SignalAction::Ignore | SignalAction::Shutdown => Flow::Continue,
            SignalAction::Reload => reload,
            SignalAction::HardExit => Flow::Break,
        }),
{
    match action {
        SignalAction::Ignore | SignalAction::Shutdown => Flow::Continue,
        SignalAction::Reload => reload,
        SignalAction::HardExit => Flow::Break,
    }
}

/// Of two requests to end, the second ends the process at once exactly where
/// it comes within the window of the first; else it starts a window of its
/// own.
pub proof fn law_second_termination_within_the_window_is_hard(
    first: i32,
    second: i32,
    t1: MonoTime,
    t2: MonoTime,
    window: u64,
)
    requires
        is_termination(first),
        is_termination(second),
    ensures
        signal_meaning(first, t1, None, window) == SignalAction::Shutdown,
        signal_meaning(second, t2, Some(t1), window) == (if t2.spec_since(t1) < window {
            SignalAction::HardExit
        } else {
            SignalAction::Shutdown
        }),
{
}

/// What a signal asks for goes by its number: hang-up reloads, also while the
/// daemon is about to end; an interrupt and a termination ask it to end, and
/// nothing else does; all others are ignored.
pub proof fn law_each_signal_asks_for_its_own(
    sig: i32,
    now: MonoTime,
    first_term: Option<MonoTime>,
    window: u64,
)
    ensures
        signal_meaning(sig, now, first_term, window) is Reload <==> sig == 1,
        signal_meaning(sig, now, first_term, window) is Shutdown || signal_meaning(
            sig,
            now,
            first_term,
            window,
        ) is HardExit <==> sig == 2 || sig == 15,
        signal_meaning(sig, now, first_term, window) is HardExit ==> (first_term matches Some(t)
            && (now.nanos - t.nanos < window)),
        sig == 2 || sig == 15 ==> (first_term matches Some(t) ==> (t.nanos <= now.nanos
            && now.nanos - t.nanos < window ==> signal_meaning(sig, now, first_term, window)
            is HardExit)),
{
}

/// Each request to end is passed on over its own leg, once: an orderly one over
/// the one, an end at once over the other. No other signal tells the actuator
/// anything, and none hands it an order.
pub proof fn law_each_request_takes_its_own_leg(
    action: SignalAction,
    before: ActuatorIO,
    after: ActuatorIO,
)
    requires
        passed_on(action, before, after),
    ensures
        after.shutdown_actuator_tx.log().len() == before.shutdown_actuator_tx.log().len() + (
        if action is Shutdown {
            1int
        } else {
            0
        }),
        after.hard_shutdown_actuator_tx.log().len() == before.hard_shutdown_actuator_tx.log().len()
            + (if action is HardExit {
            1int
        } else {
            0
        }),
        before.shutdown_actuator_tx.log().is_prefix_of(after.shutdown_actuator_tx.log()),
        before.hard_shutdown_actuator_tx.log().is_prefix_of(
            after.hard_shutdown_actuator_tx.log(),
        ),
        after.effects_tx == before.effects_tx,
        after.hard_shutdown_done_rx == before.hard_shutdown_done_rx,
{
    let soft = before.shutdown_actuator_tx.log();
    let hard = before.hard_shutdown_actuator_tx.log();
    assert(soft =~= after.shutdown_actuator_tx.log().subrange(0, soft.len() as int));
    assert(hard =~= after.hard_shutdown_actuator_tx.log().subrange(0, hard.len() as int));
}

/// The first request to end asks the actuator to stop, never to stop at once;
/// only the second of two close ones does that.
pub proof fn law_the_first_request_spares_the_hard_leg(
    sig: i32,
    now: MonoTime,
    window: u64,
    before: ActuatorIO,
    after: ActuatorIO,
)
    requires
        is_termination(sig),
        passed_on(signal_meaning(sig, now, None, window), before, after),
    ensures
        pulsed(before.shutdown_actuator_tx, after.shutdown_actuator_tx),
        after.hard_shutdown_actuator_tx == before.hard_shutdown_actuator_tx,
        after.effects_tx == before.effects_tx,
{
}

} // verus!
