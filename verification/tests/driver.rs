use signal_hook::consts::{SIGHUP, SIGINT, SIGTERM, SIGUSR1};
use specter_bin::channels::{ActuatorIO, ActuatorSide, Effect, EffectOp, Inbox, Verdict};
use specter_bin::driver::forward::Rejection;
use specter_bin::driver::ipc::conns::{
    ConnRole, MissedWindow, ACCEPT_CAP, WRITE_QUEUE_HIGH_WATER,
};
use specter_bin::driver::ipc::dispatch::{
    encode_verdict, request_body, Delivery, VerbPlan, MAX_ABSORB_WINDOW_MS,
};
use specter_bin::driver::ipc::hub::{
    busy_line, AcceptEvent, AcceptPass, AcceptStep, DrainVerdict, DrainWritableOutcome,
    EnqueueOutcome, NoSuchConn, ReadOutcome, WriteEvent, WriteStep, MAX_IPC_CONNS,
    TOKEN_CONN_BASE,
};
use specter_bin::driver::reactor::{DrainedTick, Reactor, TOKEN_WAKER};
use specter_bin::driver::reload::{Parsed, ReloadStep, SettleStep};
use specter_bin::driver::state::ReloadTrigger;
use specter_bin::driver::{
    after_boot_reload, after_signal, after_tick, dispatch_signal_inner, exit_code, tick_outcome,
    BootStep, DaemonEnd, EngineDriver, ExitReason, SignalAction, TickOutcome, HARD_EXIT_CODE,
};
use specter_bin::ids::{ProfileId, PromoterId, ResourceId, SubId};
use specter_bin::ipc::framing::{encode_err_line, encode_ok_line, MAX_LINE_BYTES};
use specter_bin::ipc::protocol::{
    DisabledSource, ResponsePayload, ShowResponse, WireErrorCode, WireRequest,
};
use specter_bin::model::config::{
    Config, FileMeta, Loader, LogConfig, LogDestination, LogLevel, PromoterDiff, PromoterSpec,
    SubChange, WatchDiff, WatchSpec,
};
use specter_bin::model::diagnostic::{Diagnostic, SensorFailure};
use specter_bin::model::engine::{
    EffectScope, EngineView, FireHistory, MintSource, ProfileRecord, ReactionKind, SubRecord,
};
use specter_bin::model::input::{Flow, Input};
use specter_bin::model::program::ActionProgram;
use specter_bin::text::stamp;
use specter_bin::time::{MonoTime, WallTime};

const NOW: MonoTime = MonoTime { nanos: 50_000_000_000 };
const WALL: WallTime = WallTime { nanos: 1_700_000_000_000_000_000 };
const WINDOW: u64 = 5_000_000_000;

fn dummy_meta() -> FileMeta {
    FileMeta {
        inode: 0,
        device: 0,
        mtime_sec: 0,
        mtime_nsec: 0,
        size: 0,
        mode: 0,
        uid: 0,
        gid: 0,
    }
}

fn meta(inode: u64) -> FileMeta {
    FileMeta { inode, size: 9, ..dummy_meta() }
}

fn warn_log() -> LogConfig {
    LogConfig { level: LogLevel::Warn, destination: LogDestination::Stderr, path: None }
}

fn config_of(watches: &[(&str, bool)], promoters: &[(&str, bool)]) -> Config {
    Config {
        watches: watches
            .iter()
            .map(|(name, enabled)| WatchSpec { name: name.to_string(), enabled: *enabled })
            .collect(),
        promoters: promoters
            .iter()
            .map(|(name, enabled)| PromoterSpec { name: name.to_string(), enabled: *enabled })
            .collect(),
    }
}

fn names_in(config: &Config) -> Vec<(String, bool)> {
    config.watches.iter().map(|w| (w.name.clone(), w.enabled)).collect()
}

/// A driver with the other ends of its channels and a stand-in for the
/// registries of the engine.
struct Rig {
    driver: EngineDriver,
    actuator_side: ActuatorSide,
    view: EngineView,
    promoters: Vec<String>,
}

fn rig_for(current_config: Config) -> Rig {
    let (io, actuator_side) = ActuatorIO::pair();
    let loader =
        Loader { current_config, current_log: warn_log(), config_meta: dummy_meta() };
    let driver = EngineDriver::new(
        loader,
        "/etc/specter.toml".to_string(),
        "/tmp/specter-test.sock".to_string(),
        NOW,
        WALL,
        io,
        WINDOW,
    );
    let view =
        EngineView { subs: Vec::new(), profiles: Vec::new(), profile_active: 0, promoter_active: 0 };
    Rig { driver, actuator_side, view, promoters: Vec::new() }
}

fn one_watch() -> Config {
    config_of(&[("build", true)], &[])
}

impl Rig {
    fn attach(&mut self, name: &str, minted_by: Option<MintSource>) {
        let id = self.view.subs.len() as u64 + 1;
        self.view.subs.push(SubRecord {
            id: SubId(id),
            name: name.to_string(),
            profile: ProfileId(id),
            settle_ms: 50,
            reaction: ReactionKind::Spawn,
            history: Some(FireHistory {
                last_fired_at: None,
                fire_count: 0,
                dedup_suppressed_count: 0,
            }),
            minted_by,
            scope: EffectScope::SubtreeRoot,
            program: ActionProgram { ops: Vec::new() },
        });
        self.view.profiles.push(ProfileRecord {
            id: ProfileId(id),
            state: "Idle".to_string(),
            anchor: None,
        });
    }

    fn step(&mut self, input: Input) {
        match input {
            Input::AttachSub { watch } => {
                let name = self.driver.loader.current_config.watches[watch].name.clone();
                self.attach(&name, None);
            }
            Input::AttachPromoter { promoter } => {
                let name = self.driver.loader.current_config.promoters[promoter].name.clone();
                self.promoters.push(name);
            }
            Input::DetachSub(id) => self.view.subs.retain(|s| s.id != id),
            Input::ArmAbsorb { .. } | Input::WatchOpRejected { .. } => {}
        }
    }

    fn run_initial_attach(&mut self) {
        for input in self.driver.initial_attach() {
            self.step(input);
        }
    }

    fn attached(&self, name: &str) -> bool {
        self.view.find_by_name(name).is_some()
    }

    fn connect(&mut self) -> usize {
        match self.driver.ipc.on_accept(AcceptEvent::Accepted) {
            AcceptStep::Admit { token } => {
                self.driver.ipc.insert_conn(token);
                token
            }
            other => panic!("expected a place, got {other:?}"),
        }
    }

    fn ask(&mut self, token: usize, request: WireRequest) -> VerbPlan {
        self.driver.handle_ipc_line(token, Ok(request), &self.view, NOW)
    }

    /// Asks and carries the plan out as far as the registries go.
    fn round_trip(&mut self, token: usize, request: WireRequest) -> ResponsePayload {
        match self.ask(token, request) {
            VerbPlan::Answer(answer) => answer,
            VerbPlan::Subscribe { filter } => {
                let outcome = self.driver.commit_subscribe(token, filter, b"{\"ack\":0}\n");
                assert_eq!(outcome, EnqueueOutcome::Accepted);
                ResponsePayload::SubscribeAck { sub: filter }
            }
            VerbPlan::Step(input) => {
                self.step(input);
                ResponsePayload::Done
            }
            VerbPlan::Reload => {
                let parsed = unchanged(&self.driver.loader.current_config);
                assert_eq!(self.reload(ReloadTrigger::Ipc, Some(parsed)), Flow::Continue);
                ResponsePayload::Done
            }
        }
    }

    /// Reloads what `parsed` holds, as a program around the driver would.
    fn reload(&mut self, trigger: ReloadTrigger, parsed: Option<Parsed>) -> Flow {
        match self.driver.dispatch_reload(trigger, WALL, parsed, None) {
            ReloadStep::Keep => Flow::Continue,
            ReloadStep::Apply { diff, pending, .. } => {
                let mut arrived: Vec<String> = Vec::new();
                let mut promoters: Vec<usize> = Vec::new();
                if let Some(diff) = diff {
                    self.view.subs.retain(|s| !diff.removed.contains(&s.name));
                    arrived = diff.added.into_iter().map(|c| c.name).collect();
                    promoters = diff.promoters.added;
                }
                for name in arrived {
                    self.attach(&name, None);
                }
                let flow = self.driver.finish_reload(pending, true, Flow::Continue);
                for place in promoters {
                    self.step(Input::AttachPromoter { promoter: place });
                }
                flow
            }
        }
    }

    /// Lets the settle deadline pass, as a program around the driver would:
    /// `found` is the state of the file, `parsed` what it holds.
    fn settle(&mut self, now: MonoTime, found: Option<FileMeta>, parsed: Option<Parsed>) -> Flow {
        match self.driver.apply_config_settle_expiry(now) {
            SettleStep::CheckFile if self.driver.config_meta_changed(found) => {
                self.reload(ReloadTrigger::AutoReload, parsed)
            }
            _ => Flow::Continue,
        }
    }

    fn queued(&self, token: usize) -> Vec<u8> {
        self.driver.ipc.conn_ref(token).expect("conn lives").write_queue.iter().copied().collect()
    }

    /// Writes everything out and ends the pass as a program that polls would.
    fn flush(&mut self, token: usize) -> Vec<u8> {
        let bytes = self.queued(token);
        assert_eq!(
            self.driver.ipc.on_write(token, WriteEvent::Wrote(bytes.len())),
            if bytes.is_empty() { WriteStep::Stop } else { WriteStep::Again },
        );
        if self.driver.ipc.after_drain(token).conclude(true) == DrainWritableOutcome::Terminate {
            self.driver.ipc.terminate_conn(token);
        }
        bytes
    }
}

fn refusal(answer: ResponsePayload) -> (WireErrorCode, String) {
    match answer {
        ResponsePayload::Refusal { code, error } => (code, error),
        other => panic!("expected a refusal, got {other:?}"),
    }
}

fn no_change() -> WatchDiff {
    WatchDiff {
        added: Vec::new(),
        removed: Vec::new(),
        modified_identity: Vec::new(),
        modified_params: Vec::new(),
        promoters: PromoterDiff { added: Vec::new(), removed: Vec::new(), modified: Vec::new() },
    }
}

fn copy_of(config: &Config) -> Config {
    let watches: Vec<(&str, bool)> =
        config.watches.iter().map(|w| (w.name.as_str(), w.enabled)).collect();
    let promoters: Vec<(&str, bool)> =
        config.promoters.iter().map(|p| (p.name.as_str(), p.enabled)).collect();
    config_of(&watches, &promoters)
}

/// A file that holds what runs.
fn unchanged(config: &Config) -> Parsed {
    Parsed {
        config: copy_of(config),
        meta: meta(7),
        diff: no_change(),
        log: Some(warn_log()),
    }
}

fn change(name: &str, watch: usize) -> SubChange {
    SubChange { name: name.to_string(), watch }
}

fn named(name: &str) -> String {
    name.to_string()
}

#[test]
fn dispatch_signal_first_sigterm_continues_loop_and_arms_first_term() {
    let mut rig = rig_for(config_of(&[], &[]));
    let action = rig.driver.dispatch_signal(SIGTERM, NOW);
    assert_eq!(after_signal(action, Flow::Continue), Flow::Continue);
    assert!(
        rig.driver.first_term.is_some(),
        "first SIGTERM arms first_term, by which mutating verbs are refused",
    );
    assert!(rig.actuator_side.shutdown_actuator_rx.try_recv().is_ok());
    assert!(rig.actuator_side.hard_shutdown_actuator_rx.try_recv().is_err());
}

#[test]
fn first_sigint_does_not_close_tick_loop() {
    let mut rig = rig_for(config_of(&[], &[]));
    let action = rig.driver.dispatch_signal(SIGINT, NOW);
    let flow = after_signal(action, Flow::Continue);
    assert_eq!(flow, Flow::Continue);
    assert!(rig.driver.first_term.is_some(), "first SIGINT arms first_term");
    assert_eq!(
        tick_outcome(false, flow),
        TickOutcome::Continue,
        "post-SIGINT tick continues — the actuator-gone signal has not landed",
    );
}

#[test]
fn a_second_request_to_end_within_the_window_is_hard() {
    let (mut io, side) = ActuatorIO::pair();
    let at = |nanos: u64| MonoTime { nanos };
    let mut first_term: Option<MonoTime> = None;
    let one = dispatch_signal_inner(SIGINT, at(10), &mut first_term, &mut io, 100);
    assert_eq!(one, SignalAction::Shutdown);
    assert!(side.hard_shutdown_actuator_rx.try_recv().is_err(), "the first is not hard");
    let two = dispatch_signal_inner(SIGTERM, at(109), &mut first_term, &mut io, 100);
    assert_eq!(two, SignalAction::HardExit);
    assert_eq!(after_signal(two, Flow::Continue), Flow::Break);
    assert_eq!(first_term, Some(at(10)));
    assert!(side.hard_shutdown_actuator_rx.try_recv().is_ok());
    assert!(side.hard_shutdown_actuator_rx.try_recv().is_err(), "one pulse and no more");
    assert!(side.shutdown_actuator_rx.try_recv().is_ok());
    assert!(side.shutdown_actuator_rx.try_recv().is_err(), "one pulse and no more");
    assert_eq!(HARD_EXIT_CODE, 130);
    let late = dispatch_signal_inner(SIGTERM, at(110), &mut first_term, &mut io, 100);
    assert_eq!(late, SignalAction::Shutdown);
    assert_eq!(first_term, Some(at(110)));
    assert!(side.shutdown_actuator_rx.try_recv().is_ok());
    assert!(side.effects_rx.try_recv().is_err());
}

#[test]
fn a_pulse_that_finds_one_waiting_is_the_same_pulse() {
    let (mut io, side) = ActuatorIO::pair();
    let mut first_term: Option<MonoTime> = None;
    for nanos in [0, 100, 200] {
        let now = MonoTime { nanos };
        let action = dispatch_signal_inner(SIGTERM, now, &mut first_term, &mut io, 100);
        assert_eq!(action, SignalAction::Shutdown);
    }
    assert!(side.shutdown_actuator_rx.try_recv().is_ok());
    assert!(side.shutdown_actuator_rx.try_recv().is_err());
}

#[test]
fn other_signals_change_nothing() {
    let mut rig = rig_for(config_of(&[], &[]));
    let action = rig.driver.dispatch_signal(SIGHUP, NOW);
    assert_eq!(action, SignalAction::Reload);
    assert_eq!(after_signal(action, Flow::Break), Flow::Break);
    assert_eq!(after_signal(action, Flow::Continue), Flow::Continue);
    assert_eq!(rig.driver.dispatch_signal(SIGUSR1, NOW), SignalAction::Ignore);
    assert!(rig.driver.first_term.is_none());
    assert!(rig.actuator_side.shutdown_actuator_rx.try_recv().is_err());
    assert!(rig.actuator_side.hard_shutdown_actuator_rx.try_recv().is_err());
}

#[test]
fn a_signal_without_an_actuator_still_counts() {
    let (mut io, side) = ActuatorIO::pair();
    drop(side);
    let mut first_term: Option<MonoTime> = None;
    let action = dispatch_signal_inner(SIGTERM, NOW, &mut first_term, &mut io, WINDOW);
    assert_eq!(action, SignalAction::Shutdown);
    assert_eq!(first_term, Some(NOW));
}

#[test]
fn ipc_reload_refused_mid_shutdown_with_shutting_down_code() {
    let mut rig = rig_for(config_of(&[], &[]));
    rig.driver.dispatch_signal(SIGINT, NOW);
    assert!(rig.driver.first_term.is_some());
    let client = rig.connect();
    let (code, error) = refusal(rig.round_trip(client, WireRequest::Reload));
    assert_eq!(code, WireErrorCode::ShuttingDown);
    assert!(
        error.contains("shutting down"),
        "error carries the shutdown detail; got {error:?}",
    );
}

#[test]
fn ipc_disable_and_enable_refused_mid_shutdown_with_shutting_down_code() {
    let mut rig = rig_for(one_watch());
    rig.run_initial_attach();
    assert!(rig.attached("build"));
    rig.driver.dispatch_signal(SIGINT, NOW);
    assert!(rig.driver.first_term.is_some());

    let client = rig.connect();
    let (code, error) =
        refusal(rig.round_trip(client, WireRequest::Disable { name: named("build") }));
    assert_eq!(code, WireErrorCode::ShuttingDown);
    assert!(
        error.contains("shutting down"),
        "Disable refusal carries the shutdown detail; got {error:?}",
    );
    assert!(rig.attached("build"), "Disable refused without touching engine state");
    assert!(
        rig.driver.disabled_runtime.is_empty(),
        "Disable refused without recording an override",
    );

    let (code, error) =
        refusal(rig.round_trip(client, WireRequest::Enable { name: named("build") }));
    assert_eq!(code, WireErrorCode::ShuttingDown);
    assert!(
        error.contains("shutting down"),
        "Enable refusal carries the shutdown detail; got {error:?}",
    );

    let absorb = WireRequest::Absorb { name: named("build"), duration_ms: None };
    assert_eq!(refusal(rig.round_trip(client, absorb)).0, WireErrorCode::ShuttingDown);
}

#[test]
fn effect_complete_disconnect_with_wake_surfaces_tick_outcome_shutdown() {
    let (_prober_tx, prober_rx) = crossbeam::channel::unbounded::<u64>();
    let (effect_tx, effect_rx) = crossbeam::channel::unbounded::<u64>();
    let mut reactor = Reactor {
        prober_response_rx: Inbox::new(prober_rx),
        effect_complete_rx: Inbox::new(effect_rx),
    };
    drop(effect_tx);
    let mut tick: DrainedTick<(), (), u64> = DrainedTick::new();
    reactor.on_ready(&mut tick, TOKEN_WAKER, true, false);
    let outcome = tick_outcome(tick.actuator_gone, Flow::Continue);
    assert_eq!(
        outcome,
        TickOutcome::Shutdown,
        "actuator-gone via channel-disconnect resolves to Shutdown",
    );
    assert_eq!(after_tick(outcome), Some(ExitReason::Shutdown));
    assert_eq!(after_tick(TickOutcome::Continue), None);
    assert_eq!(tick_outcome(false, Flow::Break), TickOutcome::Shutdown);
}

#[test]
fn drain_accept_bound_and_rearm_drains_burst_across_ticks() {
    const N_CLIENTS: usize = 24;
    let mut rig = rig_for(config_of(&[], &[]));
    let mut waiting = N_CLIENTS;
    let mut refused = 0;
    let mut passes = 0;
    while waiting > 0 {
        passes += 1;
        let mut pass = AcceptPass::new();
        while pass.begin() {
            let event =
                if waiting > 0 { AcceptEvent::Accepted } else { AcceptEvent::WouldBlock };
            match rig.driver.ipc.on_accept(event) {
                AcceptStep::Admit { token } => {
                    waiting -= 1;
                    rig.driver.ipc.insert_conn(token);
                }
                AcceptStep::Refuse => {
                    waiting -= 1;
                    refused += 1;
                }
                AcceptStep::Again => {}
                AcceptStep::Done | AcceptStep::Fail => break,
            }
        }
    }
    assert_eq!(passes, 2, "sixteen accepts, then the rest");
    assert!(
        rig.driver.ipc.conn_count() <= MAX_IPC_CONNS,
        "conn count {} exceeds cap {}",
        rig.driver.ipc.conn_count(),
        MAX_IPC_CONNS,
    );
    assert!(rig.driver.ipc.conn_count() > 0, "no accepts landed");
    assert_eq!(refused, N_CLIENTS - MAX_IPC_CONNS);

    for token in TOKEN_CONN_BASE..TOKEN_CONN_BASE + MAX_IPC_CONNS {
        let mut lines = Vec::new();
        let outcome = rig.driver.ipc.read_conn_into_lines(token, b"", true, &mut lines);
        assert_eq!(outcome, Ok(ReadOutcome::PeerGone));
        rig.driver.finish_read(token, outcome);
    }
    assert_eq!(
        rig.driver.ipc.conn_count(),
        0,
        "all conns drained after client disconnect",
    );
}

#[test]
fn accept_goes_by_what_the_system_says() {
    let mut rig = rig_for(config_of(&[], &[]));
    assert_eq!(rig.driver.ipc.on_accept(AcceptEvent::WouldBlock), AcceptStep::Done);
    assert_eq!(rig.driver.ipc.on_accept(AcceptEvent::Interrupted), AcceptStep::Again);
    assert_eq!(rig.driver.ipc.on_accept(AcceptEvent::Failed), AcceptStep::Fail);
    assert_eq!(
        busy_line(),
        "{\"kind\":\"err\",\"code\":\"busy\",\"error\":\"max concurrent connections\"}\n",
    );
}

#[test]
fn tokens_are_never_used_twice() {
    let mut rig = rig_for(config_of(&[], &[]));
    let a = rig.connect();
    assert_eq!(a, TOKEN_CONN_BASE);
    rig.driver.ipc.terminate_conn(a);
    let b = rig.connect();
    assert_eq!(b, TOKEN_CONN_BASE + 1);
    assert!(rig.driver.ipc.conn_ref(a).is_none());
}

#[test]
fn arm_writable_interests_signature_returns_unit_not_io_result() {
    let mut rig = rig_for(config_of(&[], &[]));
    let _: () = rig.driver.ipc.arm_writable_interests(&[]);
}

#[test]
fn arm_writable_interests_per_conn_failure_terminates_only_failing_conn() {
    let mut rig = rig_for(config_of(&[], &[]));
    let token_a = rig.connect();
    let token_b = rig.connect();
    assert_eq!(rig.driver.ipc.conn_count(), 2, "both clients accepted");
    assert_eq!((token_a, token_b), (TOKEN_CONN_BASE, TOKEN_CONN_BASE + 1));
    assert!(rig.driver.ipc.writable_interests().is_empty());

    rig.driver.ipc.conn_mut(token_a).expect("A in map").write_queue.push_back(b'x');
    rig.driver.ipc.conn_mut(token_b).expect("B in map").write_queue.push_back(b'x');
    assert_eq!(rig.driver.ipc.writable_interests(), vec![token_a, token_b]);

    rig.driver.ipc.arm_writable_interests(&[token_a]);

    assert!(
        rig.driver.ipc.conn_ref(token_a).is_none(),
        "conn A terminated on rearm failure",
    );
    assert!(
        rig.driver.ipc.conn_ref(token_b).is_some(),
        "conn B unaffected by A's failure",
    );
    assert_eq!(rig.driver.ipc.conn_count(), 1, "only conn A removed");
}

#[test]
fn ipc_subscribe_allowed_mid_shutdown() {
    let mut rig = rig_for(one_watch());
    rig.run_initial_attach();
    rig.driver.dispatch_signal(SIGINT, NOW);
    assert!(rig.driver.first_term.is_some());
    let client = rig.connect();
    match rig.round_trip(client, WireRequest::Subscribe { name: None }) {
        ResponsePayload::SubscribeAck { sub: None } => {}
        other => panic!("expected SubscribeAck(None) mid-shutdown, got {other:?}"),
    }
    assert!(matches!(rig.ask(client, WireRequest::List), VerbPlan::Answer(_)));
}

#[test]
fn run_initial_attach_attaches_static_sub_and_emits_watch_op() {
    let mut rig = rig_for(one_watch());
    let inputs = rig.driver.initial_attach();
    assert_eq!(inputs.len(), 1);
    assert!(matches!(inputs[0], Input::AttachSub { watch: 0 }));
    rig.run_initial_attach();
    assert!(rig.attached("build"), "static Sub 'build' attached");
}

#[test]
fn run_initial_attach_attaches_static_only_config() {
    let mut rig = rig_for(one_watch());
    rig.run_initial_attach();
    assert!(rig.attached("build"), "static Sub 'build' attached");
    assert!(rig.promoters.is_empty());
}

#[test]
fn run_initial_attach_registers_promoter_for_dynamic_watch() {
    let mut rig = rig_for(config_of(&[], &[("logs", true)]));
    rig.run_initial_attach();
    assert!(rig.view.subs.is_empty());
    assert_eq!(rig.promoters, vec!["logs"], "Promoter 'logs' registered");
}

#[test]
fn run_initial_attach_handles_mixed_static_and_dynamic() {
    let mut rig = rig_for(config_of(&[("build", true)], &[("logs", true)]));
    rig.run_initial_attach();
    assert!(rig.attached("build"));
    assert_eq!(rig.promoters, vec!["logs"]);
}

#[test]
fn run_initial_attach_skips_disabled_entries() {
    let mut rig = rig_for(config_of(
        &[("build", true), ("build_off", false)],
        &[("logs", true), ("logs_off", false)],
    ));
    rig.run_initial_attach();
    assert!(rig.attached("build"));
    assert!(!rig.attached("build_off"));
    assert_eq!(rig.view.subs.len(), 1);
    assert_eq!(rig.promoters, vec!["logs"]);
}

#[test]
fn initial_attach_goes_by_the_order_of_the_file() {
    let rig = rig_for(config_of(
        &[("a", true), ("off", false), ("b", true)],
        &[("p", true), ("q", true)],
    ));
    let inputs = rig.driver.initial_attach();
    let places: Vec<(bool, usize)> = inputs
        .iter()
        .map(|i| match i {
            Input::AttachSub { watch } => (false, *watch),
            Input::AttachPromoter { promoter } => (true, *promoter),
            other => panic!("nothing else is attached: {other:?}"),
        })
        .collect();
    assert_eq!(places, vec![(false, 0), (false, 2), (true, 0), (true, 1)]);
}

#[test]
fn a_file_that_changed_during_the_start_is_reloaded_before_the_loop() {
    let rig = rig_for(config_of(&[("foo", true)], &[]));
    assert_eq!(rig.driver.after_attach(Flow::Continue, Some(dummy_meta())), BootStep::Run);
    assert_eq!(rig.driver.after_attach(Flow::Continue, Some(meta(1))), BootStep::Reload);
    assert_eq!(rig.driver.after_attach(Flow::Continue, None), BootStep::Run);
    assert_eq!(rig.driver.after_attach(Flow::Break, Some(meta(1))), BootStep::Stop);
    assert_eq!(after_boot_reload(Flow::Continue), BootStep::Run);
    assert_eq!(after_boot_reload(Flow::Break), BootStep::Stop);
}

#[test]
fn startup_drift_after_initial_attach_does_not_double_attach() {
    let mut rig = rig_for(config_of(&[("foo", true)], &[]));
    rig.run_initial_attach();
    assert!(rig.attached("foo"));
    assert!(!rig.attached("bar"));
    assert_eq!(rig.view.subs.len(), 1);
    assert!(rig.promoters.is_empty());

    assert_eq!(rig.driver.after_attach(Flow::Continue, Some(meta(2))), BootStep::Reload);
    let mut diff = no_change();
    diff.added.push(change("bar", 1));
    diff.promoters.added.push(0);
    let parsed = Parsed {
        config: config_of(&[("foo", true), ("bar", true)], &[("logs", true)]),
        meta: meta(2),
        diff,
        log: Some(warn_log()),
    };
    let flow = rig.reload(ReloadTrigger::Startup, Some(parsed));
    assert_eq!(after_boot_reload(flow), BootStep::Run);

    assert!(rig.attached("foo"));
    assert!(rig.attached("bar"));
    assert_eq!(rig.view.subs.len(), 2, "foo + bar each attached exactly once");
    assert_eq!(rig.promoters, vec![named("logs")]);
    let lr = rig.driver.driver_state.last_reload.expect("the reload counts");
    assert_eq!(lr.via, ReloadTrigger::Startup);
}

#[test]
fn a_poll_waits_for_the_next_moment_that_matters() {
    let mut rig = rig_for(config_of(&[], &[]));
    let later = |nanos: u64| Some(MonoTime { nanos: NOW.nanos + nanos });
    assert_eq!(rig.driver.block_timeout(NOW, None), None);
    assert_eq!(rig.driver.block_timeout(NOW, later(30)), Some(30));
    rig.driver.arm_config_settle(true, NOW, 20);
    assert_eq!(rig.driver.block_timeout(NOW, None), Some(20));
    assert_eq!(rig.driver.block_timeout(NOW, later(30)), Some(20));
    assert_eq!(rig.driver.block_timeout(NOW, later(10)), Some(10));
    assert_eq!(rig.driver.block_timeout(MonoTime { nanos: NOW.nanos + 99 }, None), Some(0));
    rig.driver.deferred_inputs.push_back(Input::DetachSub(SubId(1)));
    assert_eq!(rig.driver.block_timeout(NOW, later(10)), Some(0));
}

#[test]
fn reload_with_invalid_path_logs_and_keeps_config() {
    let mut rig = rig_for(config_of(&[("a", true)], &[]));
    let before = names_in(&rig.driver.loader.current_config);
    let step = rig.driver.dispatch_reload(ReloadTrigger::Sighup, WALL, None, None);
    assert!(matches!(step, ReloadStep::Keep));
    assert_eq!(names_in(&rig.driver.loader.current_config), before);
    assert_eq!(rig.driver.loader.config_meta, dummy_meta());
}

#[test]
fn reload_with_no_changes_rotates_config_silently() {
    let mut rig = rig_for(one_watch());
    let step = rig.driver.dispatch_reload(
        ReloadTrigger::Sighup,
        WALL,
        Some(unchanged(&one_watch())),
        None,
    );
    match step {
        ReloadStep::Apply { set_level, restart_to_move_log, diff, pending } => {
            assert!(set_level.is_none());
            assert!(!restart_to_move_log);
            assert!(diff.is_none());
            let flow = rig.driver.finish_reload(pending, true, Flow::Continue);
            assert_eq!(flow, Flow::Continue);
        }
        ReloadStep::Keep => panic!("a parsed file is applied"),
    }
    assert_eq!(names_in(&rig.driver.loader.current_config), names_in(&one_watch()));
}

#[test]
fn reload_rotates_config_meta_on_apply_branch() {
    let mut rig = rig_for(config_of(&[("a", true)], &[]));
    rig.run_initial_attach();
    assert_eq!(rig.driver.loader.config_meta, dummy_meta());
    let expected_meta = meta(3);
    let mut diff = no_change();
    diff.added.push(change("b", 1));
    let step = rig.driver.dispatch_reload(
        ReloadTrigger::Sighup,
        WALL,
        Some(Parsed {
            config: config_of(&[("a", true), ("b", true)], &[]),
            meta: expected_meta,
            diff,
            log: Some(warn_log()),
        }),
        None,
    );
    match step {
        ReloadStep::Apply { diff: Some(diff), pending, .. } => {
            assert_eq!(diff.added[0].name, "b");
            assert_eq!(
                rig.driver.loader.config_meta,
                dummy_meta(),
                "nothing is taken on before the engine has the change",
            );
            rig.attach("b", None);
            rig.driver.finish_reload(pending, true, Flow::Continue);
        }
        other => panic!("expected a change for the engine, got {other:?}"),
    }
    assert_eq!(rig.driver.loader.config_meta, expected_meta);
    assert!(rig.attached("b"));
}

#[test]
fn reload_rotates_config_meta_on_empty_diff_branch() {
    let mut rig = rig_for(one_watch());
    rig.run_initial_attach();
    let sid_before = rig.view.find_by_name("build").expect("attached").id;
    let expected_meta = meta(7);
    assert_ne!(expected_meta, dummy_meta());
    rig.reload(ReloadTrigger::Sighup, Some(unchanged(&one_watch())));
    assert_eq!(rig.driver.loader.config_meta, expected_meta);
    assert_eq!(names_in(&rig.driver.loader.current_config), names_in(&one_watch()));
    let sid_after = rig.view.find_by_name("build").expect("still attached").id;
    assert_eq!(sid_before, sid_after);
}

#[test]
fn reload_parse_failure_rotates_meta_when_post_fail_lstat_succeeds() {
    let mut rig = rig_for(config_of(&[("a", true)], &[]));
    rig.driver.loader.rotate_meta_only(meta(1));
    let step = rig.driver.dispatch_reload(ReloadTrigger::Sighup, WALL, None, Some(meta(2)));
    assert!(matches!(step, ReloadStep::Keep));
    assert_eq!(rig.driver.loader.config_meta, meta(2));
    assert_eq!(names_in(&rig.driver.loader.current_config), vec![(named("a"), true)]);
}

#[test]
fn reload_with_destination_mismatch_preserves_running_log() {
    let mut rig = rig_for(config_of(&[], &[]));
    rig.driver.loader.current_log = LogConfig {
        level: LogLevel::Info,
        destination: LogDestination::File,
        path: Some("/tmp/specter.log".to_string()),
    };
    let step = rig.driver.dispatch_reload(
        ReloadTrigger::Sighup,
        WALL,
        Some(Parsed {
            config: config_of(&[], &[]),
            meta: meta(2),
            diff: no_change(),
            log: Some(LogConfig {
                level: LogLevel::Info,
                destination: LogDestination::Stderr,
                path: None,
            }),
        }),
        None,
    );
    match step {
        ReloadStep::Apply { set_level: None, restart_to_move_log: true, diff: None, pending } => {
            rig.driver.finish_reload(pending, true, Flow::Continue);
        }
        other => panic!("expected a word about the log, got {other:?}"),
    }
    assert_eq!(rig.driver.loader.current_log.destination, LogDestination::File);
    assert_eq!(rig.driver.loader.current_log.path.as_deref(), Some("/tmp/specter.log"));
}

#[test]
fn a_log_level_changes_only_where_it_could_be_set() {
    let wanted = || {
        Some(LogConfig { level: LogLevel::Debug, destination: LogDestination::Stderr, path: None })
    };
    let mut rig = rig_for(config_of(&[], &[]));
    assert_eq!(rig.driver.apply_log_reload(&wanted(), false).level, LogLevel::Warn);
    assert_eq!(rig.driver.apply_log_reload(&wanted(), true).level, LogLevel::Debug);
    assert_eq!(rig.driver.apply_log_reload(&None, true).level, LogLevel::Warn);
    for (level_set, level) in [(false, LogLevel::Warn), (true, LogLevel::Debug)] {
        let step = rig.driver.dispatch_reload(
            ReloadTrigger::Ipc,
            WALL,
            Some(Parsed { log: wanted(), ..unchanged(&config_of(&[], &[])) }),
            None,
        );
        match step {
            ReloadStep::Apply {
                set_level: Some(LogLevel::Debug),
                restart_to_move_log: false,
                diff: None,
                pending,
            } => rig.driver.finish_reload(pending, level_set, Flow::Continue),
            other => panic!("expected a level to set, got {other:?}"),
        };
        assert_eq!(rig.driver.loader.current_log.level, level);
    }
}

#[test]
fn a_reload_that_ends_the_driver_is_still_taken_on() {
    let mut rig = rig_for(config_of(&[("a", true)], &[]));
    let parsed = Parsed { meta: meta(4), log: None, ..unchanged(&one_watch()) };
    match rig.driver.dispatch_reload(ReloadTrigger::Sighup, WALL, Some(parsed), None) {
        ReloadStep::Apply { pending, .. } => {
            assert_eq!(rig.driver.finish_reload(pending, true, Flow::Break), Flow::Break);
        }
        ReloadStep::Keep => panic!("a parsed file is applied"),
    }
    assert_eq!(rig.driver.loader.config_meta, meta(4));
    assert_eq!(names_in(&rig.driver.loader.current_config), names_in(&one_watch()));
}

#[test]
fn apply_config_settle_expiry_no_op_when_unarmed() {
    let mut rig = rig_for(config_of(&[], &[]));
    assert_eq!(rig.driver.apply_config_settle_expiry(NOW), SettleStep::Wait);
    assert_eq!(rig.driver.config_settle_until, None);
    assert_eq!(rig.driver.loader.config_meta, dummy_meta());
}

#[test]
fn apply_config_settle_expiry_no_op_within_window() {
    let mut rig = rig_for(config_of(&[], &[]));
    rig.driver.arm_config_settle(true, NOW, 50_000_000);
    let deadline = MonoTime { nanos: NOW.nanos + 50_000_000 };
    assert_eq!(rig.driver.config_settle_until, Some(deadline));
    assert_eq!(rig.driver.apply_config_settle_expiry(NOW), SettleStep::Wait);
    assert_eq!(rig.driver.config_settle_until, Some(deadline));
    rig.driver.arm_config_settle(false, MonoTime { nanos: NOW.nanos + 1 }, 50_000_000);
    assert_eq!(rig.driver.config_settle_until, Some(deadline));
}

#[test]
fn apply_config_settle_expiry_fires_at_exact_deadline() {
    let mut rig = rig_for(config_of(&[], &[]));
    rig.driver.loader.rotate_meta_only(meta(5));
    rig.driver.config_settle_until = Some(NOW);
    assert_eq!(rig.driver.apply_config_settle_expiry(NOW), SettleStep::CheckFile);
    assert_eq!(rig.driver.config_settle_until, None);
    assert!(!rig.driver.config_meta_changed(Some(meta(5))));
    assert_eq!(rig.driver.loader.config_meta, meta(5));
}

#[test]
fn apply_config_settle_expiry_skips_reload_on_unchanged_meta() {
    let mut rig = rig_for(one_watch());
    let real_meta = meta(7);
    rig.driver.loader.rotate_meta_only(real_meta);
    rig.run_initial_attach();
    let sid_snapshot = rig.view.find_by_name("build").expect("attached").id;
    rig.driver.config_settle_until = Some(NOW);
    let later = MonoTime { nanos: NOW.nanos + 1_000_000 };
    rig.settle(later, Some(real_meta), Some(unchanged(&one_watch())));
    assert_eq!(rig.driver.config_settle_until, None);
    assert_eq!(rig.driver.loader.config_meta, real_meta);
    assert_eq!(names_in(&rig.driver.loader.current_config), names_in(&one_watch()));
    let sid_after = rig.view.find_by_name("build").expect("still attached").id;
    assert_eq!(sid_snapshot, sid_after);
    assert_eq!(rig.driver.driver_state.reload_count, 0, "no reload");
}

/// The file of a second version, which adds the watch `b`.
fn second_version(found: FileMeta) -> Parsed {
    let mut diff = no_change();
    diff.added.push(change("b", 1));
    Parsed {
        config: config_of(&[("a", true), ("b", true)], &[]),
        meta: found,
        diff,
        log: Some(warn_log()),
    }
}

#[test]
fn apply_config_settle_expiry_triggers_reload_on_meta_drift() {
    let mut rig = rig_for(config_of(&[("a", true)], &[]));
    let v1_meta = meta(1);
    rig.driver.loader.rotate_meta_only(v1_meta);
    rig.run_initial_attach();
    assert!(rig.attached("a"));
    assert!(!rig.attached("b"));
    let v2_lstat = meta(2);
    assert_ne!(v1_meta, v2_lstat);
    rig.driver.config_settle_until = Some(NOW);
    let later = MonoTime { nanos: NOW.nanos + 1_000_000 };
    rig.settle(later, Some(v2_lstat), Some(second_version(v2_lstat)));
    assert_eq!(rig.driver.config_settle_until, None);
    assert_eq!(rig.driver.loader.config_meta, v2_lstat);
    assert!(rig.attached("a"));
    assert!(rig.attached("b"));
    assert_eq!(rig.driver.loader.current_config.watches.len(), 2);
}

#[test]
fn dispatch_reload_via_auto_reload_bumps_counters_with_auto_reload_trigger() {
    let mut rig = rig_for(config_of(&[("a", true)], &[]));
    rig.driver.loader.rotate_meta_only(meta(1));
    rig.run_initial_attach();
    assert_eq!(rig.driver.driver_state.reload_count, 0);
    assert!(rig.driver.driver_state.last_reload.is_none());
    rig.driver.config_settle_until = Some(NOW);
    let later = MonoTime { nanos: NOW.nanos + 1_000_000 };
    rig.settle(later, Some(meta(2)), Some(second_version(meta(2))));
    assert_eq!(rig.driver.driver_state.reload_count, 1);
    let lr = rig.driver.driver_state.last_reload.expect("record_reload populated the pair");
    assert_eq!(lr.via, ReloadTrigger::AutoReload);
}

#[test]
fn apply_config_settle_expiry_goes_off_once() {
    let mut rig = rig_for(config_of(&[], &[]));
    rig.driver.config_settle_until = Some(NOW);
    assert_eq!(rig.driver.apply_config_settle_expiry(NOW), SettleStep::CheckFile);
    assert_eq!(rig.driver.apply_config_settle_expiry(NOW), SettleStep::Wait);
}

#[test]
fn apply_config_settle_expiry_treats_missing_path_as_changed() {
    let mut rig = rig_for(config_of(&[], &[]));
    let pre_meta = rig.driver.loader.config_meta;
    rig.driver.config_settle_until = Some(NOW);
    let later = MonoTime { nanos: NOW.nanos + 1_000_000 };
    assert_eq!(rig.driver.apply_config_settle_expiry(later), SettleStep::CheckFile);
    assert!(rig.driver.config_meta_changed(None));
    assert!(rig.driver.config_meta_changed(Some(meta(9))));
    let step = rig.driver.dispatch_reload(ReloadTrigger::AutoReload, WALL, None, None);
    assert!(matches!(step, ReloadStep::Keep));
    assert_eq!(rig.driver.config_settle_until, None);
    assert_eq!(rig.driver.loader.config_meta, pre_meta);
}

#[test]
fn dispatch_reload_via_sighup_bumps_counters_with_sighup_trigger() {
    let mut rig = rig_for(config_of(&[("a", true)], &[]));
    assert_eq!(rig.driver.driver_state.reload_count, 0);
    assert!(rig.driver.driver_state.last_reload.is_none());
    rig.driver.config_settle_until = Some(NOW);
    let at = WallTime { nanos: WALL.nanos + 1 };
    rig.driver.dispatch_reload(
        ReloadTrigger::Sighup,
        at,
        Some(unchanged(&config_of(&[("a", true)], &[]))),
        None,
    );
    assert_eq!(rig.driver.driver_state.reload_count, 1);
    let lr = rig.driver.driver_state.last_reload.expect("record_reload populated the pair");
    assert_eq!(lr.via, ReloadTrigger::Sighup);
    assert_eq!(lr.at, at);
    assert_eq!(rig.driver.config_settle_until, None, "a reload supersedes a settle deadline");
}

#[test]
fn dispatch_reload_does_not_bump_counters_on_parse_fail() {
    let mut rig = rig_for(config_of(&[], &[]));
    rig.driver.dispatch_reload(ReloadTrigger::Sighup, WALL, None, Some(meta(1)));
    assert_eq!(rig.driver.driver_state.reload_count, 0);
    assert!(rig.driver.driver_state.last_reload.is_none());
}

#[test]
fn forward_dispatches_cancel_before_submit_on_effects_tx() {
    let mut rig = rig_for(config_of(&[], &[]));
    let pid_a = ProfileId(0x10);
    let pid_b = ProfileId(0x20);
    let done =
        rig.driver.forward(Vec::new(), &[pid_a, pid_b], &[Effect { ticket: 1 }], &[], &[], WALL);
    assert_eq!(done.orders.flow, Flow::Continue);
    assert!(done.orders.dropped.is_empty());
    let mut received: Vec<EffectOp> = Vec::new();
    while let Ok(op) = rig.actuator_side.effects_rx.try_recv() {
        received.push(op);
    }
    assert_eq!(received.len(), 3, "two cancels + one submit reached the wire");
    assert_eq!(received[0], EffectOp::Cancel { profile: pid_a });
    assert_eq!(received[1], EffectOp::Cancel { profile: pid_b });
    assert!(
        matches!(received[2], EffectOp::Submit(_)),
        "submit dispatches after all cancels; got {:?}",
        received[2],
    );
}

#[test]
fn forward_drops_orders_for_want_of_room_and_goes_on() {
    let mut rig = rig_for(config_of(&[], &[]));
    let many: Vec<Effect> = (0..1025).map(|ticket| Effect { ticket }).collect();
    let done = rig.driver.forward(
        Vec::new(),
        &[],
        &many,
        &[Diagnostic::StaleTimer { id: 3 }],
        &[],
        WALL,
    );
    assert_eq!(done.orders.flow, Flow::Continue);
    assert_eq!(done.orders.dropped, vec![EffectOp::Submit(Effect { ticket: 1024 })]);
    assert_eq!(done.orders.verdicts.len(), 1025);
    assert!(done.orders.verdicts[..1024].iter().all(|v| *v == Verdict::Sent));
    assert_eq!(done.orders.verdicts[1024], Verdict::Full);
    assert_eq!(done.records.len(), 1);
}

#[test]
fn forward_ends_where_the_actuator_is_gone() {
    let Rig { mut driver, actuator_side, .. } = rig_for(config_of(&[], &[]));
    drop(actuator_side);
    let done = driver.forward(
        Vec::new(),
        &[ProfileId(1), ProfileId(2)],
        &[],
        &[Diagnostic::StaleTimer { id: 3 }],
        &[],
        WALL,
    );
    assert_eq!(done.orders.flow, Flow::Break);
    assert_eq!(done.orders.verdicts, vec![Verdict::Disconnected]);
    assert!(done.records.is_empty());
}

#[test]
fn watch_op_rejection_queues_deferred_input_and_replays_next_tick() {
    let mut rig = rig_for(one_watch());
    let failure = SensorFailure { text: "Pressure { errno: 24 }".to_string(), errno: Some(24) };
    rig.driver.forward(
        vec![Rejection { resource: ResourceId(1), failure }],
        &[],
        &[],
        &[],
        &[],
        WALL,
    );
    assert_eq!(rig.driver.deferred_inputs.len(), 1, "rejected watch op queued for replay");
    match &rig.driver.deferred_inputs[0] {
        Input::WatchOpRejected { failure, .. } => assert_eq!(failure.errno, Some(24)),
        other => panic!("expected Input::WatchOpRejected, got {other:?}"),
    }
    let replayed = rig.driver.replay_deferred_inputs();
    assert_eq!(replayed.len(), 1);
    assert!(
        rig.driver.deferred_inputs.is_empty(),
        "deferred input consumed by replay_deferred_inputs",
    );
}

#[test]
fn compute_watch_diff_filters_disabled_runtime_from_all_four_buckets() {
    let mut rig = rig_for(config_of(&[], &[]));
    let diff = WatchDiff {
        added: vec![change("to_be_added", 2)],
        removed: vec![named("to_be_removed")],
        modified_identity: vec![change("to_be_modified_identity", 0)],
        modified_params: vec![change("to_be_modified_params", 1)],
        promoters: PromoterDiff { added: vec![4], removed: Vec::new(), modified: Vec::new() },
    };
    for name in
        ["to_be_added", "to_be_removed", "to_be_modified_identity", "to_be_modified_params"]
    {
        rig.driver.disabled_runtime.insert(named(name));
    }
    let filtered = rig.driver.compute_watch_diff(diff);
    assert!(filtered.added.is_empty());
    assert!(filtered.removed.is_empty());
    assert!(filtered.modified_identity.is_empty());
    assert!(filtered.modified_params.is_empty());
    assert_eq!(filtered.promoters.added, vec![4]);
    assert!(!filtered.is_empty());
}

#[test]
fn compute_watch_diff_with_empty_disabled_runtime_passes_diff_through() {
    let rig = rig_for(config_of(&[], &[]));
    let mut diff = no_change();
    diff.added.push(change("added", 0));
    let diff = rig.driver.compute_watch_diff(diff);
    assert_eq!(diff.added.len(), 1);
    assert_eq!(diff.added[0].name, "added");
}

#[test]
fn compute_watch_diff_keeps_the_others_in_order() {
    let mut rig = rig_for(config_of(&[], &[]));
    rig.driver.disabled_runtime.insert(named("b"));
    let mut diff = no_change();
    diff.removed = vec![named("a"), named("b"), named("c"), named("b"), named("d")];
    assert_eq!(rig.driver.compute_watch_diff(diff).removed, vec!["a", "c", "d"]);
}

#[test]
fn prune_disabled_runtime_retains_toml_entries_drops_removed_names() {
    let mut rig =
        rig_for(config_of(&[("kept_active", true), ("kept_toml_disabled", false)], &[]));
    for name in ["kept_active", "kept_toml_disabled", "gone_from_toml"] {
        rig.driver.disabled_runtime.insert(named(name));
    }
    rig.driver.prune_disabled_runtime_against_current_config();
    assert!(rig.driver.disabled_runtime.contains("kept_active"));
    assert!(rig.driver.disabled_runtime.contains("kept_toml_disabled"));
    assert!(!rig.driver.disabled_runtime.contains("gone_from_toml"));
    assert_eq!(rig.driver.disabled_runtime.len(), 2);
}

#[test]
fn dispatch_reload_runs_prune_against_post_rotation_config() {
    let mut rig = rig_for(config_of(&[("doomed", true)], &[]));
    rig.driver.disabled_runtime.insert(named("doomed"));
    let mut diff = no_change();
    diff.removed.push(named("doomed"));
    let parsed = Parsed { config: config_of(&[], &[]), meta: meta(1), diff, log: None };
    match rig.driver.dispatch_reload(ReloadTrigger::Sighup, WALL, Some(parsed), None) {
        ReloadStep::Apply { diff: None, pending, .. } => {
            rig.driver.finish_reload(pending, true, Flow::Continue);
        }
        other => panic!("expected nothing for the engine, got {other:?}"),
    }
    assert!(rig.driver.disabled_runtime.is_empty());
}

#[test]
fn ipc_status_replies_with_projection() {
    let mut rig = rig_for(config_of(&[], &[]));
    let client = rig.connect();
    match rig.round_trip(client, WireRequest::Status) {
        ResponsePayload::Status(status) => {
            assert_eq!(status.socket_path, "/tmp/specter-test.sock");
            assert_eq!(status.config_path, "/etc/specter.toml");
            assert_eq!(status.sub_total, 0);
        }
        other => panic!("expected Status, got {other:?}"),
    }
}

#[test]
fn ipc_subscribe_unfiltered_acks_and_registers_subscriber() {
    let mut rig = rig_for(config_of(&[], &[]));
    let client = rig.connect();
    match rig.round_trip(client, WireRequest::Subscribe { name: None }) {
        ResponsePayload::SubscribeAck { sub: None } => {}
        other => panic!("expected SubscribeAck(None), got {other:?}"),
    }
    assert_eq!(rig.driver.ipc.conn_count(), 1);
    assert!(rig.driver.ipc.has_any_subscriber());
}

#[test]
fn ipc_subscribe_unknown_name_errors_without_registering() {
    let mut rig = rig_for(config_of(&[], &[]));
    let client = rig.connect();
    let (code, error) =
        refusal(rig.round_trip(client, WireRequest::Subscribe { name: Some(named("nope")) }));
    assert_eq!(code, WireErrorCode::UnknownSub);
    assert!(
        error.contains("no watch named nope"),
        "error carries the resolution detail; got {error:?}",
    );
    assert_eq!(rig.driver.ipc.conn_count(), 1);
    assert!(!rig.driver.ipc.has_any_subscriber());
}

#[test]
fn ipc_subscribe_known_name_resolves_and_acks() {
    let mut rig = rig_for(one_watch());
    rig.run_initial_attach();
    let expected_sid = rig.view.find_by_name("build").expect("build attached").id;
    let client = rig.connect();
    match rig.round_trip(client, WireRequest::Subscribe { name: Some(named("build")) }) {
        ResponsePayload::SubscribeAck { sub: Some(sub) } => assert_eq!(sub, expected_sid),
        other => panic!("expected SubscribeAck(Some), got {other:?}"),
    }
    assert_eq!(rig.driver.ipc.conn_count(), 1);
}

#[test]
fn subscribe_twice_returns_err_already_subscribed() {
    let mut rig = rig_for(one_watch());
    rig.run_initial_attach();
    let token = rig.connect();
    let reply1 = rig.round_trip(token, WireRequest::Subscribe { name: None });
    assert!(
        matches!(reply1, ResponsePayload::SubscribeAck { sub: None }),
        "first Subscribe acks with sub=None; got {reply1:?}",
    );
    let fresh = ConnRole::Sub { filter: None, missed: MissedWindow::Closed };
    assert_eq!(
        rig.driver.ipc.conn_ref(token).expect("conn lives across the first round-trip").role,
        fresh,
        "post-first-Subscribe role is fresh Sub state",
    );
    let (code, error) =
        refusal(rig.round_trip(token, WireRequest::Subscribe { name: Some(named("build")) }));
    assert_eq!(code, WireErrorCode::AlreadySubscribed);
    assert!(
        error.contains("already in subscribe mode"),
        "error carries the precondition detail; got {error:?}",
    );
    assert_eq!(
        rig.driver.ipc.conn_ref(token).expect("conn still in map after refusal").role,
        fresh,
        "the first subscription's state survives",
    );
}

#[test]
fn subscribe_after_err_does_not_overwrite_prior_subscription() {
    let mut rig = rig_for(one_watch());
    rig.run_initial_attach();
    let token = rig.connect();
    rig.round_trip(token, WireRequest::Subscribe { name: None });
    let stamped_at = WallTime { nanos: 1_700_000_000_000_000_000 };
    let window = MissedWindow::Open { count: 7, since: stamped_at };
    match &mut rig.driver.ipc.conn_mut(token).expect("conn lives after Subscribe ack").role {
        ConnRole::Sub { missed, .. } => *missed = window,
        ConnRole::Reqs => panic!("expected Sub after first Subscribe"),
    }
    let reply = rig.round_trip(token, WireRequest::Subscribe { name: Some(named("build")) });
    assert_eq!(refusal(reply).0, WireErrorCode::AlreadySubscribed);
    match &rig.driver.ipc.conn_ref(token).expect("conn still in map after refusal").role {
        ConnRole::Sub { missed, .. } => {
            assert_eq!(*missed, window, "missed window preserved across refused Subscribe")
        }
        ConnRole::Reqs => panic!("conn unexpectedly fell back to Reqs"),
    }
}

#[test]
fn oversize_response_emits_response_too_big_then_flushes_then_terminates() {
    let mut rig = rig_for(config_of(&[], &[]));
    let token = rig.connect();
    assert_eq!(rig.driver.ipc.conn_count(), 1, "client accepted");

    let huge = encode_err_line(WireErrorCode::Busy, &"x".repeat(ACCEPT_CAP + 1));
    let outcome = rig.driver.ipc.enqueue_response(token, huge.as_bytes());
    assert_eq!(outcome, EnqueueOutcome::Refused, "oversize response is refused by capacity");
    assert_eq!(
        rig.driver.ipc.conn_count(),
        1,
        "conn lives — the Err line populates the reserve so the queue is not empty",
    );
    let conn = rig.driver.ipc.conn_ref(token).expect("conn lives");
    assert!(conn.close_after_flush, "close armed by the refusal");
    assert!(!conn.write_queue.is_empty(), "refusal line queued into the reserve");
    assert!(!rig.driver.ipc.try_terminate_if_idle(token));

    let sent = rig.flush(token);
    let reply: serde_json::Value = serde_json::from_slice(&sent).expect("one JSON line");
    assert_eq!(reply["kind"], "err");
    assert_eq!(
        reply["code"],
        "response_too_big",
        "structured cap-class signal precedes the close",
    );
    assert_eq!(
        reply["error"].as_str().expect("text"),
        format!(
            "response of {} bytes exceeds per-conn cap of {} bytes",
            huge.len(),
            ACCEPT_CAP,
        ),
    );
    assert_eq!(rig.driver.ipc.conn_count(), 0, "flushed, then terminated");
    assert!(rig.driver.ipc.conn_ref(token).is_none(), "conn removed from map");
}

#[test]
fn oversize_response_arms_close_then_flushes_then_terminates() {
    let mut rig = rig_for(config_of(&[], &[]));
    let token = rig.connect();
    let small = encode_ok_line();
    assert_eq!(
        rig.driver.ipc.enqueue_response(token, small.as_bytes()),
        EnqueueOutcome::Accepted,
    );
    let huge = encode_err_line(WireErrorCode::Busy, &"x".repeat(ACCEPT_CAP + 1));
    assert_eq!(
        rig.driver.ipc.enqueue_response(token, huge.as_bytes()),
        EnqueueOutcome::Refused,
    );
    assert_eq!(rig.driver.ipc.conn_count(), 1, "conn lives, queue non-empty");
    let conn = rig.driver.ipc.conn_ref(token).expect("conn lives");
    assert!(conn.close_after_flush, "armed");
    assert!(!conn.write_queue.is_empty(), "small response queued");
    let sent = rig.flush(token);
    assert!(sent.starts_with(b"{\"kind\":\"ok\"}\n{\"kind\":\"err\""));
    assert_eq!(rig.driver.ipc.conn_count(), 0, "flushed, then terminated");
}

#[test]
fn missed_marker_uses_first_dropped_at_when_flushed() {
    let mut rig = rig_for(one_watch());
    rig.run_initial_attach();
    let token = rig.connect();
    rig.round_trip(token, WireRequest::Subscribe { name: None });
    rig.flush(token);
    assert!(matches!(
        rig.driver.ipc.conn_ref(token).expect("conn lives post-Subscribe").role,
        ConnRole::Sub { .. },
    ));
    {
        let conn = rig.driver.ipc.conn_mut(token).expect("conn lives");
        let fill = ACCEPT_CAP - 10;
        conn.write_queue.extend(std::iter::repeat(b'x').take(fill));
    }
    let line = b"{\"diag\":\"sub_attached\",\"name\":\"build\"}\n";
    let at_drop = WallTime { nanos: 100_000_000_000 };
    rig.driver.ipc.dispatch_to_subscribers(line, at_drop, None);
    match &rig.driver.ipc.conn_ref(token).expect("conn lives").role {
        ConnRole::Sub { missed, .. } => {
            assert_eq!(*missed, MissedWindow::Open { count: 1, since: at_drop })
        }
        ConnRole::Reqs => panic!("expected Sub role"),
    }
    rig.driver.ipc.conn_mut(token).expect("conn lives").write_queue.clear();

    let at_flush = WallTime { nanos: 500_000_000_000 };
    rig.driver.ipc.dispatch_to_subscribers(line, at_flush, None);
    match &rig.driver.ipc.conn_ref(token).expect("conn lives").role {
        ConnRole::Sub { missed, .. } => {
            assert_eq!(*missed, MissedWindow::Closed, "window resets to Closed on the flush edge")
        }
        ConnRole::Reqs => panic!("expected Sub role"),
    }
    let queued = rig.queued(token);
    let lines: Vec<&[u8]> =
        queued.split(|&b| b == b'\n').filter(|l| !l.is_empty()).collect();
    assert_eq!(lines.len(), 2, "marker + diag");
    let marker_v: serde_json::Value =
        serde_json::from_slice(lines[0]).expect("marker is valid JSON");
    assert_eq!(marker_v["diag"], "_missed");
    assert_eq!(marker_v["count"], 1);
    let stamp = |secs: u64| {
        let time = std::time::SystemTime::UNIX_EPOCH + std::time::Duration::from_secs(secs);
        humantime::format_rfc3339_seconds(time).to_string()
    };
    assert_eq!(
        marker_v["at"].as_str().expect("at is a string"),
        stamp(100),
        "marker carries first-drop time",
    );
    assert_ne!(
        marker_v["at"].as_str().unwrap(),
        stamp(500),
        "marker MUST NOT carry flush-time",
    );
}

#[test]
fn ipc_reload_via_pipeline_records_ipc_trigger() {
    let mut rig = rig_for(config_of(&[], &[]));
    let client = rig.connect();
    let reply = rig.round_trip(client, WireRequest::Reload);
    assert!(matches!(reply, ResponsePayload::Done), "got {reply:?}");
    assert_eq!(rig.driver.driver_state.reload_count, 1);
    let lr = rig.driver.driver_state.last_reload.expect("IPC reload populated the pair");
    assert_eq!(lr.via, ReloadTrigger::Ipc);
}

#[test]
fn ipc_disable_static_sub_detaches_and_records_override() {
    let mut rig = rig_for(one_watch());
    rig.run_initial_attach();
    assert!(rig.attached("build"));
    let client = rig.connect();
    let reply = rig.round_trip(client, WireRequest::Disable { name: named("build") });
    assert!(matches!(reply, ResponsePayload::Done), "got {reply:?}");
    assert!(!rig.attached("build"));
    assert!(rig.driver.disabled_runtime.contains("build"));
}

#[test]
fn ipc_disable_unknown_name_returns_err() {
    let mut rig = rig_for(config_of(&[], &[]));
    let client = rig.connect();
    let (code, error) =
        refusal(rig.round_trip(client, WireRequest::Disable { name: named("ghost") }));
    assert_eq!(code, WireErrorCode::UnknownSub);
    assert!(error.contains("no watch named ghost"));
    assert!(rig.driver.disabled_runtime.is_empty());
}

#[test]
fn ipc_disable_unknown_dynamic_shape_name_returns_unknown_sub() {
    let mut rig = rig_for(config_of(&[], &[]));
    let client = rig.connect();
    let (code, error) =
        refusal(rig.round_trip(client, WireRequest::Disable { name: named("promoter@/tmp/x") }));
    assert_eq!(code, WireErrorCode::UnknownSub);
    assert!(error.contains("no watch named promoter@/tmp/x"));
    assert!(rig.driver.disabled_runtime.is_empty());
}

#[test]
fn ipc_disable_dynamic_sub_returns_dynamic_no_op() {
    let mut rig = rig_for(config_of(&[], &[]));
    let dynamic_name = "promoter@/tmp/dyn_anchor";
    rig.attach(dynamic_name, Some(MintSource::Promoter(PromoterId(0))));
    assert!(rig.attached(dynamic_name));
    let client = rig.connect();
    let (code, _) =
        refusal(rig.round_trip(client, WireRequest::Disable { name: named(dynamic_name) }));
    assert_eq!(code, WireErrorCode::DynamicSubNoOp);
    assert!(rig.driver.disabled_runtime.is_empty());
    assert!(rig.attached(dynamic_name));
}

#[test]
fn ipc_disable_already_disabled_returns_err() {
    let mut rig = rig_for(one_watch());
    rig.run_initial_attach();
    rig.driver.disabled_runtime.insert(named("build"));
    let client = rig.connect();
    let (code, error) =
        refusal(rig.round_trip(client, WireRequest::Disable { name: named("build") }));
    assert_eq!(code, WireErrorCode::NotDisabled);
    assert_eq!(error, "already disabled at runtime");
    assert!(rig.attached("build"));
}

#[test]
fn ipc_enable_clears_override_and_reattaches() {
    let mut rig = rig_for(one_watch());
    rig.run_initial_attach();
    let client_a = rig.connect();
    rig.round_trip(client_a, WireRequest::Disable { name: named("build") });
    assert!(!rig.attached("build"));
    assert_eq!(rig.driver.disabled_runtime.len(), 1);
    let client_b = rig.connect();
    let reply = rig.round_trip(client_b, WireRequest::Enable { name: named("build") });
    assert!(matches!(reply, ResponsePayload::Done), "got {reply:?}");
    assert!(rig.attached("build"));
    assert!(rig.driver.disabled_runtime.is_empty());
}

#[test]
fn ipc_enable_not_disabled_returns_err() {
    let mut rig = rig_for(config_of(&[], &[]));
    let client = rig.connect();
    let (code, _) =
        refusal(rig.round_trip(client, WireRequest::Enable { name: named("nothing") }));
    assert_eq!(code, WireErrorCode::NotDisabled);
}

#[test]
fn ipc_enable_toml_disabled_clears_override_returns_err() {
    let mut rig = rig_for(config_of(&[], &[]));
    rig.driver.disabled_runtime.insert(named("orphan"));
    let client = rig.connect();
    let (code, _) =
        refusal(rig.round_trip(client, WireRequest::Enable { name: named("orphan") }));
    assert_eq!(code, WireErrorCode::TomlDisabled);
    assert!(rig.driver.disabled_runtime.is_empty());
}

#[test]
fn ipc_absorb_arms_the_profile_of_a_watch() {
    let mut rig = rig_for(one_watch());
    rig.run_initial_attach();
    let client = rig.connect();
    let ask = |duration_ms| WireRequest::Absorb { name: named("build"), duration_ms };
    match rig.ask(client, ask(Some(1500))) {
        VerbPlan::Step(Input::ArmAbsorb { profile, duration_ms }) => {
            assert_eq!(profile, ProfileId(1));
            assert_eq!(duration_ms, Some(1500));
        }
        other => panic!("expected an input, got {other:?}"),
    }
    match rig.ask(client, ask(Some(u64::MAX))) {
        VerbPlan::Step(Input::ArmAbsorb { duration_ms, .. }) => {
            assert_eq!(duration_ms, Some(MAX_ABSORB_WINDOW_MS));
            assert_eq!(MAX_ABSORB_WINDOW_MS, 315_360_000_000);
        }
        other => panic!("expected an input, got {other:?}"),
    }
    assert!(matches!(
        rig.ask(client, ask(None)),
        VerbPlan::Step(Input::ArmAbsorb { duration_ms: None, .. }),
    ));
    let unknown = WireRequest::Absorb { name: named("ghost"), duration_ms: None };
    assert_eq!(refusal(rig.round_trip(client, unknown)).0, WireErrorCode::UnknownSub);
    rig.attach("t@/x", Some(MintSource::Template(SubId(1))));
    let minted = WireRequest::Absorb { name: named("t@/x"), duration_ms: None };
    assert_eq!(refusal(rig.round_trip(client, minted)).0, WireErrorCode::DynamicSubNoOp);
}

#[test]
fn ipc_lines_that_do_not_parse_are_refused_with_the_reason() {
    let mut rig = rig_for(config_of(&[], &[]));
    let client = rig.connect();
    let plan = rig.driver.handle_ipc_line(
        client,
        Err("expected value at line 1 column 1".to_string()),
        &rig.view,
        NOW,
    );
    match plan {
        VerbPlan::Answer(answer) => {
            let (code, error) = refusal(answer);
            assert_eq!(code, WireErrorCode::Malformed);
            assert_eq!(error, "json parse: expected value at line 1 column 1");
        }
        other => panic!("expected an answer, got {other:?}"),
    }
    assert_eq!(request_body(b"{}\n"), b"{}");
}

#[test]
fn ipc_show_and_list_answer() {
    let mut rig = rig_for(config_of(&[("build", true), ("off", false)], &[]));
    rig.run_initial_attach();
    let client = rig.connect();
    match rig.round_trip(client, WireRequest::List) {
        ResponsePayload::List(response) => {
            let names: Vec<&str> = response.rows.iter().map(|r| r.name.as_str()).collect();
            assert_eq!(names, vec!["build", "off"]);
        }
        other => panic!("expected List, got {other:?}"),
    }
    assert!(matches!(
        rig.round_trip(client, WireRequest::Show { name: named("build") }),
        ResponsePayload::Show(ShowResponse::Active(_)),
    ));
}

#[test]
fn subscribe_ack_precedes_diag_on_wire() {
    let mut rig = rig_for(one_watch());
    rig.run_initial_attach();
    let sid = rig.view.find_by_name("build").expect("attached").id;
    let token = rig.connect();
    rig.round_trip(token, WireRequest::Subscribe { name: None });
    let diag = Diagnostic::SubAttached { sub: sid, name: named("build"), source_promoter: None };
    let line = b"{\"diag\":\"sub_attached\"}\n".to_vec();
    let done = rig.driver.forward(Vec::new(), &[], &[], &[diag], &[line], WALL);
    assert_eq!(done.records.len(), 1);
    let sent = rig.flush(token);
    let mut lines = sent.split(|&b| b == b'\n');
    assert_eq!(lines.next(), Some(&b"{\"ack\":0}"[..]), "first wire line is the ack");
    let diag_v: serde_json::Value =
        serde_json::from_slice(lines.next().expect("second line")).expect("diag line parses");
    assert_eq!(
        diag_v.get("diag").and_then(|v| v.as_str()),
        Some("sub_attached"),
        "second wire line is the diag; got {diag_v:?}",
    );
}

#[test]
fn an_acknowledgement_that_does_not_fit_starts_no_stream() {
    let mut rig = rig_for(config_of(&[], &[]));
    let token = rig.connect();
    let outcome = rig.driver.commit_subscribe(token, None, &vec![b'x'; ACCEPT_CAP + 1]);
    assert_eq!(outcome, EnqueueOutcome::Refused);
    let conn = rig.driver.ipc.conn_ref(token).expect("conn lives");
    assert_eq!(conn.role, ConnRole::Reqs);
    assert!(conn.close_after_flush);
    assert_eq!(
        rig.driver.commit_subscribe(TOKEN_CONN_BASE + 9, None, b"x\n"),
        EnqueueOutcome::ConnGone,
    );
}

#[test]
fn requests_are_cut_at_line_feeds() {
    let mut rig = rig_for(config_of(&[], &[]));
    let token = rig.connect();
    let mut lines = Vec::new();
    let outcome = rig.driver.ipc.read_conn_into_lines(token, b"{\"a\":1}\n{\"b", false, &mut lines);
    assert_eq!(outcome, Ok(ReadOutcome::Continue));
    assert_eq!(lines, vec![b"{\"a\":1}\n".to_vec()]);
    let _ = rig.driver.ipc.read_conn_into_lines(token, b"\":2}\n", false, &mut lines);
    assert_eq!(lines[1], b"{\"b\":2}\n".to_vec());
    assert!(rig.driver.ipc.conn_ref(token).expect("lives").read_buf.is_empty());
    rig.driver.finish_read(token, Ok(ReadOutcome::Continue));
    assert_eq!(rig.driver.ipc.conn_count(), 1);
}

#[test]
fn a_line_beyond_the_bound_closes_the_connection() {
    let mut rig = rig_for(config_of(&[], &[]));
    let token = rig.connect();
    let mut lines = Vec::new();
    let long = vec![b'x'; MAX_LINE_BYTES + 1];
    let outcome = rig.driver.ipc.read_conn_into_lines(token, &long, false, &mut lines);
    assert!(lines.is_empty());
    assert!(rig.driver.ipc.conn_ref(token).expect("lives").close_after_flush);
    rig.driver.finish_read(token, outcome);
    assert_eq!(rig.driver.ipc.conn_count(), 0, "nothing queued, so it goes at once");
}

#[test]
fn a_connection_that_is_gone_is_told_so() {
    let mut rig = rig_for(config_of(&[], &[]));
    let token = TOKEN_CONN_BASE + 3;
    let mut lines = Vec::new();
    let outcome = rig.driver.ipc.read_conn_into_lines(token, b"x\n", false, &mut lines);
    assert_eq!(outcome, Err(NoSuchConn { token }));
    rig.driver.finish_read(token, outcome);
    assert_eq!(rig.driver.ipc.enqueue_response(token, b"x\n"), EnqueueOutcome::ConnGone);
    assert_eq!(rig.driver.ipc.after_drain(token), DrainVerdict::ConnGone);
    rig.driver.respond(token, b"x\n");
    assert_eq!(rig.driver.ipc.conn_count(), 0);
}

#[test]
fn writing_takes_bytes_off_the_front() {
    let mut rig = rig_for(config_of(&[], &[]));
    let token = rig.connect();
    rig.driver.respond(token, b"abcdef\n");
    assert_eq!(rig.driver.ipc.on_write(token, WriteEvent::Wrote(2)), WriteStep::Again);
    assert_eq!(rig.queued(token), b"cdef\n".to_vec());
    assert_eq!(rig.driver.ipc.on_write(token, WriteEvent::Interrupted), WriteStep::Again);
    assert_eq!(rig.driver.ipc.on_write(token, WriteEvent::WouldBlock), WriteStep::Stop);
    assert_eq!(rig.driver.ipc.after_drain(token), DrainVerdict::Continue);
    assert_eq!(rig.driver.ipc.on_write(token, WriteEvent::Failed), WriteStep::Terminate);
    assert_eq!(rig.driver.ipc.on_write(token, WriteEvent::Wrote(5)), WriteStep::Again);
    assert_eq!(rig.driver.ipc.after_drain(token), DrainVerdict::RearmReadable);
    assert_eq!(DrainVerdict::RearmReadable.conclude(false), DrainWritableOutcome::Terminate);
    assert_eq!(DrainVerdict::RearmReadable.conclude(true), DrainWritableOutcome::Continue);
}

#[test]
fn a_refusal_escapes_what_a_client_sent() {
    let line = encode_err_line(WireErrorCode::UnknownSub, "no watch named \"a\\b\"\n");
    assert_eq!(
        line,
        "{\"kind\":\"err\",\"code\":\"unknown_sub\",\"error\":\"no watch named \\\"a\\\\b\\\"\\n\"}\n",
    );
}

#[test]
fn every_class_of_refusal_has_its_token() {
    let tokens: Vec<&str> = [
        WireErrorCode::Busy,
        WireErrorCode::Malformed,
        WireErrorCode::ShuttingDown,
        WireErrorCode::UnknownSub,
        WireErrorCode::AlreadySubscribed,
        WireErrorCode::DynamicSubNoOp,
        WireErrorCode::NotDisabled,
        WireErrorCode::TomlDisabled,
        WireErrorCode::ResponseTooBig,
    ]
    .into_iter()
    .map(|c| c.token())
    .collect();
    assert_eq!(
        tokens,
        vec![
            "busy",
            "malformed",
            "shutting_down",
            "unknown_sub",
            "already_subscribed",
            "dynamic_sub_no_op",
            "not_disabled",
            "toml_disabled",
            "response_too_big",
        ],
    );
}

#[test]
fn what_show_calls_active_can_be_changed() {
    let mut rig = rig_for(config_of(&[("build", true), ("off", false)], &[]));
    rig.run_initial_attach();
    rig.attach("t@/x", Some(MintSource::Template(SubId(1))));
    let client = rig.connect();
    for name in ["build", "off", "t@/x", "ghost"] {
        let active = matches!(
            rig.ask(client, WireRequest::Show { name: named(name) }),
            VerbPlan::Answer(ResponsePayload::Show(ShowResponse::Active(_))),
        );
        let absorb = WireRequest::Absorb { name: named(name), duration_ms: None };
        assert_eq!(matches!(rig.ask(client, absorb), VerbPlan::Step(_)), active, "{name}");
        let disable = WireRequest::Disable { name: named(name) };
        assert_eq!(matches!(rig.ask(client, disable), VerbPlan::Step(_)), active, "{name}");
        assert_eq!(active, name == "build");
    }
}

#[test]
fn no_number_of_refusals_goes_beyond_the_hard_ceiling() {
    let mut rig = rig_for(config_of(&[], &[]));
    let token = rig.connect();
    rig.driver.respond(token, &vec![b'x'; ACCEPT_CAP]);
    assert_eq!(rig.queued(token).len(), ACCEPT_CAP);
    let huge = vec![b'x'; 10_000_000];
    let line = "{\"kind\":\"err\",\"code\":\"response_too_big\",\"error\":\"response of \
                10000000 bytes exceeds per-conn cap of 261120 bytes\"}\n";
    rig.driver.respond(token, &huge);
    assert_eq!(rig.queued(token).len(), ACCEPT_CAP + line.len());
    assert!(rig.queued(token).ends_with(line.as_bytes()), "the first refusal is always told");
    for _ in 0..100 {
        rig.driver.respond(token, &huge);
    }
    assert_eq!(WRITE_QUEUE_HIGH_WATER, 262_144);
    assert_eq!(rig.queued(token).len(), ACCEPT_CAP + (1024 / line.len()) * line.len());
    assert!(rig.queued(token).len() <= WRITE_QUEUE_HIGH_WATER);
    assert!(rig.driver.ipc.conn_ref(token).expect("conn lives").close_after_flush);
}

#[test]
fn the_reserve_holds_eight_refusals() {
    let mut rig = rig_for(config_of(&[], &[]));
    let token = rig.connect();
    rig.driver.respond(token, &vec![b'x'; ACCEPT_CAP]);
    let mut expected = rig.queued(token);
    for len in 20_000_000..20_000_008usize {
        rig.driver.respond(token, &vec![b'x'; len]);
        expected.extend_from_slice(
            format!(
                "{{\"kind\":\"err\",\"code\":\"response_too_big\",\"error\":\"response of {len} \
                 bytes exceeds per-conn cap of 261120 bytes\"}}\n",
            )
            .as_bytes(),
        );
    }
    assert_eq!(rig.queued(token), expected);
}

#[test]
fn a_closing_connection_does_not_linger() {
    let mut rig = rig_for(config_of(&[], &[]));
    let (quiet, busy) = (rig.connect(), rig.connect());
    rig.driver.respond(busy, b"{}\n");
    for token in [quiet, busy] {
        rig.driver.ipc.conn_mut(token).expect("conn lives").arm_close_after_flush();
        rig.driver.finish_read(token, Ok(ReadOutcome::Continue));
    }
    assert!(rig.driver.ipc.conn_ref(quiet).is_none(), "nothing to write, nothing to wait for");
    assert_eq!(rig.driver.ipc.writable_interests(), vec![busy]);
    assert_eq!(rig.driver.ipc.after_drain(busy), DrainVerdict::Continue);
    rig.driver.ipc.on_write(busy, WriteEvent::Wrote(3));
    assert_eq!(rig.driver.ipc.after_drain(busy), DrainVerdict::Terminate);
}

#[test]
fn a_stream_stays_a_stream() {
    let mut rig = rig_for(one_watch());
    rig.run_initial_attach();
    let token = rig.connect();
    rig.round_trip(token, WireRequest::Subscribe { name: Some(named("build")) });
    rig.driver.respond(token, b"{}\n");
    let fired = Diagnostic::SubFired { sub: SubId(1), profile: ProfileId(1), count: 1 };
    rig.driver.forward(Vec::new(), &[], &[], &[fired], &[b"{\"d\":1}\n".to_vec()], WALL);
    let role = rig.driver.ipc.conn_ref(token).expect("conn lives").role;
    assert_eq!(role, ConnRole::Sub { filter: Some(SubId(1)), missed: MissedWindow::Closed });
}

#[test]
fn a_file_taken_on_is_not_read_again() {
    let mut rig = rig_for(one_watch());
    rig.reload(ReloadTrigger::Sighup, Some(unchanged(&one_watch())));
    assert!(!rig.driver.config_meta_changed(Some(meta(7))));
    assert!(rig.driver.config_meta_changed(Some(meta(8))));
    rig.driver.config_settle_until = Some(NOW);
    rig.settle(NOW, Some(meta(7)), Some(unchanged(&one_watch())));
    assert_eq!(rig.driver.driver_state.reload_count, 1);
}

#[test]
fn a_log_that_was_named_in_between_asks_for_no_restart() {
    let mut rig = rig_for(config_of(&[], &[]));
    let place = |destination, path: Option<&str>| {
        Some(LogConfig { level: LogLevel::Warn, destination, path: path.map(named) })
    };
    let asked: Vec<(Option<LogConfig>, bool)> = vec![
        (place(LogDestination::File, Some("/tmp/a.log")), true),
        (place(LogDestination::File, Some("/tmp/a.log")), true),
        (place(LogDestination::Stderr, None), false),
    ];
    for (log, restart) in asked {
        let parsed = Parsed { log, ..unchanged(&config_of(&[], &[])) };
        match rig.driver.dispatch_reload(ReloadTrigger::Sighup, WALL, Some(parsed), None) {
            ReloadStep::Apply { restart_to_move_log, pending, .. } => {
                assert_eq!(restart_to_move_log, restart);
                rig.driver.finish_reload(pending, true, Flow::Continue);
            }
            ReloadStep::Keep => panic!("a parsed file is applied"),
        }
    }
}

#[test]
fn a_pending_shutdown_does_not_show_on_the_connections() {
    let serve = |ending: bool| {
        let mut rig = rig_for(one_watch());
        rig.run_initial_attach();
        if ending {
            rig.driver.dispatch_signal(SIGTERM, NOW);
        }
        let (client, other) = (rig.connect(), rig.connect());
        assert!(matches!(rig.ask(client, WireRequest::Status), VerbPlan::Answer(_)));
        assert_eq!(rig.driver.deliver(client, Delivery::Answer, b"{\"s\":1}\n"), Flow::Continue);
        match rig.ask(client, WireRequest::Subscribe { name: None }) {
            VerbPlan::Subscribe { filter } => {
                let stream = Delivery::Stream { filter };
                assert_eq!(rig.driver.deliver(client, stream, b"{\"ack\":0}\n"), Flow::Continue);
            }
            plan => panic!("expected a stream, got {plan:?}"),
        }
        let state = |token: usize| {
            let conn = rig.driver.ipc.conn_ref(token).expect("conn lives");
            (rig.queued(token), conn.role, conn.close_after_flush)
        };
        (state(client), state(other))
    };
    let calm = serve(false);
    assert_eq!(calm.0 .0, b"{\"s\":1}\n{\"ack\":0}\n".to_vec());
    assert_eq!(calm.0 .1, ConnRole::Sub { filter: None, missed: MissedWindow::Closed });
    assert_eq!(calm, serve(true));
}

#[test]
fn a_line_that_cannot_be_answered_is_known_before() {
    let mut rig = rig_for(one_watch());
    rig.run_initial_attach();
    rig.attach("t@/x", Some(MintSource::Promoter(PromoterId(1))));
    let client = rig.connect();
    let show = |name: &str| -> Result<WireRequest, String> {
        Ok(WireRequest::Show { name: named(name) })
    };
    assert!(rig.driver.answerable(&Ok(WireRequest::List), &rig.view));
    rig.view.subs[0].history = Some(FireHistory {
        last_fired_at: Some(MonoTime { nanos: u64::MAX }),
        fire_count: 1,
        dedup_suppressed_count: 0,
    });
    assert!(!rig.driver.answerable(&Ok(WireRequest::List), &rig.view));
    assert!(!rig.driver.answerable(&show("build"), &rig.view));
    assert!(rig.driver.try_handle_ipc_line(client, show("build"), &rig.view, NOW).is_none());
    rig.view.subs[0].history = None;
    rig.view.profiles.clear();
    assert!(rig.driver.answerable(&Ok(WireRequest::List), &rig.view));
    assert!(!rig.driver.answerable(&show("build"), &rig.view));
    assert!(rig.driver.answerable(&show("t@/x"), &rig.view), "a minted watch is not shown");
    assert!(rig.driver.answerable(&Ok(WireRequest::Status), &rig.view));
    assert!(rig.driver.try_handle_ipc_line(client, show("ghost"), &rig.view, NOW).is_some());
}

#[test]
fn the_exit_code_is_zero_unless_the_start_fails() {
    assert_eq!(exit_code(DaemonEnd::StartFailed), 1);
    assert_eq!(exit_code(DaemonEnd::StoppedAtBoot), 0);
    assert_eq!(exit_code(DaemonEnd::Ran(ExitReason::Shutdown)), 0);
}

#[test]
fn a_verb_knows_its_keys_and_no_others() {
    let keys = ["op", "name", "duration_ms", "names", ""];
    let known = |request: WireRequest| -> Vec<&str> {
        keys.into_iter().filter(|key| request.knows_key(key)).collect()
    };
    assert_eq!(known(WireRequest::Status), vec!["op"]);
    assert_eq!(known(WireRequest::List), vec!["op"]);
    assert_eq!(known(WireRequest::Reload), vec!["op"]);
    assert_eq!(known(WireRequest::Show { name: named("a") }), vec!["op", "name"]);
    assert_eq!(known(WireRequest::Subscribe { name: None }), vec!["op", "name"]);
    assert_eq!(known(WireRequest::Disable { name: named("a") }), vec!["op", "name"]);
    assert_eq!(known(WireRequest::Enable { name: named("a") }), vec!["op", "name"]);
    let absorb = WireRequest::Absorb { name: named("a"), duration_ms: None };
    assert_eq!(known(absorb), vec!["op", "name", "duration_ms"]);
}

#[test]
fn a_full_house_refuses_also_with_the_last_token_gone() {
    let mut rig = rig_for(config_of(&[], &[]));
    for _ in 0..MAX_IPC_CONNS {
        rig.connect();
    }
    rig.driver.ipc.next_conn_token = usize::MAX;
    assert_eq!(rig.driver.ipc.on_accept(AcceptEvent::Accepted), AcceptStep::Refuse);
    assert_eq!(rig.driver.ipc.on_accept(AcceptEvent::WouldBlock), AcceptStep::Done);
    assert_eq!(rig.driver.ipc.next_conn_token, usize::MAX);
}

#[test]
fn every_escape_of_a_refusal_is_the_one_of_its_character() {
    let shown = |c: char| encode_err_line(WireErrorCode::Malformed, &c.to_string());
    let line = |inner: &str| {
        format!("{{\"kind\":\"err\",\"code\":\"malformed\",\"error\":\"{inner}\"}}\n")
    };
    let escapes = [
        ('"', "\\\""), ('\\', "\\\\"), ('\u{8}', "\\b"), ('\t', "\\t"), ('\n', "\\n"),
        ('\u{c}', "\\f"), ('\r', "\\r"), ('\0', "\\u0000"), ('\u{b}', "\\u000b"),
        ('\u{1f}', "\\u001f"), (' ', " "), ('/', "/"), ('\u{7f}', "\u{7f}"), ('é', "é"),
    ];
    for (c, inner) in escapes {
        assert_eq!(shown(c), line(inner), "{c:?}");
    }
}

#[test]
fn a_stamp_has_whole_seconds() {
    assert_eq!(stamp(WALL), "2023-11-14T22:13:20Z");
    assert_eq!(stamp(WallTime { nanos: 999_999_999 }), "1970-01-01T00:00:00Z");
    assert_eq!(stamp(WallTime { nanos: u64::MAX }), "2554-07-21T23:34:33Z");
}

#[test]
fn a_pending_shutdown_does_not_show_in_what_only_reads() {
    let ask_all = |ending: bool| {
        let mut rig = rig_for(config_of(&[("build", true), ("off", false)], &[]));
        rig.run_initial_attach();
        if ending {
            rig.driver.dispatch_signal(SIGTERM, NOW);
        }
        let client = rig.connect();
        let requests = vec![
            WireRequest::Status,
            WireRequest::List,
            WireRequest::Show { name: named("build") },
            WireRequest::Show { name: named("off") },
            WireRequest::Show { name: named("ghost") },
            WireRequest::Subscribe { name: Some(named("ghost")) },
            WireRequest::Subscribe { name: Some(named("build")) },
        ];
        let mut seen: Vec<String> =
            requests.into_iter().map(|r| format!("{:?}", rig.ask(client, r))).collect();
        let bad = rig.driver.handle_ipc_line(client, Err(named("eof")), &rig.view, NOW);
        seen.push(format!("{bad:?}"));
        seen
    };
    assert_eq!(ask_all(false), ask_all(true));
}

#[test]
fn a_settle_deadline_is_not_missed() {
    let mut rig = rig_for(config_of(&[], &[]));
    rig.driver.arm_config_settle(true, NOW, 10);
    let at = |nanos: u64| MonoTime { nanos: NOW.nanos + nanos };
    assert_eq!(rig.driver.apply_config_settle_expiry(at(9)), SettleStep::Wait);
    assert_eq!(rig.driver.apply_config_settle_expiry(at(10)), SettleStep::CheckFile);
}

#[test]
fn a_finished_verb_is_answered_also_at_the_end() {
    let mut rig = rig_for(config_of(&[], &[]));
    let token = rig.connect();
    assert_eq!(rig.driver.finish_verb(token, Flow::Break), Flow::Break);
    assert_eq!(rig.queued(token), b"{\"kind\":\"ok\"}\n".to_vec());
    assert_eq!(rig.driver.finish_verb(TOKEN_CONN_BASE + 7, Flow::Continue), Flow::Continue);
}

#[test]
fn verdicts_are_lines_and_the_rest_is_not() {
    assert_eq!(encode_verdict(&ResponsePayload::Done).as_deref(), Some("{\"kind\":\"ok\"}\n"));
    let refusal = ResponsePayload::Refusal {
        code: WireErrorCode::Malformed,
        error: "line one\nline two".to_string(),
    };
    assert_eq!(
        encode_verdict(&refusal).as_deref(),
        Some("{\"kind\":\"err\",\"code\":\"malformed\",\"error\":\"line one\\nline two\"}\n"),
    );
    assert!(encode_verdict(&ResponsePayload::SubscribeAck { sub: None }).is_none());
}

#[test]
fn a_switched_off_watch_shows_as_such() {
    let mut rig = rig_for(one_watch());
    rig.run_initial_attach();
    let client = rig.connect();
    rig.round_trip(client, WireRequest::Disable { name: named("build") });
    match rig.round_trip(client, WireRequest::Show { name: named("build") }) {
        ResponsePayload::Show(ShowResponse::Disabled { name, source }) => {
            assert_eq!(name, "build");
            assert_eq!(source, DisabledSource::Runtime);
        }
        other => panic!("expected Disabled, got {other:?}"),
    }
}
