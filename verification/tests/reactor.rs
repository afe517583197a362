use crossbeam::channel::{unbounded, Receiver};
use specter_bin::channels::Inbox;
use specter_bin::driver::reactor::{
    after_poll, apply_watch_ops, DrainStep, DrainedTick, PollEvent, PollStep, Reactor,
    WatchResult, WatcherEvent, TOKEN_CONFIG_WATCHER, TOKEN_LISTENER, TOKEN_SIGNAL, TOKEN_WAKER,
    TOKEN_WATCHER,
};
use specter_bin::ids::ResourceId;
use specter_bin::model::diagnostic::SensorFailure;

type Tick = DrainedTick<&'static str, &'static str, u64>;

fn reactor_of(prober_rx: Receiver<u64>, effect_rx: Receiver<u64>) -> Reactor<u64> {
    Reactor {
        prober_response_rx: Inbox::new(prober_rx),
        effect_complete_rx: Inbox::new(effect_rx),
    }
}

#[test]
fn poll_and_drain_zero_timeout_returns_empty() {
    let (_prober_tx, prober_rx) = unbounded::<u64>();
    let (_effect_tx, effect_rx) = unbounded::<u64>();
    let mut reactor = reactor_of(prober_rx, effect_rx);
    let mut drained: Tick = DrainedTick::new();
    assert_eq!(after_poll(PollEvent::Ready), PollStep::Drain);
    assert_eq!(reactor.on_ready(&mut drained, TOKEN_WAKER, true, false), DrainStep::Nothing);
    drained.drain_watcher(Vec::new());
    drained.drain_config_watcher(false);
    drained.drain_signals(Vec::new());
    assert!(drained.fs_events.is_empty());
    assert!(drained.sensor_overflows.is_empty());
    assert!(drained.probe_responses.is_empty());
    assert!(drained.effect_completions.is_empty());
    assert!(drained.signals.is_empty());
    assert!(!drained.config_event_pulse);
    assert!(!drained.listener_ready);
    assert!(!drained.actuator_gone);
    assert!(drained.ready_reads.is_empty());
    assert!(drained.ready_writes.is_empty());
}

#[test]
fn drain_effect_completions_sets_actuator_gone_on_disconnect() {
    let (_prober_tx, prober_rx) = unbounded::<u64>();
    let (effect_tx, effect_rx) = unbounded::<u64>();
    let mut reactor = reactor_of(prober_rx, effect_rx);
    drop(effect_tx);

    let mut drained: Tick = DrainedTick::new();
    let step = reactor.on_ready(&mut drained, TOKEN_WAKER, true, false);
    assert_eq!(step, DrainStep::Nothing);
    assert!(
        drained.actuator_gone,
        "Disconnected on effect_complete_rx surfaces as actuator_gone",
    );
    assert!(
        drained.effect_completions.is_empty(),
        "no in-flight completions queued before the disconnect",
    );
}

#[test]
fn drain_effect_completions_drains_queued_before_signalling_disconnect() {
    let (_prober_tx, prober_rx) = unbounded::<u64>();
    let (effect_tx, effect_rx) = unbounded::<u64>();
    let mut reactor = reactor_of(prober_rx, effect_rx);
    effect_tx.send(7).expect("queue completion");
    drop(effect_tx);

    let mut drained: Tick = DrainedTick::new();
    reactor.on_ready(&mut drained, TOKEN_WAKER, true, false);
    assert_eq!(
        drained.effect_completions.len(),
        1,
        "queued completion drained before Disconnected lands",
    );
    assert!(
        drained.actuator_gone,
        "post-drain try_recv observes Disconnected on the same tick",
    );
    assert_eq!(drained.effect_completions, vec![7]);
}

#[test]
fn waker_wake_unblocks_poll_and_drain() {
    let (prober_tx, prober_rx) = unbounded::<u64>();
    let (_effect_tx, effect_rx) = unbounded::<u64>();
    let mut reactor = reactor_of(prober_rx, effect_rx);
    prober_tx.send(1).expect("send into wake'd channel");

    let mut drained: Tick = DrainedTick::new();
    reactor.on_ready(&mut drained, TOKEN_WAKER, true, false);
    assert_eq!(drained.probe_responses.len(), 1);
    assert!(!drained.actuator_gone);
}

#[test]
fn reactor_apply_watch_ops_no_rejection_on_accepting_watcher() {
    let rejected = apply_watch_ops(vec![WatchResult { resource: ResourceId(1), failure: None }]);
    assert!(rejected.is_empty(), "accepted by default");
}

#[test]
fn reactor_apply_watch_ops_surfaces_rejection_on_watcher_error() {
    let failure = SensorFailure { text: "Pressure { errno: 24 }".to_string(), errno: Some(24) };
    let rejected = apply_watch_ops(vec![WatchResult {
        resource: ResourceId(1),
        failure: Some(failure),
    }]);
    assert_eq!(rejected.len(), 1);
    assert_eq!(rejected[0].resource, ResourceId(1));
    assert_eq!(rejected[0].failure.errno, Some(24));
    assert_eq!(rejected[0].failure.text, "Pressure { errno: 24 }");
}

#[test]
fn hub_apply_watch_ops_no_rejection_on_accepting_watcher() {
    let accepted = WatchResult { resource: ResourceId(7), failure: None };
    assert!(apply_watch_ops(vec![accepted]).is_empty(), "accepted by default");
    assert!(apply_watch_ops(Vec::new()).is_empty());
}

#[test]
fn hub_apply_watch_ops_surfaces_rejection_on_watcher_error() {
    let failure = SensorFailure { text: "Pressure { errno: 24 }".to_string(), errno: Some(24) };
    let rejected =
        apply_watch_ops(vec![WatchResult { resource: ResourceId(7), failure: Some(failure) }]);
    assert_eq!(rejected.len(), 1);
    assert_eq!(rejected[0].resource, ResourceId(7));
    assert_eq!(rejected[0].failure.errno, Some(24));
}

#[test]
fn refusals_keep_their_order() {
    let result = |id: u64, errno: Option<i32>| WatchResult {
        resource: ResourceId(id),
        failure: errno.map(|e| SensorFailure { text: String::new(), errno: Some(e) }),
    };
    let rejected = apply_watch_ops(vec![
        result(1, Some(24)),
        result(2, None),
        result(3, Some(28)),
        result(1, Some(2)),
    ]);
    let seen: Vec<(u64, Option<i32>)> =
        rejected.iter().map(|r| (r.resource.0, r.failure.errno)).collect();
    assert_eq!(seen, vec![(1, Some(24)), (3, Some(28)), (1, Some(2))]);
}

#[test]
fn prober_response_send_then_wake_drains_through_token_waker() {
    let (prober_tx, prober_rx) = unbounded::<u64>();
    let (_effect_tx, effect_rx) = unbounded::<u64>();
    let mut reactor = reactor_of(prober_rx, effect_rx);
    prober_tx.send(41).unwrap();
    prober_tx.send(42).unwrap();
    let mut drained: Tick = DrainedTick::new();
    reactor.on_ready(&mut drained, TOKEN_WAKER, true, false);
    assert_eq!(drained.probe_responses, vec![41, 42]);
    assert!(drained.effect_completions.is_empty());
}

#[test]
fn effect_complete_send_then_wake_drains_through_token_waker() {
    let (_prober_tx, prober_rx) = unbounded::<u64>();
    let (effect_tx, effect_rx) = unbounded::<u64>();
    let mut reactor = reactor_of(prober_rx, effect_rx);
    effect_tx.send(43).unwrap();
    let mut drained: Tick = DrainedTick::new();
    reactor.on_ready(&mut drained, TOKEN_WAKER, true, false);
    assert_eq!(drained.effect_completions, vec![43]);
    assert!(drained.probe_responses.is_empty());
    assert!(!drained.actuator_gone);
}

#[test]
fn fs_event_and_effect_complete_both_drain_in_one_tick() {
    let (_prober_tx, prober_rx) = unbounded::<u64>();
    let (effect_tx, effect_rx) = unbounded::<u64>();
    let mut reactor = reactor_of(prober_rx, effect_rx);
    effect_tx.send(5).unwrap();
    let mut drained: Tick = DrainedTick::new();
    let sensor = reactor.on_ready(&mut drained, TOKEN_WATCHER, true, false);
    assert_eq!(sensor, DrainStep::Watcher);
    assert!(drained.effect_completions.is_empty(), "only a wake drains the channels");
    drained.drain_watcher(vec![WatcherEvent::Fs { resource: ResourceId(9), event: "modified" }]);
    reactor.on_ready(&mut drained, TOKEN_WAKER, true, false);
    assert_eq!(drained.fs_events, vec![(ResourceId(9), "modified")]);
    assert_eq!(drained.effect_completions, vec![5]);
}

#[test]
fn the_sensor_reports_events_and_overflows_apart() {
    let mut drained: Tick = DrainedTick::new();
    drained.drain_watcher(vec![
        WatcherEvent::Fs { resource: ResourceId(1), event: "created" },
        WatcherEvent::Overflow { scope: "all" },
        WatcherEvent::Fs { resource: ResourceId(2), event: "removed" },
    ]);
    drained.drain_watcher(vec![WatcherEvent::Overflow { scope: "one" }]);
    assert_eq!(
        drained.fs_events,
        vec![(ResourceId(1), "created"), (ResourceId(2), "removed")],
    );
    assert_eq!(drained.sensor_overflows, vec!["all", "one"]);
}

#[test]
fn a_pulse_of_the_configuration_stays() {
    let mut drained: Tick = DrainedTick::new();
    drained.drain_config_watcher(false);
    assert!(!drained.config_event_pulse);
    drained.drain_config_watcher(true);
    drained.drain_config_watcher(false);
    assert!(drained.config_event_pulse);
}

#[test]
fn signals_keep_their_order() {
    let mut drained: Tick = DrainedTick::new();
    drained.drain_signals(vec![1, 15]);
    drained.drain_signals(vec![2]);
    assert_eq!(drained.signals, vec![1, 15, 2]);
}

#[test]
fn reports_go_by_their_token() {
    let (_prober_tx, prober_rx) = unbounded::<u64>();
    let (_effect_tx, effect_rx) = unbounded::<u64>();
    let mut reactor = reactor_of(prober_rx, effect_rx);
    let mut drained: Tick = DrainedTick::new();
    let mut route = |token: usize, readable: bool, writable: bool| {
        reactor.on_ready(&mut drained, token, readable, writable)
    };
    assert_eq!(route(TOKEN_CONFIG_WATCHER, true, false), DrainStep::ConfigWatcher);
    assert_eq!(route(TOKEN_SIGNAL, true, false), DrainStep::Signals);
    assert_eq!(route(5, true, true), DrainStep::Nothing);
    assert_eq!(route(0xFF, true, true), DrainStep::Nothing);
    assert_eq!(route(0x101, true, false), DrainStep::Nothing);
    assert_eq!(route(0x100, true, true), DrainStep::Nothing);
    assert_eq!(route(0x102, false, false), DrainStep::Nothing);
    assert_eq!(route(TOKEN_LISTENER, true, false), DrainStep::Nothing);
    assert_eq!(drained.ready_reads, vec![0x101, 0x100]);
    assert_eq!(drained.ready_writes, vec![0x100]);
    assert!(drained.listener_ready);
}

#[test]
fn a_poll_that_a_signal_interrupts_is_an_empty_turn() {
    assert_eq!(after_poll(PollEvent::Interrupted), PollStep::Pass);
    assert_eq!(after_poll(PollEvent::Failed), PollStep::Fail);
}
