//! Reloading the configuration.
//!
//! Whoever asks (a signal, an operator, a file that changed and came to rest),
//! the way is one: the surrounding program reads and parses the file and hands
//! in what it found; the driver says what to change and takes the new state on
//! once the engine has it.

use vstd::prelude::*;
use crate::driver::state;
use crate::driver::state::ReloadTrigger;
use crate::driver::EngineDriver;
use crate::model::config;
use crate::model::config::{
    Config, FileMeta, LogConfig, LogLevel, SubChange, WatchDiff, WatchSpec,
};
use crate::model::input::Flow;
use crate::names::NameSet;
use crate::text;
use crate::time::{MonoTime, WallTime};

verus! {

/// What a settle deadline asks for.
#[derive(Clone, Copy, Debug, PartialEq, Eq, Structural)]
pub enum SettleStep {
    /// Nothing yet.
    Wait,
    /// A look at the file; a reload where it changed.
    CheckFile,
}

/// What a settle deadline asks for at `now`.
pub open spec fn settle_step(deadline: Option<MonoTime>, now: MonoTime) -> SettleStep {
    match deadline {
        Some(d) => if now.nanos < d.nanos {
            SettleStep::Wait
        } else {
            SettleStep::CheckFile
        },
        None => SettleStep::Wait,
    }
}

/// What is left of a settle deadline once it was asked at `now`: it goes off
/// once.
pub open spec fn settle_left(deadline: Option<MonoTime>, now: MonoTime) -> Option<MonoTime> {
    if settle_step(deadline, now) == SettleStep::CheckFile {
        None
    } else {
        deadline
    }
}

/// The settle deadline after a look at the watcher of the file.
pub open spec fn settle_armed(
    deadline: Option<MonoTime>,
    pulse: bool,
    now: MonoTime,
    settle: u64,
) -> Option<MonoTime> {
    if pulse {
        Some(MonoTime { nanos: (now.nanos + settle) as u64 })
    } else {
        deadline
    }
}

/// Every sign of a change puts the deadline off to a full settle time from
/// then, whatever deadline there was, so that it goes off only after so much
/// quiet; without a sign the deadline stays.
pub proof fn law_every_pulse_starts_the_settle_time_anew(
    deadline: Option<MonoTime>,
    now: MonoTime,
    settle: u64,
    later: MonoTime,
)
    requires
        now.nanos + settle <= u64::MAX,
    ensures
        settle_step(settle_armed(deadline, true, now, settle), later) == SettleStep::CheckFile
            <==> later.nanos >= now.nanos + settle,
        settle_armed(deadline, false, now, settle) == deadline,
        settle_armed(settle_armed(deadline, true, now, settle), false, later, settle)
            == settle_armed(None, true, now, settle),
{
}

/// Whether a file found in the state `found` is another than one in the state
/// `known`. One that cannot be looked at is.
pub open spec fn drifted(known: FileMeta, found: Option<FileMeta>) -> bool {
    found != Some(known)
}

/// The changes of watches that no operator switched off.
pub open spec fn wanted_changes(
    changes: Seq<SubChange>,
    disabled: Set<Seq<char>>,
) -> Seq<SubChange> {
    changes.filter(|c: SubChange| !disabled.contains(c.name@))
}

/// The names that no operator switched off.
pub open spec fn wanted_names(gone: Seq<String>, disabled: Set<Seq<char>>) -> Seq<String> {
    gone.filter(|n: String| !disabled.contains(n@))
}

/// Whether `kept` is `diff` without the watches that an operator switched off.
/// Dynamic watches are not touched.
pub open spec fn without_disabled(
    diff: WatchDiff,
    disabled: Set<Seq<char>>,
    kept: WatchDiff,
) -> bool {
    &&& kept.added@ == wanted_changes(diff.added@, disabled)
    &&& kept.removed@ == wanted_names(diff.removed@, disabled)
    &&& kept.modified_identity@ == wanted_changes(diff.modified_identity@, disabled)
    &&& kept.modified_params@ == wanted_changes(diff.modified_params@, disabled)
    &&& kept.promoters == diff.promoters
}

/// Drops the changes of watches that an operator switched off.
fn retain_changes(changes: &mut Vec<SubChange>, disabled: &NameSet)
    requires
        disabled.wf(),
    ensures
        final(changes)@ == wanted_changes(old(changes)@, disabled@),
{
    let ghost all = changes@;
    let ghost pred = |c: SubChange| !disabled@.contains(c.name@);
    let ghost mut seen: int = 0;
    let mut i: usize = 0;
    proof {
        reveal(Seq::filter);
        assert(all.take(0).filter(pred) =~= Seq::empty());
        assert(changes@.take(0) =~= Seq::empty());
        assert(all.skip(0) =~= all);
        assert(changes@.skip(0) =~= changes@);
    }
    while i < changes.len()
        invariant
            disabled.wf(),
            pred == (|c: SubChange| !disabled@.contains(c.name@)),
            0 <= seen <= all.len(),
            i <= changes@.len(),
            changes@.take(i as int) == all.take(seen).filter(pred),
            changes@.skip(i as int) == all.skip(seen),
        decreases changes@.len() - i,
    {
        let ghost now = changes@;
        assert(now.skip(i as int).len() == all.skip(seen).len());
        assert(now.skip(i as int)[0] == all.skip(seen)[0]);
        assert(now[i as int] == all[seen]);
        assert(all.take(seen + 1).drop_last() =~= all.take(seen));
        proof {
            reveal(Seq::filter);
        }
        if disabled.contains(changes[i].name.as_str()) {
            let _ = changes.remove(i);
            assert(changes@.take(i as int) =~= now.take(i as int));
            assert(changes@.skip(i as int) =~= all.skip(seen + 1)) by {
                assert(changes@.skip(i as int) =~= now.skip(i as int).skip(1));
                assert(all.skip(seen + 1) =~= all.skip(seen).skip(1));
            }
        } else {
            i = i + 1;
            assert(changes@.take(i as int) =~= now.take(i - 1).push(all[seen]));
            assert(changes@.skip(i as int) =~= all.skip(seen + 1)) by {
                assert(changes@.skip(i as int) =~= now.skip(i - 1).skip(1));
                assert(all.skip(seen + 1) =~= all.skip(seen).skip(1));
            }
        }
        proof {
            seen = seen + 1;
        }
    }
    proof {
        assert(changes@.skip(i as int).len() == 0);
        assert(all.skip(seen).len() == 0);
        assert(all.take(seen) =~= all);
        assert(changes@.take(i as int) =~= changes@);
    }
}

/// Drops the names that an operator switched off.
fn retain_names(gone: &mut Vec<String>, disabled: &NameSet)
    requires
        disabled.wf(),
    ensures
        final(gone)@ == wanted_names(old(gone)@, disabled@),
{
    let ghost all = gone@;
    let ghost pred = |n: String| !disabled@.contains(n@);
    let ghost mut seen: int = 0;
    let mut i: usize = 0;
    proof {
        reveal(Seq::filter);
        assert(all.take(0).filter(pred) =~= Seq::empty());
        assert(gone@.take(0) =~= Seq::empty());
        assert(all.skip(0) =~= all);
        assert(gone@.skip(0) =~= gone@);
    }
    while i < gone.len()
        invariant
            disabled.wf(),
            pred == (|n: String| !disabled@.contains(n@)),
            0 <= seen <= all.len(),
            i <= gone@.len(),
            gone@.take(i as int) == all.take(seen).filter(pred),
            gone@.skip(i as int) == all.skip(seen),
        decreases gone@.len() - i,
    {
        let ghost now = gone@;
        assert(now.skip(i as int).len() == all.skip(seen).len());
        assert(now.skip(i as int)[0] == all.skip(seen)[0]);
        assert(now[i as int] == all[seen]);
        assert(all.take(seen + 1).drop_last() =~= all.take(seen));
        proof {
            reveal(Seq::filter);
        }
        if disabled.contains(gone[i].as_str()) {
            let _ = gone.remove(i);
            assert(gone@.take(i as int) =~= now.take(i as int));
            assert(gone@.skip(i as int) =~= all.skip(seen + 1)) by {
                assert(gone@.skip(i as int) =~= now.skip(i as int).skip(1));
                assert(all.skip(seen + 1) =~= all.skip(seen).skip(1));
            }
        } else {
            i = i + 1;
            assert(gone@.take(i as int) =~= now.take(i - 1).push(all[seen]));
            assert(gone@.skip(i as int) =~= all.skip(seen + 1)) by {
                assert(gone@.skip(i as int) =~= now.skip(i - 1).skip(1));
                assert(all.skip(seen + 1) =~= all.skip(seen).skip(1));
            }
        }
        proof {
            seen = seen + 1;
        }
    }
    proof {
        assert(gone@.skip(i as int).len() == 0);
        assert(all.skip(seen).len() == 0);
        assert(all.take(seen) =~= all);
        assert(gone@.take(i as int) =~= gone@);
    }
}

/// A parsed configuration, with what the driver decides by before the engine
/// has it.
#[derive(Debug)]
pub struct Parsed {
    /// The configuration itself.
    pub config: Config,
    /// The state of the file it was read from.
    pub meta: FileMeta,
    /// What it changes, by comparison with the one that runs.
    pub diff: WatchDiff,
    /// How it wants the daemon to log, the command line taken into account;
    /// `None` where that is not valid.
    pub log: Option<LogConfig>,
}

/// A configuration that was decided on and is not yet taken on. Only
/// [`EngineDriver::dispatch_reload`] gives one out, and
/// [`EngineDriver::finish_reload`] uses it up.
#[derive(Debug)]
pub struct PendingReload {
    config: Config,
    meta: FileMeta,
    log: Option<LogConfig>,
}

impl PendingReload {
    /// The configuration.
    pub closed spec fn config(self) -> Config {
        self.config
    }

    /// The state of its file.
    pub closed spec fn meta(self) -> FileMeta {
        self.meta
    }

    /// How it wants the daemon to log.
    pub closed spec fn log(self) -> Option<LogConfig> {
        self.log
    }
}

/// What a reload asks for.
#[derive(Debug)]
pub enum ReloadStep {
    /// Nothing: the configuration that runs stays.
    Keep,
    /// A log level to set where there is one, a word to the operator where the
    /// log would have to move, which it cannot while the daemon runs, and a
    /// change for the engine where there is one. Then
    /// [`EngineDriver::finish_reload`], with what is `pending`.
    Apply {
        set_level: Option<LogLevel>,
        restart_to_move_log: bool,
        diff: Option<WatchDiff>,
        pending: PendingReload,
    },
}

/// Whether two log configurations name the same place.
pub open spec fn same_place(a: LogConfig, b: LogConfig) -> bool {
    a.destination == b.destination && text::opt(a.path) == text::opt(b.path)
}

/// Whether two texts that may be missing are the same.
fn same_opt(a: &Option<String>, b: &Option<String>) -> (yes: bool)
    ensures
        yes == (text::opt(*a) == text::opt(*b)),
{
    match (a, b) {
        (None, None) => true,
        (Some(x), Some(y)) => text::same(x.as_str(), y.as_str()),
        _ => false,
    }
}

/// Whether `applied` is how the daemon logs after a reload: at the requested
/// level where that could be set, and always where it logged before.
pub open spec fn log_after(
    running: LogConfig,
    requested: Option<LogConfig>,
    level_set: bool,
    applied: LogConfig,
) -> bool {
    &&& applied.level == match requested {
        Some(r) => if level_set {
            r.level
        } else {
            running.level
        },
        None => running.level,
    }
    &&& applied.destination == running.destination
    &&& text::opt(applied.path) == text::opt(running.path)
}

/// The level to set for a requested log configuration.
pub open spec fn level_change(running: LogConfig, requested: Option<LogConfig>) -> Option<LogLevel> {
    match requested {
        Some(r) => if r.level == running.level {
            None
        } else {
            Some(r.level)
        },
        None => None,
    }
}

/// Whether `step` is what a reload of `parsed` asks for, and `after` the driver
/// that decided so.
pub open spec fn reload_decided(
    before: EngineDriver,
    trigger: ReloadTrigger,
    at: WallTime,
    parsed: Option<Parsed>,
    post_fail_meta: Option<FileMeta>,
    step: ReloadStep,
    after: EngineDriver,
) -> bool {
    &&& after == (EngineDriver {
        config_settle_until: None,
        driver_state: after.driver_state,
        loader: after.loader,
        ..before
    })
    &&& after.loader.current_config == before.loader.current_config
    &&& after.loader.current_log == before.loader.current_log
    &&& match parsed {
        None => {
            &&& step is Keep
            &&& after.driver_state == before.driver_state
            &&& after.loader.config_meta == match post_fail_meta {
                Some(meta) => meta,
                None => before.loader.config_meta,
            }
        },
        Some(p) => {
            &&& after.loader.config_meta == before.loader.config_meta
            &&& state::recorded(before.driver_state, trigger, at, after.driver_state)
            &&& step matches ReloadStep::Apply { set_level, restart_to_move_log, diff, pending } && {
                &&& pending.config() == p.config
                &&& pending.meta() == p.meta
                &&& pending.log() == p.log
                &&& set_level == level_change(before.loader.current_log, p.log)
                &&& restart_to_move_log == (p.log matches Some(r) && !same_place(
                    r,
                    before.loader.current_log,
                ))
                &&& exists|kept: WatchDiff|
                    {
                        &&& #[trigger] without_disabled(p.diff, before.disabled_runtime@, kept)
                        &&& diff == if kept.spec_is_empty() {
                            None
                        } else {
                            Some(kept)
                        }
                    }
            }
        },
    }
}

/// Whether the step of a reload carries every change of `diff` but those of
/// watches that are `disabled`: no change at all is handed on only where each
/// of the four lists names nothing else and there is nothing about dynamic
/// watches; else each list holds the others, in order, and all that is about
/// dynamic watches.
pub open spec fn step_carries(diff: WatchDiff, disabled: Set<Seq<char>>, step: ReloadStep) -> bool {
    step matches ReloadStep::Apply { diff: carried, .. } && match carried {
        None => {
            &&& forall|i: int|
                0 <= i < diff.added@.len() ==> disabled.contains((#[trigger] diff.added@[i]).name@)
            &&& forall|i: int|
                0 <= i < diff.removed@.len() ==> disabled.contains((#[trigger] diff.removed@[i])@)
            &&& forall|i: int|
                0 <= i < diff.modified_identity@.len() ==> disabled.contains(
                    (#[trigger] diff.modified_identity@[i]).name@,
                )
            &&& forall|i: int|
                0 <= i < diff.modified_params@.len() ==> disabled.contains(
                    (#[trigger] diff.modified_params@[i]).name@,
                )
            &&& diff.promoters.added@.len() == 0
            &&& diff.promoters.removed@.len() == 0
            &&& diff.promoters.modified@.len() == 0
        },
        Some(d) => {
            &&& d.added@ == diff.added@.filter(|c: SubChange| !disabled.contains(c.name@))
            &&& d.removed@ == diff.removed@.filter(|n: String| !disabled.contains(n@))
            &&& d.modified_identity@ == diff.modified_identity@.filter(
                |c: SubChange| !disabled.contains(c.name@),
            )
            &&& d.modified_params@ == diff.modified_params@.filter(
                |c: SubChange| !disabled.contains(c.name@),
            )
            &&& d.promoters.added@ == diff.promoters.added@
            &&& d.promoters.removed@ == diff.promoters.removed@
            &&& d.promoters.modified@ == diff.promoters.modified@
            &&& d.added@.len() + d.removed@.len() + d.modified_identity@.len()
                + d.modified_params@.len() + d.promoters.added@.len() + d.promoters.removed@.len()
                + d.promoters.modified@.len() > 0
        },
    }
}

/// What a filter leaves nothing of holds nothing that it keeps.
proof fn lemma_nothing_left<A>(s: Seq<A>, keep: spec_fn(A) -> bool)
    requires
        s.filter(keep).len() == 0,
    ensures
        forall|i: int| 0 <= i < s.len() ==> !keep(#[trigger] s[i]),
{
    assert forall|i: int| 0 <= i < s.len() implies !keep(#[trigger] s[i]) by {
        if keep(s[i]) {
            s.lemma_filter_contains(keep, i);
            assert(s.filter(keep).contains(s[i]));
        }
    }
}

/// A reload hands every change of the file to the engine but those of watches
/// that an operator switched off, whichever of its lists they stand in. So an
/// edit is never taken on without the engine.
pub proof fn law_a_reload_carries_every_wanted_change(
    before: EngineDriver,
    trigger: ReloadTrigger,
    at: WallTime,
    p: Parsed,
    post_fail_meta: Option<FileMeta>,
    step: ReloadStep,
    after: EngineDriver,
)
    requires
        reload_decided(before, trigger, at, Some(p), post_fail_meta, step, after),
    ensures
        step_carries(p.diff, before.disabled_runtime@, step),
        step matches ReloadStep::Apply { diff: None, .. } ==> {
            &&& p.diff.promoters.added@.len() == 0
            &&& p.diff.promoters.removed@.len() == 0
            &&& p.diff.promoters.modified@.len() == 0
            &&& forall|i: int|
                0 <= i < p.diff.added@.len() ==> before.disabled_runtime@.contains(
                    (#[trigger] p.diff.added@[i]).name@,
                )
            &&& forall|i: int|
                0 <= i < p.diff.removed@.len() ==> before.disabled_runtime@.contains(
                    (#[trigger] p.diff.removed@[i])@,
                )
            &&& forall|i: int|
                0 <= i < p.diff.modified_identity@.len() ==> before.disabled_runtime@.contains(
                    (#[trigger] p.diff.modified_identity@[i]).name@,
                )
            &&& forall|i: int|
                0 <= i < p.diff.modified_params@.len() ==> before.disabled_runtime@.contains(
                    (#[trigger] p.diff.modified_params@[i]).name@,
                )
        },
{
    let disabled = before.disabled_runtime@;
    let kept = choose|kept: WatchDiff|
        {
            &&& #[trigger] without_disabled(p.diff, disabled, kept)
            &&& step->diff == if kept.spec_is_empty() {
                None
            } else {
                Some(kept)
            }
        };
    let change = |c: SubChange| !disabled.contains(c.name@);
    let gone = |n: String| !disabled.contains(n@);
    if kept.spec_is_empty() {
        lemma_nothing_left(p.diff.added@, change);
        lemma_nothing_left(p.diff.removed@, gone);
        lemma_nothing_left(p.diff.modified_identity@, change);
        lemma_nothing_left(p.diff.modified_params@, change);
    }
}

/// A reload that could not be read changes nothing but what is known of the
/// file; one that could counts as one more and supersedes a settle deadline.
/// Neither touches the running configuration, the connections, what is
/// switched off or what waits for the engine.
pub proof fn law_only_a_parsed_file_is_a_reload(
    before: EngineDriver,
    trigger: ReloadTrigger,
    at: WallTime,
    parsed: Option<Parsed>,
    post_fail_meta: Option<FileMeta>,
    step: ReloadStep,
    after: EngineDriver,
)
    requires
        reload_decided(before, trigger, at, parsed, post_fail_meta, step, after),
    ensures
        step is Apply <==> parsed is Some,
        after.config_settle_until is None,
        after.loader.current_config == before.loader.current_config,
        after.loader.current_log == before.loader.current_log,
        after.disabled_runtime == before.disabled_runtime,
        after.ipc == before.ipc,
        after.actuator_io == before.actuator_io,
        after.first_term == before.first_term,
        after.deferred_inputs == before.deferred_inputs,
        after.config_path == before.config_path,
        after.hard_exit_window == before.hard_exit_window,
        parsed is None ==> {
            &&& after.driver_state == before.driver_state
            &&& post_fail_meta matches Some(meta) ==> after.loader.config_meta == meta
            &&& post_fail_meta is None ==> after.loader.config_meta == before.loader.config_meta
        },
        parsed is Some ==> {
            &&& after.loader.config_meta == before.loader.config_meta
            &&& before.driver_state.reload_count < u64::MAX ==> after.driver_state.reload_count
                == before.driver_state.reload_count + 1
            &&& after.driver_state.last_reload matches Some(last) && last.at == at && last.via
                == trigger
            &&& after.driver_state.start_instant == before.driver_state.start_instant
            &&& after.driver_state.start_wall == before.driver_state.start_wall
        },
{
}

/// A reload sets the level that the file asks for, where that is another than
/// the one in use, and asks for a restart exactly where the file names another
/// place for the log: another kind of place, or another path.
pub proof fn law_a_reload_reads_the_log_block(
    before: EngineDriver,
    trigger: ReloadTrigger,
    at: WallTime,
    p: Parsed,
    post_fail_meta: Option<FileMeta>,
    step: ReloadStep,
    after: EngineDriver,
    level_set: bool,
    end: EngineDriver,
)
    requires
        reload_decided(before, trigger, at, Some(p), post_fail_meta, step, after),
        step matches ReloadStep::Apply { pending, .. } ==> taken_on(
            after,
            pending,
            level_set,
            end,
        ),
    ensures
        ({
            let running = before.loader.current_log;
            let applied = end.loader.current_log;
            &&& step matches ReloadStep::Apply { set_level, restart_to_move_log, .. } && {
                &&& p.log is None ==> set_level is None && !restart_to_move_log
                &&& p.log matches Some(r) ==> {
                    &&& set_level is Some <==> r.level != running.level
                    &&& set_level matches Some(level) ==> level == r.level
                    &&& restart_to_move_log <==> (r.destination != running.destination
                        || text::opt(r.path) != text::opt(running.path))
                }
            }
            &&& applied.destination == running.destination
            &&& text::opt(applied.path) == text::opt(running.path)
            &&& p.log matches Some(r) ==> (level_set ==> applied.level == r.level)
            &&& p.log is None || !level_set ==> applied.level == running.level
        }),
        end.loader.current_config == p.config,
        end.loader.config_meta == p.meta,
{
}

/// Whether `after` is `before` once it took on what was pending, where the log
/// level could be set or not as `level_set` says.
pub open spec fn taken_on(
    before: EngineDriver,
    pending: PendingReload,
    level_set: bool,
    after: EngineDriver,
) -> bool {
    &&& after.loader.current_config == pending.config()
    &&& after.loader.config_meta == pending.meta()
    &&& log_after(before.loader.current_log, pending.log(), level_set, after.loader.current_log)
    &&& after.disabled_runtime@ == still_declared(
        before.disabled_runtime@,
        pending.config().watches@,
    )
    &&& after == (EngineDriver {
        loader: after.loader,
        disabled_runtime: after.disabled_runtime,
        ..before
    })
}

/// What a reload takes on is what was read, and what is switched off stays so
/// exactly where the new file still declares it. Connections, deadlines and
/// waiting inputs are left as they are.
pub proof fn law_a_reload_takes_on_what_was_read(
    before: EngineDriver,
    pending: PendingReload,
    level_set: bool,
    after: EngineDriver,
    name: Seq<char>,
)
    requires
        taken_on(before, pending, level_set, after),
    ensures
        after.loader.current_config == pending.config(),
        after.loader.config_meta == pending.meta(),
        after.disabled_runtime@.contains(name) <==> before.disabled_runtime@.contains(name) && (
        exists|i: int|
            0 <= i < pending.config().watches@.len() && (
            #[trigger] pending.config().watches@[i]).name@ == name),
        after.ipc == before.ipc,
        after.driver_state == before.driver_state,
        after.first_term == before.first_term,
        after.deferred_inputs == before.deferred_inputs,
        after.config_settle_until == before.config_settle_until,
        after.actuator_io == before.actuator_io,
{
}

impl EngineDriver {
    /// Lets the settle deadline pass where its time has come.
    pub fn apply_config_settle_expiry(&mut self, now: MonoTime) -> (step: SettleStep)
        requires
            old(self).wf(),
        ensures
            final(self).wf(),
            step == settle_step(old(self).config_settle_until, now),
            *final(self) == (EngineDriver {
                config_settle_until: settle_left(old(self).config_settle_until, now),
                ..*old(self)
            }),
    {
        match self.config_settle_until {
            None => SettleStep::Wait,
            Some(deadline) => {
                if now.nanos < deadline.nanos {
                    SettleStep::Wait
                } else {
                    self.config_settle_until = None;
                    SettleStep::CheckFile
                }
            },
        }
    }

    /// Puts the settle deadline off to `settle` nanoseconds from `now` where
    /// the file may have changed.
    pub fn arm_config_settle(&mut self, pulse: bool, now: MonoTime, settle: u64)
        requires
            old(self).wf(),
            pulse ==> now.nanos + settle <= u64::MAX,
        ensures
            final(self).wf(),
            *final(self) == (EngineDriver {
                config_settle_until: settle_armed(
                    old(self).config_settle_until,
                    pulse,
                    now,
                    settle,
                ),
                ..*old(self)
            }),
    {
        if pulse {
            self.config_settle_until = Some(MonoTime { nanos: now.nanos + settle });
        }
    }

    /// Whether the file is another than the one looked at last. One that
    /// cannot be looked at is.
    pub fn config_meta_changed(&self, found: Option<FileMeta>) -> (changed: bool)
        ensures
            changed == drifted(self.loader.config_meta, found),
    {
        match found {
            Some(meta) => meta != self.loader.config_meta,
            None => true,
        }
    }

    /// Decides what a reload changes. `parsed` is what the file holds, where
    /// it could be read and parsed; else `post_fail_meta` is its state, where
    /// that could be had. Only a parsed file counts as a reload.
    pub fn dispatch_reload(
        &mut self,
        trigger: ReloadTrigger,
        at: WallTime,
        parsed: Option<Parsed>,
        post_fail_meta: Option<FileMeta>,
    ) -> (step: ReloadStep)
        requires
            old(self).wf(),
        ensures
            final(self).wf(),
            reload_decided(*old(self), trigger, at, parsed, post_fail_meta, step, *final(self)),
            parsed matches Some(p) ==> step_carries(p.diff, old(self).disabled_runtime@, step),
    {
        self.config_settle_until = None;
        match parsed {
            None => {
                if let Some(meta) = post_fail_meta {
                    self.loader.rotate_meta_only(meta);
                }
                ReloadStep::Keep
            },
            Some(p) => {
                self.driver_state.record_reload(trigger, at);
                let (set_level, restart_to_move_log): (Option<LogLevel>, bool) = self.plan_log(
                    &p.log,
                );
                let kept = self.compute_watch_diff(p.diff);
                let ghost shown = kept;
                assert(without_disabled(p.diff, old(self).disabled_runtime@, shown));
                let diff: Option<WatchDiff> = if kept.is_empty() {
                    None
                } else {
                    Some(kept)
                };
                let pending = PendingReload { config: p.config, meta: p.meta, log: p.log };
                let step = ReloadStep::Apply { set_level, restart_to_move_log, diff, pending };
                proof {
                    law_a_reload_carries_every_wanted_change(
                        *old(self),
                        trigger,
                        at,
                        p,
                        post_fail_meta,
                        step,
                        *self,
                    );
                }
                step
            },
        }
    }

    /// What a requested log configuration asks for.
    fn plan_log(&self, requested: &Option<LogConfig>) -> (plan: (Option<LogLevel>, bool))
        ensures
            plan.0 == level_change(self.loader.current_log, *requested),
            plan.1 == (*requested matches Some(r) && !same_place(r, self.loader.current_log)),
    {
        let running = &self.loader.current_log;
        match requested {
            None => (None, false),
            Some(r) => {
                let set_level: Option<LogLevel> = if r.level == running.level {
                    None
                } else {
                    Some(r.level)
                };
                let moved: bool = r.destination != running.destination || !same_opt(
                    &r.path,
                    &running.path,
                );
                (set_level, moved)
            },
        }
    }

    /// How the daemon logs after a reload, where the level could be set or not
    /// as `level_set` says.
    pub fn apply_log_reload(&self, requested: &Option<LogConfig>, level_set: bool) -> (applied:
        LogConfig)
        ensures
            log_after(self.loader.current_log, *requested, level_set, applied),
    {
        let running = &self.loader.current_log;
        let level: LogLevel = match requested {
            Some(r) => if level_set {
                r.level
            } else {
                running.level
            },
            None => running.level,
        };
        LogConfig {
            level,
            destination: running.destination,
            path: text::clone_opt(&running.path),
        }
    }

    /// Drops from a change everything about watches that an operator switched
    /// off: the engine is to stay as the operator left it.
    pub fn compute_watch_diff(&self, diff: WatchDiff) -> (kept: WatchDiff)
        requires
            self.disabled_runtime.wf(),
        ensures
            without_disabled(diff, self.disabled_runtime@, kept),
    {
        let mut kept = diff;
        retain_changes(&mut kept.added, &self.disabled_runtime);
        retain_changes(&mut kept.modified_identity, &self.disabled_runtime);
        retain_changes(&mut kept.modified_params, &self.disabled_runtime);
        retain_names(&mut kept.removed, &self.disabled_runtime);
        kept
    }

    /// Forgets that an operator switched off a watch which the configuration
    /// does not declare any more.
    pub fn prune_disabled_runtime_against_current_config(&mut self)
        requires
            old(self).wf(),
        ensures
            final(self).wf(),
            final(self).disabled_runtime@ == still_declared(
                old(self).disabled_runtime@,
                old(self).loader.current_config.watches@,
            ),
            *final(self) == (EngineDriver {
                disabled_runtime: final(self).disabled_runtime,
                ..*old(self)
            }),
    {
        let ghost watches = self.loader.current_config.watches@;
        let ghost start = self.disabled_runtime@;
        let mut i: usize = 0;
        while i < self.disabled_runtime.names.len()
            invariant
                self.wf(),
                watches == self.loader.current_config.watches@,
                i <= self.disabled_runtime.names@.len(),
                *self == (EngineDriver { disabled_runtime: self.disabled_runtime, ..*old(self) }),
                forall|j: int|
                    0 <= j < i ==> config::declared(
                        watches,
                        (#[trigger] self.disabled_runtime.names@[j])@,
                    ),
                self.disabled_runtime@.subset_of(start),
                forall|n: Seq<char>|
                    start.contains(n) && config::declared(watches, n) ==> (
                    #[trigger] self.disabled_runtime@.contains(n)),
            decreases self.disabled_runtime.names@.len() - i,
        {
            let ghost names = self.disabled_runtime.names@;
            if self.loader.current_config.declares(self.disabled_runtime.names[i].as_str()) {
                i = i + 1;
            } else {
                self.disabled_runtime.remove_at(i);
                assert forall|j: int| 0 <= j < i implies config::declared(
                    watches,
                    (#[trigger] self.disabled_runtime.names@[j])@,
                ) by {
                    assert(self.disabled_runtime.names@[j] == names[j]);
                }
            }
        }
        proof {
            assert forall|n: Seq<char>| self.disabled_runtime@.contains(n) <==> still_declared(
                start,
                watches,
            ).contains(n) by {
                if self.disabled_runtime@.contains(n) {
                    let j = choose|j: int|
                        0 <= j < self.disabled_runtime.names@.len() && (
                        #[trigger] self.disabled_runtime.names@[j])@ == n;
                    assert(config::declared(watches, self.disabled_runtime.names@[j]@));
                }
            }
            assert(self.disabled_runtime@ =~= still_declared(start, watches));
        }
    }

    /// Takes on the new configuration once the engine has its change, where
    /// the log level could be set or not as `level_set` says, and the driver
    /// goes on as `flow` says.
    pub fn finish_reload(
        &mut self,
        pending: PendingReload,
        level_set: bool,
        flow: Flow,
    ) -> (outcome: Flow)
        requires
            old(self).wf(),
        ensures
            final(self).wf(),
            outcome == flow,
            taken_on(*old(self), pending, level_set, *final(self)),
            outcome is Break <==> flow is Break,
            final(self).loader.current_config == pending.config(),
    {
        let log = self.apply_log_reload(&pending.log, level_set);
        self.loader.rotate_apply(pending.config, log, pending.meta);
        self.prune_disabled_runtime_against_current_config();
        flow
    }
}

/// The names that the configuration still declares.
pub open spec fn still_declared(
    names: Set<Seq<char>>,
    watches: Seq<WatchSpec>,
) -> Set<Seq<char>> {
    names.filter(|n: Seq<char>| config::declared(watches, n))
}

} // verus!
