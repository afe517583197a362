//! Facts about the process that the driver keeps for its whole life.

use vstd::prelude::*;
use crate::ipc::protocol::{WireLastReload, WireReloadTrigger};
use crate::time::{MonoTime, WallTime};

verus! {

/// What drove a reload of the configuration.
#[derive(Clone, Copy, Debug, PartialEq, Eq, Structural)]
pub enum ReloadTrigger {
    /// The hang-up signal.
    Sighup,
    /// The configuration file changed and came to rest.
    AutoReload,
    /// An operator asked.
    Ipc,
    /// The file changed while the daemon was starting.
    Startup,
}

/// The most recent successful reload.
#[derive(Clone, Copy, Debug, PartialEq, Eq, Structural)]
pub struct LastReload {
    pub at: WallTime,
    pub via: ReloadTrigger,
}

/// Facts about the process. The start is fixed; the two reload facts change
/// together, by [`DriverState::record_reload`].
#[derive(Debug)]
pub struct DriverState {
    pub start_instant: MonoTime,
    pub start_wall: WallTime,
    pub reload_count: u64,
    pub last_reload: Option<LastReload>,
    pub socket_path: String,
}

impl DriverState {
    /// The state at boot. The two clock readings are of one moment.
    pub fn new(socket_path: String, start_instant: MonoTime, start_wall: WallTime) -> (state: Self)
        ensures
            state.start_instant == start_instant,
            state.start_wall == start_wall,
            state.reload_count == 0,
            state.last_reload is None,
            state.socket_path == socket_path,
            state.wf(),
    {
        DriverState { start_instant, start_wall, reload_count: 0, last_reload: None, socket_path }
    }

    /// The last reload is known exactly where there was one.
    pub open spec fn wf(self) -> bool {
        self.reload_count > 0 <==> self.last_reload is Some
    }

    /// Records a successful reload, read off the wall clock at `at`.
    pub fn record_reload(&mut self, trigger: ReloadTrigger, at: WallTime)
        ensures
            recorded(*old(self), trigger, at, *final(self)),
            final(self).wf(),
    {
        self.reload_count = self.reload_count.saturating_add(1);
        self.last_reload = Some(LastReload { at, via: trigger });
    }
}

/// Whether `after` is `before` with one more reload on record.
pub open spec fn recorded(
    before: DriverState,
    trigger: ReloadTrigger,
    at: WallTime,
    after: DriverState,
) -> bool {
    &&& after.reload_count == if before.reload_count < u64::MAX {
        (before.reload_count + 1) as u64
    } else {
        u64::MAX
    }
    &&& after.last_reload == Some(LastReload { at, via: trigger })
    &&& after.start_instant == before.start_instant
    &&& after.start_wall == before.start_wall
    &&& after.socket_path == before.socket_path
}

/// Each reload counts as one, and the last of them is the one remembered: two
/// in a row count as two.
pub proof fn law_reloads_are_counted(
    start: DriverState,
    first: (ReloadTrigger, WallTime),
    between: DriverState,
    second: (ReloadTrigger, WallTime),
    end: DriverState,
)
    requires
        recorded(start, first.0, first.1, between),
        recorded(between, second.0, second.1, end),
        start.reload_count <= u64::MAX - 2,
    ensures
        between.reload_count == start.reload_count + 1,
        end.reload_count == start.reload_count + 2,
        end.last_reload matches Some(last) && last.via == second.0 && last.at == second.1,
        end.start_instant == start.start_instant,
        end.start_wall == start.start_wall,
        end.socket_path == start.socket_path,
{
}

/// The wire tells every trigger apart, and each by its own name.
pub proof fn law_the_wire_tells_triggers_apart(a: ReloadTrigger, b: ReloadTrigger)
    ensures
        wire_trigger(a) == wire_trigger(b) <==> a == b,
        wire_trigger(a) is Sighup <==> a is Sighup,
        wire_trigger(a) is Auto <==> a is AutoReload,
        wire_trigger(a) is Ipc <==> a is Ipc,
        wire_trigger(a) is Startup <==> a is Startup,
{
}

/// The wire's name for a trigger.
pub open spec fn wire_trigger(trigger: ReloadTrigger) -> WireReloadTrigger {
    match trigger {
        ReloadTrigger::Sighup => WireReloadTrigger::Sighup,
        ReloadTrigger::AutoReload => WireReloadTrigger::Auto,
        ReloadTrigger::Ipc => WireReloadTrigger::Ipc,
        ReloadTrigger::Startup => WireReloadTrigger::Startup,
    }
}

impl From<ReloadTrigger> for WireReloadTrigger {
    fn from(trigger: ReloadTrigger) -> (wire: Self) {
        match trigger {
            ReloadTrigger::Sighup => WireReloadTrigger::Sighup,
            ReloadTrigger::AutoReload => WireReloadTrigger::Auto,
            ReloadTrigger::Ipc => WireReloadTrigger::Ipc,
            ReloadTrigger::Startup => WireReloadTrigger::Startup,
        }
    }
}

impl vstd::std_specs::convert::FromSpecImpl<ReloadTrigger> for WireReloadTrigger {
    open spec fn obeys_from_spec() -> bool {
        true
    }

    open spec fn from_spec(trigger: ReloadTrigger) -> WireReloadTrigger {
        wire_trigger(trigger)
    }
}

impl From<LastReload> for WireLastReload {
    fn from(last: LastReload) -> (wire: Self) {
        WireLastReload { at: last.at, via: WireReloadTrigger::from(last.via) }
    }
}

impl vstd::std_specs::convert::FromSpecImpl<LastReload> for WireLastReload {
    open spec fn obeys_from_spec() -> bool {
        true
    }

    open spec fn from_spec(last: LastReload) -> WireLastReload {
        WireLastReload {
            at: last.at,
            via: wire_trigger(last.via),
        }
    }
}

} // verus!
