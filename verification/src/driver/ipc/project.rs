//! What the read-only verbs answer, computed from the engine's registries and
//! the driver's own state.

use vstd::prelude::*;
use crate::driver::state::DriverState;
use crate::model::engine::{EngineView, SubRecord};
use crate::time::{MonoTime, WallTime};

pub mod list;
pub mod program;
pub mod show;
pub mod status;

verus! {

/// Whether the wall clock can name the moment `t` of the monotonic clock.
pub open spec fn wall_fits(start_wall: WallTime, start_instant: MonoTime, t: MonoTime) -> bool {
    start_wall.nanos + t.spec_since(start_instant) <= u64::MAX
}

/// The wall-clock reading of the moment `t` of the monotonic clock: as long
/// after the start as `t` is.
pub open spec fn wall_at(start_wall: WallTime, start_instant: MonoTime, t: MonoTime) -> WallTime {
    WallTime { nanos: (start_wall.nanos + t.spec_since(start_instant)) as u64 }
}

/// A moment after the start is as far from it by the wall clock as by the
/// monotonic one, and two such moments are as far from each other; one before
/// the start counts as the start.
pub proof fn law_the_clocks_run_alike(
    start_wall: WallTime,
    start_instant: MonoTime,
    t: MonoTime,
    later: MonoTime,
)
    requires
        wall_fits(start_wall, start_instant, later),
        t.nanos <= later.nanos,
    ensures
        wall_fits(start_wall, start_instant, t),
        t.nanos >= start_instant.nanos ==> wall_at(start_wall, start_instant, t).nanos
            - start_wall.nanos == t.nanos - start_instant.nanos,
        t.nanos >= start_instant.nanos ==> wall_at(start_wall, start_instant, later).nanos
            - wall_at(start_wall, start_instant, t).nanos == later.nanos - t.nanos,
        t.nanos < start_instant.nanos ==> wall_at(start_wall, start_instant, t) == start_wall,
{
}

/// The last time a subscription fired is told exactly where there was one, by
/// the wall clock.
pub proof fn law_the_last_fire_is_told(sub: SubRecord, ds: DriverState)
    ensures
        fired_wall(sub, ds) is Some <==> (sub.history matches Some(h) && h.last_fired_at is Some),
        sub.history matches Some(h) ==> (h.last_fired_at matches Some(t) ==> fired_wall(sub, ds)
            == Some(wall_at(ds.start_wall, ds.start_instant, t))),
{
}

/// Translates a reading of the monotonic clock into one of the wall clock.
pub fn project_wall(start_wall: WallTime, start_instant: MonoTime, t: MonoTime) -> (wall: WallTime)
    requires
        wall_fits(start_wall, start_instant, t),
    ensures
        wall == wall_at(start_wall, start_instant, t),
        wall.nanos == start_wall.nanos + t.spec_since(start_instant),
{
    WallTime { nanos: start_wall.nanos + t.saturating_since(start_instant) }
}

/// Whether the wall clock can name the last time the subscription fired.
pub open spec fn fired_fits(sub: SubRecord, ds: DriverState) -> bool {
    sub.history matches Some(h) ==> (h.last_fired_at matches Some(t) ==> wall_fits(
        ds.start_wall,
        ds.start_instant,
        t,
    ))
}

/// Whether the wall clock can name the last time any subscription fired.
pub open spec fn clock_fits(view: EngineView, ds: DriverState) -> bool {
    forall|i: int| 0 <= i < view.subs@.len() ==> fired_fits(#[trigger] view.subs@[i], ds)
}

/// Whether the wall clock can name the last time the subscription fired.
pub fn can_name_fired(sub: &SubRecord, ds: &DriverState) -> (yes: bool)
    ensures
        yes == fired_fits(*sub, *ds),
{
    match sub.history {
        None => true,
        Some(h) => match h.last_fired_at {
            None => true,
            Some(t) => ds.start_wall.nanos <= u64::MAX - t.saturating_since(ds.start_instant),
        },
    }
}

/// Whether the wall clock can name the last time any subscription fired.
pub fn can_name_all(view: &EngineView, ds: &DriverState) -> (yes: bool)
    ensures
        yes == clock_fits(*view, *ds),
{
    let mut i: usize = 0;
    while i < view.subs.len()
        invariant
            i <= view.subs@.len(),
            forall|j: int| 0 <= j < i ==> fired_fits(#[trigger] view.subs@[j], *ds),
        decreases view.subs@.len() - i,
    {
        if !can_name_fired(&view.subs[i], ds) {
            return false;
        }
        i = i + 1;
    }
    true
}

/// When the subscription last fired, by the wall clock.
pub open spec fn fired_wall(sub: SubRecord, ds: DriverState) -> Option<WallTime> {
    match sub.history {
        None => None,
        Some(h) => match h.last_fired_at {
            None => None,
            Some(t) => Some(wall_at(ds.start_wall, ds.start_instant, t)),
        },
    }
}

/// When the subscription last fired, by the wall clock.
pub(crate) fn last_fired_wall(sub: &SubRecord, ds: &DriverState) -> (at: Option<WallTime>)
    requires
        fired_fits(*sub, *ds),
    ensures
        at == fired_wall(*sub, *ds),
{
    match sub.history {
        None => None,
        Some(h) => match h.last_fired_at {
            None => None,
            Some(t) => Some(project_wall(ds.start_wall, ds.start_instant, t)),
        },
    }
}

} // verus!
