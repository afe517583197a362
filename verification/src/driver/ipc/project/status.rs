//! The `status` verb: the daemon at a glance.

use vstd::prelude::*;
use crate::driver::state;
use crate::driver::state::{DriverState, LastReload};
use crate::ipc::protocol::{StatusResponse, WireLastReload};
use crate::model::config;
use crate::model::config::Config;
use crate::model::engine::EngineView;
use crate::names::NameSet;
use crate::time::{MonoTime, NANOS_PER_SEC};

verus! {

/// The most recent reload as the wire carries it.
pub open spec fn wire_reload(last: Option<LastReload>) -> Option<WireLastReload> {
    match last {
        None => None,
        Some(l) => Some(WireLastReload { at: l.at, via: state::wire_trigger(l.via) }),
    }
}

/// Whether `response` is the answer to `status` at the moment `now`. Every
/// subscription counts, also those that discovery minted.
pub open spec fn answers(
    response: StatusResponse,
    view: EngineView,
    ds: DriverState,
    disabled: Set<Seq<char>>,
    config: Config,
    config_path: Seq<char>,
    now: MonoTime,
) -> bool {
    &&& response.uptime_secs == now.spec_since(ds.start_instant) / NANOS_PER_SEC as nat
    &&& response.start_wall == ds.start_wall
    &&& response.reload_count == ds.reload_count
    &&& response.last_reload == wire_reload(ds.last_reload)
    &&& response.sub_total == view.subs@.len()
    &&& response.sub_disabled_toml == config::off_count(config.watches@)
    &&& response.sub_disabled_runtime == disabled.len()
    &&& response.profile_active == view.profile_active
    &&& response.promoter_active == view.promoter_active
    &&& response.config_path@ == config_path
    &&& response.socket_path@ == ds.socket_path@
}

/// The status tells each fact as it is: whole seconds since the start, never
/// rounded up; every subscription; each watch that the configuration switches
/// off and each name that an operator did, one by one; and the last reload by
/// its own name and moment.
pub proof fn law_status_tells_each_fact(
    response: StatusResponse,
    view: EngineView,
    ds: DriverState,
    disabled: Set<Seq<char>>,
    config: Config,
    config_path: Seq<char>,
    now: MonoTime,
)
    requires
        answers(response, view, ds, disabled, config, config_path, now),
    ensures
        now.nanos >= ds.start_instant.nanos ==> response.uptime_secs * 1_000_000_000 <= now.nanos
            - ds.start_instant.nanos < (response.uptime_secs + 1) * 1_000_000_000,
        now.nanos < ds.start_instant.nanos ==> response.uptime_secs == 0,
        response.start_wall == ds.start_wall,
        response.reload_count == ds.reload_count,
        response.sub_total == view.subs@.len(),
        response.sub_disabled_toml == config.watches@.filter(
            |w: config::WatchSpec| !w.enabled,
        ).len(),
        response.sub_disabled_runtime == disabled.len(),
        response.profile_active == view.profile_active,
        response.promoter_active == view.promoter_active,
        response.config_path@ == config_path,
        response.socket_path@ == ds.socket_path@,
        response.last_reload is Some <==> ds.last_reload is Some,
        ds.last_reload matches Some(l) ==> response.last_reload->0.at == l.at
            && response.last_reload->0.via == state::wire_trigger(l.via),
{
    config::law_off_watches_are_counted_one_by_one(
        config.watches@,
        config::WatchSpec { name: arbitrary(), enabled: true },
    );
}

/// Answers `status` at the moment `now`.
pub fn status(
    view: &EngineView,
    ds: &DriverState,
    disabled_runtime: &NameSet,
    config: &Config,
    config_path: &str,
    now: MonoTime,
) -> (response: StatusResponse)
    requires
        disabled_runtime.wf(),
    ensures
        answers(response, *view, *ds, disabled_runtime@, *config, config_path@, now),
        response.sub_disabled_toml == config.watches@.filter(
            |w: config::WatchSpec| !w.enabled,
        ).len(),
{
    proof {
        crate::names::law_name_set_counts_each_name_once(*disabled_runtime);
    }
    StatusResponse {
        uptime_secs: now.saturating_since(ds.start_instant) / NANOS_PER_SEC,
        start_wall: ds.start_wall,
        reload_count: ds.reload_count,
        last_reload: match ds.last_reload {
            None => None,
            Some(l) => Some(WireLastReload::from(l)),
        },
        sub_total: view.subs.len(),
        sub_disabled_toml: config.count_off(),
        sub_disabled_runtime: disabled_runtime.len(),
        profile_active: view.profile_active,
        promoter_active: view.promoter_active,
        config_path: config_path.to_owned(),
        socket_path: ds.socket_path.clone(),
    }
}

} // verus!
