//! What holds across verbs, turns and reloads.

use vstd::prelude::*;
use crate::driver;
use crate::driver::forward;
use crate::driver::ipc::conns;
use crate::driver::ipc::conns::ConnState;
use crate::driver::ipc::dispatch;
use crate::driver::ipc::dispatch::VerbPlan;
use crate::driver::ipc::hub;
use crate::driver::ipc::hub::Hub;
use crate::driver::ipc::project::{list, show};
use crate::driver::reactor;
use crate::driver::reactor::DrainStep;
use crate::driver::reload;
use crate::driver::reload::{PendingReload, SettleStep};
use crate::driver::state::DriverState;
use crate::driver::EngineDriver;
use crate::ids::SubId;
use crate::ipc::protocol::{
    DisabledSource, ListResponse, ResponsePayload, ShowResponse, WireErrorCode, WireRequest,
};
use crate::model::config;
use crate::model::config::{Config, FileMeta, LogConfig, SubChange, WatchDiff, WatchSpec};
use crate::model::engine;
use crate::model::engine::{EngineView, SubRecord};
use crate::model::input::Input;
use crate::text;
use crate::time::{MonoTime, WallTime};

verus! {

/// Switching a watch off and on again leaves nothing switched off that was not
/// before, and attaches the watch of that name wherever the configuration has
/// it enabled.
pub proof fn law_enable_undoes_disable(
    subs: Seq<SubRecord>,
    watches: Seq<WatchSpec>,
    disabled: Set<Seq<char>>,
    name: Seq<char>,
)
    requires
        dispatch::disable_verdict(subs, disabled, name) is Ok,
    ensures
        disabled.insert(name).remove(name) == disabled,
        match dispatch::enable_verdict(watches, disabled.insert(name), name) {
            Ok(place) => {
                &&& 0 <= place < watches.len()
                &&& watches[place].enabled
                &&& watches[place].name@ == name
            },
            Err(code) => {
                &&& code == WireErrorCode::TomlDisabled
                &&& forall|i: int|
                    0 <= i < watches.len() ==> !((#[trigger] watches[i]).enabled
                        && watches[i].name@ == name)
            },
        },
{
    assert(!disabled.contains(name));
    assert(disabled.insert(name).remove(name) =~= disabled);
    if exists|i: int|
        0 <= i < watches.len() && (#[trigger] watches[i]).enabled && watches[i].name@ == name {
        lemma_first_active_exists(watches, name, watches.len() as int);
    }
}

/// Among the first `n` watches, where one is enabled and of that name, there
/// is a first such.
proof fn lemma_first_active_exists(watches: Seq<WatchSpec>, name: Seq<char>, n: int)
    requires
        0 <= n <= watches.len(),
        exists|i: int|
            0 <= i < n && (#[trigger] watches[i]).enabled && watches[i].name@ == name,
    ensures
        exists|i: int|
            {
                &&& 0 <= i < n
                &&& (#[trigger] watches[i]).enabled
                &&& watches[i].name@ == name
                &&& forall|j: int|
                    0 <= j < i ==> !((#[trigger] watches[j]).enabled && watches[j].name@ == name)
            },
    decreases n,
{
    let last = n - 1;
    if exists|i: int|
        0 <= i < last && (#[trigger] watches[i]).enabled && watches[i].name@ == name {
        lemma_first_active_exists(watches, name, last);
    } else {
        assert(watches[last].enabled);
    }
}

/// A watch that is switched off cannot be switched off again while its
/// subscription lasts, and one that is not cannot be switched on.
pub proof fn law_switching_twice_is_refused(
    subs: Seq<SubRecord>,
    watches: Seq<WatchSpec>,
    disabled: Set<Seq<char>>,
    name: Seq<char>,
)
    requires
        dispatch::disable_verdict(subs, disabled, name) is Ok,
    ensures
        dispatch::disable_verdict(subs, disabled.insert(name), name) == Err::<SubId, WireErrorCode>(
            WireErrorCode::NotDisabled,
        ),
        dispatch::enable_verdict(watches, disabled.insert(name).remove(name), name) == Err::<
            int,
            WireErrorCode,
        >(WireErrorCode::NotDisabled),
{
}

/// `show` and the verbs that change a watch see the same watches: what it
/// calls active can be absorbed, and switched off unless it already is; what
/// discovery minted is refused by all three.
pub proof fn law_shown_watches_can_be_changed(
    response: ShowResponse,
    view: EngineView,
    ds: DriverState,
    disabled: Set<Seq<char>>,
    config: Config,
    name: Seq<char>,
)
    requires
        show::answers(response, view, ds, disabled, config, name),
    ensures
        response is Active <==> dispatch::absorb_verdict(view.subs@, name) is Ok,
        response is Active && !disabled.contains(name) <==> dispatch::disable_verdict(
            view.subs@,
            disabled,
            name,
        ) is Ok,
        response is Disabled ==> dispatch::disable_verdict(view.subs@, disabled, name) == Err::<
            SubId,
            WireErrorCode,
        >(WireErrorCode::UnknownSub),
{
}

/// `show` and `list`, asked of the same state, tell the same of a name: an
/// active watch has a row with its details, a watch that is off has a row with
/// the reason, and an unknown name has a row only where discovery minted it.
pub proof fn law_show_and_list_agree(
    shown: ShowResponse,
    listed: ListResponse,
    view: EngineView,
    ds: DriverState,
    disabled: Set<Seq<char>>,
    config: Config,
    name: Seq<char>,
)
    requires
        show::answers(shown, view, ds, disabled, config, name),
        list::answers(listed, view, ds, disabled, config),
        engine::named(view.subs@, name) matches Some(sub) ==> sub.spec_is_dynamic()
            || engine::keyed(view.profiles@, sub.profile) is Some,
    ensures
        ({
            let rows = list::rows_by_name(listed.rows@);
            let row = rows[name];
            match shown {
                ShowResponse::Active(details) => {
                    &&& rows.contains_key(name)
                    &&& row.name == details.name@
                    &&& row.sub == Some(details.sub)
                    &&& row.profile == Some(details.profile)
                    &&& row.state == Some(details.state@)
                    &&& row.anchor == text::opt(details.anchor)
                    &&& row.last_fired_at == details.last_fired_at
                    &&& row.settle_ms == Some(details.settle_ms)
                    &&& row.disabled is None
                    &&& row.minted_by is None
                    &&& engine::named(view.subs@, name) matches Some(sub) && {
                        &&& row.fire_count is Some <==> sub.history is Some
                        &&& row.dedup_suppressed_count is Some <==> sub.history is Some
                        &&& sub.history is Some ==> row.fire_count == Some(details.fire_count)
                            && row.dedup_suppressed_count == Some(details.dedup_suppressed_count)
                    }
                },
                ShowResponse::Disabled { source, .. } => {
                    &&& rows.contains_key(name)
                    &&& row.disabled == Some(source)
                    &&& row.sub is None
                },
                ShowResponse::Unknown { .. } => {
                    rows.contains_key(name) ==> row.minted_by is Some
                },
            }
        }),
{
    engine::lemma_named_iff_present(view.subs@, name);
    let rows = list::rows_by_name(listed.rows@);
    let all = list::all_rows(view, ds, disabled, config.watches@);
    assert(rows == all);
    assert(all.contains_key(name) <==> engine::named(view.subs@, name) is Some
        || disabled.contains(name) || config::switched_off(config.watches@, name));
}

/// A watch that an operator switched off, once the engine let go of it, shows
/// as switched off by an operator, whatever the configuration says.
pub proof fn law_a_switched_off_watch_shows_as_such(
    response: ShowResponse,
    view: EngineView,
    ds: DriverState,
    disabled: Set<Seq<char>>,
    config: Config,
    name: Seq<char>,
)
    requires
        engine::named(view.subs@, name) is None,
        show::answers(response, view, ds, disabled.insert(name), config, name),
    ensures
        response matches ShowResponse::Disabled { name: n, source } && n@ == name && source
            == DisabledSource::Runtime,
{
}

/// A daemon that was asked to end answers what only reads exactly as one that
/// was not: whatever plan the one may make, the other may make, and any two
/// plans they make of the same line at the same moment say the same. Lines
/// that could not be parsed are among these.
pub proof fn law_a_pending_shutdown_leaves_reading_alone(
    calm: EngineDriver,
    ending: EngineDriver,
    token: usize,
    request: Result<WireRequest, String>,
    view: EngineView,
    now: MonoTime,
    first: VerbPlan,
    second: VerbPlan,
)
    requires
        ending == (EngineDriver { first_term: ending.first_term, ..calm }),
        !(request matches Ok(r) && r.spec_is_mutating()),
        dispatch::planned(calm, token, request, view, now, first),
        dispatch::planned(ending, token, request, view, now, second),
    ensures
        dispatch::planned(ending, token, request, view, now, first),
        dispatch::planned(calm, token, request, view, now, second),
        dispatch::same_plan(first, second),
        calm.off_after(request, first) == calm.disabled_runtime@,
        ending.off_after(request, second) == calm.disabled_runtime@,
{
    if let (
        VerbPlan::Answer(ResponsePayload::List(a)),
        VerbPlan::Answer(ResponsePayload::List(b)),
    ) = (first, second) {
        list::law_list_is_determined(
            a,
            b,
            view,
            calm.driver_state,
            calm.disabled_runtime@,
            calm.loader.current_config,
        );
    }
}

/// Whether two connections are the same but for where their bytes are kept.
pub open spec fn same_conn(a: ConnState, b: ConnState) -> bool {
    &&& a.token == b.token
    &&& a.read_buf@ == b.read_buf@
    &&& a.write_queue@ == b.write_queue@
    &&& a.role == b.role
    &&& a.close_after_flush == b.close_after_flush
}

/// A daemon that was asked to end serves what only reads exactly as one that
/// was not: it can answer the same lines, and once the reply to one is encoded
/// and delivered, the connection has the same bytes queued, the same role and
/// the same end before it, and so has every other connection. Streams may
/// start as before.
pub proof fn law_a_pending_shutdown_leaves_replies_alone(
    calm: EngineDriver,
    ending: EngineDriver,
    token: usize,
    request: Result<WireRequest, String>,
    view: EngineView,
    now: MonoTime,
    first: VerbPlan,
    second: VerbPlan,
    line: Seq<u8>,
    calm_after: EngineDriver,
    ending_after: EngineDriver,
)
    requires
        ending == (EngineDriver { first_term: ending.first_term, ..calm }),
        !(request matches Ok(r) && r.spec_is_mutating()),
        dispatch::planned(calm, token, request, view, now, first),
        dispatch::planned(ending, token, request, view, now, second),
        dispatch::delivery_of(first) matches Some(d) ==> dispatch::delivered(
            calm,
            token,
            d,
            line,
            calm_after,
        ),
        dispatch::delivery_of(second) matches Some(d) ==> dispatch::delivered(
            ending,
            token,
            d,
            line,
            ending_after,
        ),
    ensures
        calm.can_answer(request, view) == ending.can_answer(request, view),
        dispatch::delivery_of(first) is Some,
        dispatch::delivery_of(first) == dispatch::delivery_of(second),
        calm_after.first_term == calm.first_term,
        ending_after.first_term == ending.first_term,
        forall|t: usize| #[trigger]
            calm_after.ipc@.conns.contains_key(t) == ending_after.ipc@.conns.contains_key(t),
        forall|t: usize| #[trigger]
            calm_after.ipc@.conns.contains_key(t) ==> same_conn(
                calm_after.ipc@.conns[t],
                ending_after.ipc@.conns[t],
            ),
        first is Subscribe && calm.ipc@.conns.contains_key(token) && calm.ipc@.conns[token].write_queue@.len() + line.len()
            <= conns::ACCEPT_CAP ==> ending_after.streaming(token),
{
}

/// A daemon that was asked to end refuses every verb that would change what it
/// does, and nothing is switched on or off by one.
pub proof fn law_a_pending_shutdown_refuses_changes(
    ending: EngineDriver,
    token: usize,
    request: WireRequest,
    view: EngineView,
    now: MonoTime,
    plan: VerbPlan,
)
    requires
        ending.first_term is Some,
        request.spec_is_mutating(),
        dispatch::planned(ending, token, Ok(request), view, now, plan),
    ensures
        plan matches VerbPlan::Answer(ResponsePayload::Refusal { code, .. }) && code
            == WireErrorCode::ShuttingDown,
        ending.off_after(Ok(request), plan) == ending.disabled_runtime@,
{
}

/// A reload leaves a watch that an operator switched off as it is: nothing of
/// the change that the engine gets is about it.
pub proof fn law_reload_spares_what_is_switched_off(
    diff: WatchDiff,
    disabled: Set<Seq<char>>,
    kept: WatchDiff,
    i: int,
)
    requires
        reload::without_disabled(diff, disabled, kept),
    ensures
        0 <= i < kept.added@.len() ==> !disabled.contains(kept.added@[i].name@),
        0 <= i < kept.removed@.len() ==> !disabled.contains(kept.removed@[i]@),
        0 <= i < kept.modified_identity@.len() ==> !disabled.contains(
            kept.modified_identity@[i].name@,
        ),
        0 <= i < kept.modified_params@.len() ==> !disabled.contains(
            kept.modified_params@[i].name@,
        ),
{
    let change = |c: SubChange| !disabled.contains(c.name@);
    let gone = |n: String| !disabled.contains(n@);
    lemma_filtered_holds(diff.added@, change);
    lemma_filtered_holds(diff.removed@, gone);
    lemma_filtered_holds(diff.modified_identity@, change);
    lemma_filtered_holds(diff.modified_params@, change);
}

/// A reload loses nothing about the other watches, and nothing about dynamic
/// ones.
pub proof fn law_reload_keeps_all_else(
    diff: WatchDiff,
    disabled: Set<Seq<char>>,
    kept: WatchDiff,
    i: int,
)
    requires
        reload::without_disabled(diff, disabled, kept),
    ensures
        kept.promoters == diff.promoters,
        0 <= i < diff.added@.len() && !disabled.contains(diff.added@[i].name@)
            ==> kept.added@.contains(diff.added@[i]),
        0 <= i < diff.removed@.len() && !disabled.contains(diff.removed@[i]@)
            ==> kept.removed@.contains(diff.removed@[i]),
        0 <= i < diff.modified_identity@.len() && !disabled.contains(
            diff.modified_identity@[i].name@,
        ) ==> kept.modified_identity@.contains(diff.modified_identity@[i]),
        0 <= i < diff.modified_params@.len() && !disabled.contains(diff.modified_params@[i].name@)
            ==> kept.modified_params@.contains(diff.modified_params@[i]),
{
    let change = |c: SubChange| !disabled.contains(c.name@);
    let gone = |n: String| !disabled.contains(n@);
    lemma_filtered_holds(diff.added@, change);
    lemma_filtered_holds(diff.removed@, gone);
    lemma_filtered_holds(diff.modified_identity@, change);
    lemma_filtered_holds(diff.modified_params@, change);
}

/// A filter keeps what it is asked to keep and nothing else.
proof fn lemma_filtered_holds<A>(s: Seq<A>, pred: spec_fn(A) -> bool)
    ensures
        forall|i: int| 0 <= i < s.filter(pred).len() ==> pred(#[trigger] s.filter(pred)[i]),
        forall|i: int|
            0 <= i < s.len() && pred(#[trigger] s[i]) ==> s.filter(pred).contains(s[i]),
    decreases s.len(),
{
    reveal(Seq::filter);
    if s.len() > 0 {
        let front = s.drop_last();
        lemma_filtered_holds(front, pred);
        assert forall|i: int| 0 <= i < s.len() && pred(#[trigger] s[i]) implies s.filter(
            pred,
        ).contains(s[i]) by {
            if i < front.len() {
                assert(front[i] == s[i]);
                let p = choose|p: int|
                    0 <= p < front.filter(pred).len() && front.filter(pred)[p] == s[i];
                assert(s.filter(pred)[p] == s[i]);
            } else {
                assert(s.filter(pred)[front.filter(pred).len() as int] == s[i]);
            }
        }
    }
}

/// After a reload nothing counts as switched off that the configuration does
/// not declare, and nothing else is forgotten.
pub proof fn law_reload_forgets_only_what_is_gone(
    disabled: Set<Seq<char>>,
    watches: Seq<WatchSpec>,
    name: Seq<char>,
)
    ensures
        reload::still_declared(disabled, watches).contains(name) <==> disabled.contains(name) && (
        exists|i: int| 0 <= i < watches.len() && (#[trigger] watches[i]).name@ == name),
        reload::still_declared(disabled, watches).contains(name) <==> disabled.contains(name)
            && config::declared(watches, name),
{
}

/// A file that was taken on is not read again before it changes: looked at in
/// the state it was read in, it is no drift, and in any other it is.
pub proof fn law_a_file_taken_on_is_not_read_again(
    before: EngineDriver,
    pending: PendingReload,
    level_set: bool,
    after: EngineDriver,
    found: Option<FileMeta>,
)
    requires
        reload::taken_on(before, pending, level_set, after),
    ensures
        reload::drifted(after.loader.config_meta, found) <==> found != Some(pending.meta()),
{
}

/// The log never moves while the daemon runs, so that a reload asks for a
/// restart exactly where it names another place than the daemon was started
/// with: one that was named in between makes no difference.
pub proof fn law_the_log_stays_where_it_is(
    before: EngineDriver,
    pending: PendingReload,
    level_set: bool,
    after: EngineDriver,
    requested: LogConfig,
)
    requires
        reload::taken_on(before, pending, level_set, after),
    ensures
        reload::same_place(after.loader.current_log, before.loader.current_log),
        reload::same_place(requested, after.loader.current_log) <==> reload::same_place(
            requested,
            before.loader.current_log,
        ),
{
}

/// A changed file is looked at once per settle deadline: a deadline that went
/// off does not go off again.
pub proof fn law_a_settle_deadline_goes_off_once(
    deadline: Option<MonoTime>,
    first: MonoTime,
    second: MonoTime,
)
    requires
        reload::settle_step(deadline, first) == SettleStep::CheckFile,
    ensures
        reload::settle_step(reload::settle_left(deadline, first), second) == SettleStep::Wait,
{
}

/// A deadline that has not come stays, and goes off once it comes.
pub proof fn law_a_settle_deadline_is_not_missed(
    deadline: MonoTime,
    before: MonoTime,
    after: MonoTime,
)
    requires
        before.nanos < deadline.nanos <= after.nanos,
    ensures
        reload::settle_step(Some(deadline), before) == SettleStep::Wait,
        reload::settle_step(reload::settle_left(Some(deadline), before), after)
            == SettleStep::CheckFile,
{
}

/// The driver sleeps past no settle deadline: a poll that waits as long as it
/// may ends no later than the deadline.
pub proof fn law_the_driver_wakes_for_a_settle_deadline(
    deadline: MonoTime,
    engine_deadline: Option<MonoTime>,
    now: MonoTime,
)
    requires
        now.nanos <= deadline.nanos,
    ensures
        driver::sooner(engine_deadline, Some(deadline)) matches Some(t) && now.nanos + t.spec_since(
            now,
        ) <= deadline.nanos,
{
}

/// The places stand in ascending order, and are those of the flags that are
/// set.
proof fn lemma_active_places(flags: Seq<bool>)
    ensures
        forall|i: int, j: int|
            0 <= i < j < driver::active_places(flags).len() ==> #[trigger] driver::active_places(
                flags,
            )[i] < #[trigger] driver::active_places(flags)[j],
        forall|i: int|
            0 <= i < driver::active_places(flags).len() ==> 0
                <= #[trigger] driver::active_places(flags)[i] < flags.len()
                && flags[driver::active_places(flags)[i]],
        forall|p: int|
            0 <= p < flags.len() && #[trigger] flags[p] ==> driver::active_places(flags).contains(
                p,
            ),
    decreases flags.len(),
{
    if flags.len() > 0 {
        let front = flags.drop_last();
        let before = driver::active_places(front);
        let all = driver::active_places(flags);
        lemma_active_places(front);
        assert forall|i: int| 0 <= i < all.len() implies 0 <= #[trigger] all[i] < flags.len()
            && flags[all[i]] by {
            if i < before.len() {
                assert(all[i] == before[i]);
                assert(front[before[i]]);
            }
        }
        assert forall|i: int, j: int| 0 <= i < j < all.len() implies #[trigger] all[i]
            < #[trigger] all[j] by {
            assert(all[i] == before[i]);
            if j < before.len() {
                assert(all[j] == before[j]);
            }
        }
        assert forall|p: int| 0 <= p < flags.len() && #[trigger] flags[p] implies all.contains(
            p,
        ) by {
            if p < front.len() {
                assert(front[p]);
                let i = choose|i: int| 0 <= i < before.len() && before[i] == p;
                assert(all[i] == p);
            } else {
                assert(all[before.len() as int] == p);
            }
        }
    }
}

/// At boot every enabled watch of the configuration is attached once and no
/// other: the static ones in the order of the file, then the dynamic ones.
pub proof fn law_boot_attaches_the_enabled_watches(config: Config)
    ensures
        ({
            let inputs = driver::attach_inputs(config);
            &&& forall|k: int|
                0 <= k < inputs.len() ==> match #[trigger] inputs[k] {
                    Input::AttachSub { watch } => watch < config.watches@.len()
                        && config.watches@[watch as int].enabled,
                    Input::AttachPromoter { promoter } => promoter < config.promoters@.len()
                        && config.promoters@[promoter as int].enabled,
                    _ => false,
                }
            &&& forall|i: int, j: int|
                0 <= i < j < inputs.len() ==> match (#[trigger] inputs[i], #[trigger] inputs[j]) {
                    (Input::AttachSub { watch: a }, Input::AttachSub { watch: b }) => a < b,
                    (
                        Input::AttachPromoter { promoter: a },
                        Input::AttachPromoter { promoter: b },
                    ) => a < b,
                    (Input::AttachPromoter { .. }, Input::AttachSub { .. }) => false,
                    _ => true,
                }
            &&& forall|w: int|
                0 <= w < config.watches@.len() && (#[trigger] config.watches@[w]).enabled
                    ==> inputs.contains(Input::AttachSub { watch: w as usize })
            &&& forall|p: int|
                0 <= p < config.promoters@.len() && (#[trigger] config.promoters@[p]).enabled
                    ==> inputs.contains(Input::AttachPromoter { promoter: p as usize })
        }),
{
    let inputs = driver::attach_inputs(config);
    let subs = driver::active_places(driver::watch_flags(config));
    let promoters = driver::active_places(driver::promoter_flags(config));
    lemma_active_places(driver::watch_flags(config));
    lemma_active_places(driver::promoter_flags(config));
    assert(config.watches.len() == config.watches@.len());
    assert(config.promoters.len() == config.promoters@.len());
    assert(inputs.len() == subs.len() + promoters.len());
    assert forall|k: int| 0 <= k < inputs.len() implies inputs[k] == (if k < subs.len() {
        Input::AttachSub { watch: subs[k] as usize }
    } else {
        Input::AttachPromoter { promoter: promoters[k - subs.len()] as usize }
    }) by {}
    assert forall|w: int|
        0 <= w < config.watches@.len() && (
        #[trigger] config.watches@[w]).enabled implies inputs.contains(
        Input::AttachSub { watch: w as usize },
    ) by {
        assert(driver::watch_flags(config)[w]);
        let k = choose|k: int| 0 <= k < subs.len() && subs[k] == w;
        assert(inputs[k] == (Input::AttachSub { watch: w as usize }));
    }
    assert forall|p: int|
        0 <= p < config.promoters@.len() && (
        #[trigger] config.promoters@[p]).enabled implies inputs.contains(
        Input::AttachPromoter { promoter: p as usize },
    ) by {
        assert(driver::promoter_flags(config)[p]);
        let k = choose|k: int| 0 <= k < promoters.len() && promoters[k] == p;
        assert(inputs[subs.len() + k] == (Input::AttachPromoter { promoter: p as usize }));
    }
}

/// No connection is taken for one of the fixed sources: a report under its
/// token is about the connection alone.
pub proof fn law_no_connection_poses_as_a_fixed_source(hub: Hub, i: int)
    requires
        hub.wf(),
        0 <= i < hub.conns@.len(),
    ensures
        reactor::drain_step(hub.conns@[i].token) == DrainStep::Nothing,
        hub.conns@[i].token != reactor::TOKEN_WAKER,
        hub.conns@[i].token != reactor::TOKEN_LISTENER,
        hub.conns@[i].token >= hub::TOKEN_CONN_BASE,
{
}

/// Whatever is streamed to a connection comes behind what was queued before,
/// above all behind the acknowledgement of the stream.
pub proof fn law_the_acknowledgement_comes_first(
    conn: ConnState,
    offers: Seq<(Seq<u8>, Option<SubId>, WallTime)>,
    next: ConnState,
)
    requires
        forward::streamed(conn, offers, next),
    ensures
        conn.write_queue@.is_prefix_of(next.write_queue@),
{
    let states = choose|states: Seq<ConnState>|
        #[trigger] conns::offered(states, offers) && states[0] == conn && states.last() == next;
    lemma_queue_only_grows(states, offers, offers.len() as int);
}

/// Offers only add to the queue.
proof fn lemma_queue_only_grows(
    states: Seq<ConnState>,
    offers: Seq<(Seq<u8>, Option<SubId>, WallTime)>,
    n: int,
)
    requires
        conns::offered(states, offers),
        0 <= n <= offers.len(),
    ensures
        states[0].write_queue@.is_prefix_of(states[n].write_queue@),
    decreases n,
{
    let start = states[0].write_queue@;
    if n > 0 {
        lemma_queue_only_grows(states, offers, n - 1);
        let offer = offers[n - 1];
        let before = states[n - 1];
        let after = states[n - 1 + 1];
        assert(before.dispatched(offer.0, offer.1, offer.2, after));
        assert(after.write_queue@.take(before.write_queue@.len() as int)
            =~= before.write_queue@);
        assert(start =~= after.write_queue@.subrange(0, start.len() as int));
    } else {
        assert(start =~= start.subrange(0, start.len() as int));
    }
}

} // verus!
