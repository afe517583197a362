//! What a request line asks for.
//!
//! The surrounding program parses the line and hands the verb in. It gets a
//! plan back: an answer to encode and queue, or work for the engine to be done
//! before the answer.

use vstd::prelude::*;
use vstd::string::StringExecFns;
use crate::driver::ipc::conns;
use crate::driver::ipc::conns::{ConnRole, ConnState, MissedWindow};
use crate::driver::ipc::hub;
use crate::driver::ipc::hub::{EnqueueOutcome, Hub, NoSuchConn, ReadOutcome};
use crate::driver::ipc::lines;
use crate::driver::ipc::project;
use crate::driver::ipc::project::{list, show, status};
use crate::driver::EngineDriver;
use crate::ids::{ProfileId, SubId};
use crate::ipc::framing;
use crate::ipc::protocol;
use crate::ipc::protocol::{ResponsePayload, WireErrorCode, WireRequest};
use crate::model::config::WatchSpec;
use crate::model::engine;
use crate::model::engine::{EngineView, SubRecord};
use crate::model::input::{Flow, Input};
use crate::time::MonoTime;

verus! {

/// Longest time to absorb changes, in milliseconds: ten years of 365 days.
pub const MAX_ABSORB_WINDOW_MS: u64 = 10 * 365 * 24 * 60 * 60 * 1000;

/// What a request asks for.
#[derive(Debug)]
pub enum VerbPlan {
    /// This answer.
    Answer(ResponsePayload),
    /// The acknowledgement of a stream, queued by
    /// [`EngineDriver::commit_subscribe`].
    Subscribe { filter: Option<SubId> },
    /// This input for the engine, its output forwarded, then the answer that
    /// all is well.
    Step(Input),
    /// A reload, then the answer that all is well.
    Reload,
}

/// Whether the plan is to refuse for this reason.
pub open spec fn refuses(plan: VerbPlan, code: WireErrorCode, error: Seq<char>) -> bool {
    plan matches VerbPlan::Answer(ResponsePayload::Refusal { code: c, error: e }) && c == code && e@
        == error
}

/// Whether the plan is to refuse, in whatever words.
pub open spec fn refused_as(plan: VerbPlan, code: WireErrorCode) -> bool {
    plan matches VerbPlan::Answer(ResponsePayload::Refusal { code: c, .. }) && c == code
}

/// A refusal.
fn refuse(code: WireErrorCode, error: &str) -> (plan: VerbPlan)
    ensures
        refuses(plan, code, error@),
{
    VerbPlan::Answer(ResponsePayload::Refusal { code, error: error.to_owned() })
}

/// The reason to refuse an unknown name.
pub open spec fn unknown_text(name: Seq<char>) -> Seq<char> {
    "no watch named "@ + name
}

/// A refusal of an unknown name.
fn refuse_unknown(name: &str) -> (plan: VerbPlan)
    ensures
        refuses(plan, WireErrorCode::UnknownSub, unknown_text(name@)),
{
    let mut error: String = "no watch named ".to_owned();
    error.append(name);
    refuse(WireErrorCode::UnknownSub, error.as_str())
}

/// What switching a watch off comes to: the subscription to detach, or the
/// class of the refusal.
pub open spec fn disable_verdict(
    subs: Seq<SubRecord>,
    disabled: Set<Seq<char>>,
    name: Seq<char>,
) -> Result<SubId, WireErrorCode> {
    match engine::named(subs, name) {
        None => Err(WireErrorCode::UnknownSub),
        Some(sub) => if sub.spec_is_dynamic() {
            Err(WireErrorCode::DynamicSubNoOp)
        } else if disabled.contains(name) {
            Err(WireErrorCode::NotDisabled)
        } else {
            Ok(sub.id)
        },
    }
}

/// What switching a watch on again comes to: the place of the watch to attach,
/// or the class of the refusal.
pub open spec fn enable_verdict(
    watches: Seq<WatchSpec>,
    disabled: Set<Seq<char>>,
    name: Seq<char>,
) -> Result<int, WireErrorCode> {
    if !disabled.contains(name) {
        Err(WireErrorCode::NotDisabled)
    } else if exists|i: int|
        0 <= i < watches.len() && (#[trigger] watches[i]).enabled && watches[i].name@ == name {
        Ok(first_active(watches, name))
    } else {
        Err(WireErrorCode::TomlDisabled)
    }
}

/// The place of the first enabled watch of that name.
pub open spec fn first_active(watches: Seq<WatchSpec>, name: Seq<char>) -> int {
    choose|i: int|
        {
            &&& 0 <= i < watches.len()
            &&& (#[trigger] watches[i]).enabled
            &&& watches[i].name@ == name
            &&& forall|j: int|
                0 <= j < i ==> !((#[trigger] watches[j]).enabled && watches[j].name@ == name)
        }
}

/// What absorbing the next change comes to: the profile, or the class of the
/// refusal.
pub open spec fn absorb_verdict(
    subs: Seq<SubRecord>,
    name: Seq<char>,
) -> Result<ProfileId, WireErrorCode> {
    match engine::named(subs, name) {
        None => Err(WireErrorCode::UnknownSub),
        Some(sub) => if sub.spec_is_dynamic() {
            Err(WireErrorCode::DynamicSubNoOp)
        } else {
            Ok(sub.profile)
        },
    }
}

/// The time to absorb, at most [`MAX_ABSORB_WINDOW_MS`].
pub open spec fn absorb_window(duration_ms: Option<u64>) -> Option<u64> {
    match duration_ms {
        None => None,
        Some(ms) => Some(
            if ms <= MAX_ABSORB_WINDOW_MS {
                ms
            } else {
                MAX_ABSORB_WINDOW_MS
            },
        ),
    }
}

/// Why a watch that discovery minted cannot be switched off.
pub open spec fn dynamic_disable_text() -> Seq<char> {
    "cannot disable a discovery-minted sub (the next reconcile would re-mint it; disable the template instead)"@
}

/// Why changes of a watch that discovery minted cannot be absorbed.
pub open spec fn dynamic_absorb_text() -> Seq<char> {
    "cannot absorb on a discovery-minted sub (minted Subs vanish and re-mint with the match set; target an operator-declared sub)"@
}

/// Why a watch stays off although nobody switched it off any more.
pub open spec fn toml_disabled_text() -> Seq<char> {
    "runtime override cleared, but the watch is not active in the current TOML (enabled = false or removed); edit config and reload to re-attach"@
}

/// Whether `plan` is what switching the watch off comes to.
pub open spec fn disables(
    plan: VerbPlan,
    subs: Seq<SubRecord>,
    disabled: Set<Seq<char>>,
    name: Seq<char>,
) -> bool {
    match disable_verdict(subs, disabled, name) {
        Ok(sub) => plan == VerbPlan::Step(Input::DetachSub(sub)),
        Err(code) => refuses(
            plan,
            code,
            match code {
                WireErrorCode::UnknownSub => unknown_text(name),
                WireErrorCode::DynamicSubNoOp => dynamic_disable_text(),
                _ => "already disabled at runtime"@,
            },
        ),
    }
}

/// Whether `plan` is what switching the watch on again comes to.
pub open spec fn enables(
    plan: VerbPlan,
    watches: Seq<WatchSpec>,
    disabled: Set<Seq<char>>,
    name: Seq<char>,
) -> bool {
    match enable_verdict(watches, disabled, name) {
        Ok(place) => plan matches VerbPlan::Step(Input::AttachSub { watch }) && watch == place,
        Err(code) => refuses(
            plan,
            code,
            if code == WireErrorCode::NotDisabled {
                "not disabled at runtime"@
            } else {
                toml_disabled_text()
            },
        ),
    }
}

/// Whether `plan` is what absorbing the next change comes to.
pub open spec fn absorbs(
    plan: VerbPlan,
    subs: Seq<SubRecord>,
    name: Seq<char>,
    duration_ms: Option<u64>,
) -> bool {
    match absorb_verdict(subs, name) {
        Ok(profile) => plan == VerbPlan::Step(
            Input::ArmAbsorb { profile, duration_ms: absorb_window(duration_ms) },
        ),
        Err(code) => refuses(
            plan,
            code,
            if code == WireErrorCode::UnknownSub {
                unknown_text(name)
            } else {
                dynamic_absorb_text()
            },
        ),
    }
}

/// Whether `plan` is what a request to stream diagnostics comes to.
pub open spec fn subscribes(
    plan: VerbPlan,
    streaming: bool,
    subs: Seq<SubRecord>,
    name: Option<Seq<char>>,
) -> bool {
    if streaming {
        refuses(plan, WireErrorCode::AlreadySubscribed, "conn already in subscribe mode"@)
    } else {
        match name {
            None => plan == (VerbPlan::Subscribe { filter: None }),
            Some(n) => match engine::named(subs, n) {
                None => refuses(plan, WireErrorCode::UnknownSub, unknown_text(n)),
                Some(sub) => plan == (VerbPlan::Subscribe { filter: Some(sub.id) }),
            },
        }
    }
}

/// The line of an answer that holds nothing but a verdict.
pub open spec fn verdict_line(answer: ResponsePayload) -> Option<Seq<char>> {
    match answer {
        ResponsePayload::Done => Some(framing::ok_line()),
        ResponsePayload::Refusal { code, error } => Some(framing::err_line(code, error@)),
        _ => None,
    }
}

/// Encodes an answer that holds nothing but a verdict; the others are left to
/// the surrounding program.
pub fn encode_verdict(answer: &ResponsePayload) -> (line: Option<String>)
    ensures
        crate::text::opt(line) == verdict_line(*answer),
{
    match answer {
        ResponsePayload::Done => Some(framing::encode_ok_line()),
        ResponsePayload::Refusal { code, error } => Some(
            framing::encode_err_line(*code, error.as_str()),
        ),
        _ => None,
    }
}

/// The line without its line feed.
pub fn request_body(line: &[u8]) -> (body: &[u8])
    requires
        lines::is_line(line@),
    ensures
        body@ == line@.drop_last(),
{
    let body: &[u8] = line.split_at(line.len() - 1).0;
    assert(body@ =~= line@.drop_last());
    body
}

/// Whether `plan` is what a line asks for.
pub open spec fn planned(
    driver: EngineDriver,
    token: usize,
    request: Result<WireRequest, String>,
    view: EngineView,
    now: MonoTime,
    plan: VerbPlan,
) -> bool {
    let ds = driver.driver_state;
    let disabled = driver.disabled_runtime@;
    let config = driver.loader.current_config;
    match request {
        Err(e) => refuses(plan, WireErrorCode::Malformed, "json parse: "@ + e@),
        Ok(r) => if driver.first_term is Some && r.spec_is_mutating() {
            refuses(
                plan,
                WireErrorCode::ShuttingDown,
                "daemon shutting down; mutating verbs refused"@,
            )
        } else {
            match r {
                WireRequest::Status => {
                    plan matches VerbPlan::Answer(ResponsePayload::Status(response))
                        && status::answers(
                        response,
                        view,
                        ds,
                        disabled,
                        config,
                        driver.config_path@,
                        now,
                    )
                },
                WireRequest::List => {
                    plan matches VerbPlan::Answer(ResponsePayload::List(response))
                        && list::answers(response, view, ds, disabled, config)
                },
                WireRequest::Show { name } => {
                    plan matches VerbPlan::Answer(ResponsePayload::Show(response))
                        && show::answers(response, view, ds, disabled, config, name@)
                },
                WireRequest::Subscribe { name } => subscribes(
                    plan,
                    driver.streaming(token),
                    view.subs@,
                    crate::text::opt(name),
                ),
                WireRequest::Reload => plan is Reload,
                WireRequest::Disable { name } => disables(plan, view.subs@, disabled, name@),
                WireRequest::Enable { name } => enables(plan, config.watches@, disabled, name@),
                WireRequest::Absorb { name, duration_ms } => absorbs(
                    plan,
                    view.subs@,
                    name@,
                    duration_ms,
                ),
            }
        },
    }
}

/// What becomes of an encoded line.
#[derive(Clone, Copy, Debug, PartialEq, Eq, Structural)]
pub enum Delivery {
    /// It is queued.
    Answer,
    /// It is queued, and a stream through `filter` starts behind it.
    Stream { filter: Option<SubId> },
}

/// What becomes of the line of a plan that only reads.
pub open spec fn delivery_of(plan: VerbPlan) -> Option<Delivery> {
    match plan {
        VerbPlan::Answer(_) => Some(Delivery::Answer),
        VerbPlan::Subscribe { filter } => Some(Delivery::Stream { filter }),
        VerbPlan::Step(_) | VerbPlan::Reload => None,
    }
}

/// Whether `next` is what a delivered line leaves of `conn`.
pub open spec fn delivered_to(
    conn: ConnState,
    delivery: Delivery,
    line: Seq<u8>,
    next: ConnState,
) -> bool {
    let fits = conn.write_queue@.len() + line.len() <= conns::ACCEPT_CAP;
    match delivery {
        Delivery::Stream { filter } if fits => {
            &&& next.token == conn.token
            &&& next.read_buf == conn.read_buf
            &&& next.write_queue@ == conn.write_queue@ + line
            &&& next.close_after_flush == conn.close_after_flush
            &&& next.role == (ConnRole::Sub { filter, missed: MissedWindow::Closed })
        },
        _ => hub::answered(conn, line, next),
    }
}

/// Whether `after` is `before` with a line delivered to the connection of
/// `token`, where there is one.
pub open spec fn delivered(
    before: EngineDriver,
    token: usize,
    delivery: Delivery,
    line: Seq<u8>,
    after: EngineDriver,
) -> bool {
    &&& after == (EngineDriver { ipc: after.ipc, ..before })
    &&& after.ipc.next_conn_token == before.ipc.next_conn_token
    &&& if before.ipc@.conns.contains_key(token) {
        &&& after.ipc@.conns == before.ipc@.conns.insert(token, after.ipc@.conns[token])
        &&& delivered_to(before.ipc@.conns[token], delivery, line, after.ipc@.conns[token])
    } else {
        after.ipc@.conns == before.ipc@.conns
    }
}

/// Whether a verb whose work ended as `flow` says is answered, and the driver
/// goes on as `outcome` says.
pub open spec fn verb_finished(
    before: EngineDriver,
    token: usize,
    flow: Flow,
    outcome: Flow,
    after: EngineDriver,
) -> bool {
    &&& outcome == flow
    &&& delivered(
        before,
        token,
        Delivery::Answer,
        framing::bytes(framing::ok_line()),
        after,
    )
}

/// A verb whose work is done is answered, also where that work ended the
/// driver, and answering it neither ends the driver nor keeps it going.
pub proof fn law_done_work_is_answered(
    before: EngineDriver,
    token: usize,
    flow: Flow,
    outcome: Flow,
    after: EngineDriver,
)
    requires
        verb_finished(before, token, flow, outcome, after),
    ensures
        outcome is Break <==> flow is Break,
        before.ipc@.conns.contains_key(token) ==> {
            let conn = before.ipc@.conns[token];
            let next = after.ipc@.conns[token];
            let line = framing::bytes("{\"kind\":\"ok\"}\n"@);
            &&& conn.write_queue@.len() + line.len() <= conns::ACCEPT_CAP ==> next.write_queue@
                == conn.write_queue@ + line
            &&& next.role == conn.role
        },
        after.disabled_runtime == before.disabled_runtime,
        after.loader == before.loader,
{
}

/// The connections that are left once the work on what was read is done.
pub open spec fn read_finished(
    hub: Hub,
    token: usize,
    outcome: Result<ReadOutcome, NoSuchConn>,
) -> Map<usize, ConnState> {
    if outcome == Ok::<ReadOutcome, NoSuchConn>(ReadOutcome::Continue) && !hub.idle(token) {
        hub@.conns
    } else {
        hub@.conns.remove(token)
    }
}

/// A connection goes after it was read exactly where its peer is gone or it
/// waited for nothing but its end; until then it stays, and every other stays
/// as it is.
pub proof fn law_a_connection_stays_while_its_peer_does(
    hub: Hub,
    token: usize,
    outcome: Result<ReadOutcome, NoSuchConn>,
    other: usize,
)
    requires
        outcome is Err ==> !hub@.conns.contains_key(token),
    ensures
        read_finished(hub, token, outcome).contains_key(token) <==> hub@.conns.contains_key(token)
            && outcome->Ok_0 is Continue && !(hub@.conns[token].close_after_flush
            && hub@.conns[token].write_queue@.len() == 0),
        other != token || read_finished(hub, token, outcome).contains_key(token) ==> read_finished(
            hub,
            token,
            outcome,
        ).contains_key(other) == hub@.conns.contains_key(other) && read_finished(
            hub,
            token,
            outcome,
        )[other] == hub@.conns[other],
{
}

/// Switching a watch off goes by the record of its name that was registered
/// last: the engine is asked to detach that very subscription exactly where it
/// is declared and not yet off, and each refusal tells which of these fails.
pub proof fn law_disabling_detaches_the_named_subscription(
    plan: VerbPlan,
    subs: Seq<SubRecord>,
    disabled: Set<Seq<char>>,
    name: Seq<char>,
    i: int,
)
    requires
        disables(plan, subs, disabled, name),
    ensures
        (forall|j: int| 0 <= j < subs.len() ==> (#[trigger] subs[j]).name@ != name) ==> refuses(
            plan,
            WireErrorCode::UnknownSub,
            "no watch named "@ + name,
        ),
        0 <= i < subs.len() && subs[i].name@ == name && (forall|j: int|
            i < j < subs.len() ==> (#[trigger] subs[j]).name@ != name) ==> {
            &&& subs[i].minted_by is Some ==> refused_as(plan, WireErrorCode::DynamicSubNoOp)
            &&& subs[i].minted_by is None && disabled.contains(name) ==> refused_as(plan, WireErrorCode::NotDisabled)
            &&& subs[i].minted_by is None && !disabled.contains(name) ==> plan == VerbPlan::Step(
                Input::DetachSub(subs[i].id),
            )
        },
{
    engine::lemma_named_iff_present(subs, name);
    if 0 <= i < subs.len() && subs[i].name@ == name && (forall|j: int|
        i < j < subs.len() ==> (#[trigger] subs[j]).name@ != name) {
        engine::lemma_last_is_named(subs, i, name);
    }
}

/// Switching a watch on attaches the first enabled watch of that name, exactly
/// where it was switched off and the file has one.
pub proof fn law_enabling_attaches_the_first_watch_of_the_name(
    plan: VerbPlan,
    watches: Seq<WatchSpec>,
    disabled: Set<Seq<char>>,
    name: Seq<char>,
    i: int,
)
    requires
        enables(plan, watches, disabled, name),
    ensures
        !disabled.contains(name) ==> refused_as(plan, WireErrorCode::NotDisabled),
        disabled.contains(name) && (forall|j: int|
            0 <= j < watches.len() && (#[trigger] watches[j]).enabled ==> watches[j].name@ != name)
            ==> refused_as(plan, WireErrorCode::TomlDisabled),
        disabled.contains(name) && 0 <= i < watches.len() && watches[i].enabled && watches[i].name@
            == name && (forall|j: int|
            0 <= j < i && (#[trigger] watches[j]).enabled ==> watches[j].name@ != name) ==> (
        plan matches VerbPlan::Step(Input::AttachSub { watch }) && watch == i),
{
    if disabled.contains(name) && 0 <= i < watches.len() && watches[i].enabled && watches[i].name@
        == name && (forall|j: int|
        0 <= j < i && (#[trigger] watches[j]).enabled ==> watches[j].name@ != name) {
        assert(watches[i].enabled);
        let place = first_active(watches, name);
        assert(watches[place].enabled && watches[place].name@ == name);
        if place < i {
            assert(watches[place].name@ != name);
        } else if i < place {
            assert(!(watches[i].enabled && watches[i].name@ == name));
        }
    }
}

/// Absorbing is armed on the profile of the subscription that was registered
/// last of the name, for the time that was asked for, cut to ten years of 365
/// days; without a time there is no end.
pub proof fn law_absorbing_arms_the_profile_of_the_name(
    plan: VerbPlan,
    subs: Seq<SubRecord>,
    name: Seq<char>,
    duration_ms: Option<u64>,
    i: int,
)
    requires
        absorbs(plan, subs, name, duration_ms),
    ensures
        (forall|j: int| 0 <= j < subs.len() ==> (#[trigger] subs[j]).name@ != name) ==> refuses(
            plan,
            WireErrorCode::UnknownSub,
            "no watch named "@ + name,
        ),
        0 <= i < subs.len() && subs[i].name@ == name && (forall|j: int|
            i < j < subs.len() ==> (#[trigger] subs[j]).name@ != name) ==> {
            &&& subs[i].minted_by is Some ==> refused_as(plan, WireErrorCode::DynamicSubNoOp)
            &&& subs[i].minted_by is None ==> {
                let bound: int = 315_360_000_000;
                &&& plan matches VerbPlan::Step(Input::ArmAbsorb { profile, duration_ms: window })
                &&& profile == subs[i].profile
                &&& window is None <==> duration_ms is None
                &&& duration_ms matches Some(ms) ==> {
                    &&& window->0 <= ms
                    &&& window->0 <= bound
                    &&& window->0 == ms || window->0 == bound
                }
            }
        },
{
    engine::lemma_named_iff_present(subs, name);
    if 0 <= i < subs.len() && subs[i].name@ == name && (forall|j: int|
        i < j < subs.len() ==> (#[trigger] subs[j]).name@ != name) {
        engine::lemma_last_is_named(subs, i, name);
    }
}

/// A stream is refused exactly where there already is one or the name is
/// unknown; else it shows everything where no name was given, and exactly the
/// subscription that was registered last of the name where one was.
pub proof fn law_a_stream_shows_what_was_asked_for(
    plan: VerbPlan,
    streaming: bool,
    subs: Seq<SubRecord>,
    name: Option<Seq<char>>,
    i: int,
)
    requires
        subscribes(plan, streaming, subs, name),
    ensures
        streaming ==> refused_as(plan, WireErrorCode::AlreadySubscribed),
        !streaming && name is None ==> plan == (VerbPlan::Subscribe { filter: None }),
        !streaming && name is Some && (forall|j: int|
            0 <= j < subs.len() ==> (#[trigger] subs[j]).name@ != name->0) ==> refuses(
            plan,
            WireErrorCode::UnknownSub,
            "no watch named "@ + name->0,
        ),
        !streaming && name is Some && 0 <= i < subs.len() && subs[i].name@ == name->0 && (forall|
            j: int,
        |
            i < j < subs.len() ==> (#[trigger] subs[j]).name@ != name->0) ==> (
        plan matches VerbPlan::Subscribe { filter } && filter == Some(subs[i].id)),
{
    if let Some(n) = name {
        engine::lemma_named_iff_present(subs, n);
        if 0 <= i < subs.len() && subs[i].name@ == n && (forall|j: int|
            i < j < subs.len() ==> (#[trigger] subs[j]).name@ != n) {
            engine::lemma_last_is_named(subs, i, n);
        }
    }
}

/// Every verb gets its own kind of answer, and a line that is no request is
/// told what is wrong with it.
pub proof fn law_each_verb_gets_its_own_answer(
    driver: EngineDriver,
    token: usize,
    request: Result<WireRequest, String>,
    view: EngineView,
    now: MonoTime,
    plan: VerbPlan,
)
    requires
        planned(driver, token, request, view, now, plan),
    ensures
        request matches Err(e) ==> refuses(plan, WireErrorCode::Malformed, "json parse: "@ + e@),
        request matches Ok(r) ==> {
            &&& r is Status ==> plan is Answer && plan->Answer_0 is Status
            &&& r is List ==> plan is Answer && plan->Answer_0 is List
            &&& r is Show ==> plan is Answer && plan->Answer_0 is Show
            &&& plan is Subscribe ==> r is Subscribe
            &&& plan is Reload <==> r is Reload && driver.first_term is None
            &&& plan is Step ==> driver.first_term is None
            &&& plan is Step ==> (plan->Step_0 is DetachSub <==> r is Disable)
            &&& plan is Step ==> (plan->Step_0 is AttachSub <==> r is Enable)
            &&& plan is Step ==> (plan->Step_0 is ArmAbsorb <==> r is Absorb)
        },
{
}

/// What a line asks for can be told unless it asks for a moment that the wall
/// clock cannot name, or for a declared watch whose profile is not there. So
/// every other line can, and `list` wherever the last fire of each watch is no
/// later than the clock can name.
pub proof fn law_what_can_be_told(
    driver: EngineDriver,
    request: Result<WireRequest, String>,
    view: EngineView,
)
    ensures
        !(request is Ok && (request->Ok_0 is List || request->Ok_0 is Show)) ==> driver.can_answer(
            request,
            view,
        ),
        request is Ok && request->Ok_0 is List ==> (driver.can_answer(request, view) <==> forall|
            i: int,
        |
            #![trigger view.subs@[i]]
            0 <= i < view.subs@.len() ==> (view.subs@[i].history matches Some(h) ==> (
            h.last_fired_at matches Some(t) ==> t.nanos <= driver.driver_state.start_instant.nanos
                || driver.driver_state.start_wall.nanos + t.nanos
                - driver.driver_state.start_instant.nanos <= u64::MAX))),
        request matches Ok(WireRequest::Show { name }) ==> (engine::named(
            view.subs@,
            name@,
        ) is None ==> driver.can_answer(request, view)),
{
    assert forall|i: int|
        #![trigger view.subs@[i]]
        0 <= i < view.subs@.len() implies (project::fired_fits(view.subs@[i], driver.driver_state)
        <==> (view.subs@[i].history matches Some(h) ==> (h.last_fired_at matches Some(t) ==> t.nanos
        <= driver.driver_state.start_instant.nanos || driver.driver_state.start_wall.nanos + t.nanos
        - driver.driver_state.start_instant.nanos <= u64::MAX))) by {}
}

/// Only the watch that a request names is switched, and only by the two verbs
/// for it: off where the engine is asked to detach it, on whatever becomes of
/// it. Once the process was asked to end nothing is.
pub proof fn law_only_the_named_watch_is_switched(
    driver: EngineDriver,
    request: Result<WireRequest, String>,
    plan: VerbPlan,
    other: Seq<char>,
)
    ensures
        ({
            let before = driver.disabled_runtime@.contains(other);
            let after = driver.off_after(request, plan).contains(other);
            &&& !before && after <==> !before && driver.first_term is None && plan is Step && (
            request matches Ok(WireRequest::Disable { name }) && name@ == other)
            &&& before && !after <==> before && driver.first_term is None && (
            request matches Ok(WireRequest::Enable { name }) && name@ == other)
        }),
{
}

/// What is delivered goes behind what is queued, whole or not at all, and only
/// to the connection it is for. A stream starts exactly with an acknowledgement
/// that fits, through the filter that was asked for and with nothing missed.
pub proof fn law_a_reply_goes_to_the_one_who_asked(
    before: EngineDriver,
    token: usize,
    delivery: Delivery,
    line: Seq<u8>,
    after: EngineDriver,
    other: usize,
)
    requires
        delivered(before, token, delivery, line, after),
        before.ipc@.conns.contains_key(token),
    ensures
        other != token ==> after.ipc@.conns.contains_key(other)
            == before.ipc@.conns.contains_key(other) && after.ipc@.conns[other]
            == before.ipc@.conns[other],
        after.ipc@.conns.contains_key(token),
        ({
            let conn = before.ipc@.conns[token];
            let next = after.ipc@.conns[token];
            let fits = conn.write_queue@.len() + line.len() <= conns::ACCEPT_CAP;
            &&& fits ==> next.write_queue@ == conn.write_queue@ + line && next.close_after_flush
                == conn.close_after_flush
            &&& !fits ==> next.close_after_flush && next.role == conn.role
            &&& delivery is Answer ==> next.role == conn.role
            &&& delivery is Stream && fits ==> next.role is Sub && next.role->filter
                == delivery->filter && next.role->missed is Closed
        }),
        after.disabled_runtime == before.disabled_runtime,
        after.first_term == before.first_term,
        after.loader == before.loader,
        after.deferred_inputs == before.deferred_inputs,
{
}

/// Whether two plans come to the same.
pub open spec fn same_plan(a: VerbPlan, b: VerbPlan) -> bool {
    match (a, b) {
        (VerbPlan::Answer(x), VerbPlan::Answer(y)) => protocol::same_answer(x, y),
        (VerbPlan::Subscribe { filter: x }, VerbPlan::Subscribe { filter: y }) => x == y,
        (VerbPlan::Step(x), VerbPlan::Step(y)) => x == y,
        (VerbPlan::Reload, VerbPlan::Reload) => true,
        _ => false,
    }
}

impl EngineDriver {
    /// Whether the connection of `token` streams diagnostics.
    pub open spec fn streaming(self, token: usize) -> bool {
        self.ipc@.conns.contains_key(token) && self.ipc@.conns[token].role is Sub
    }

    /// Whether what a line asks for can be told: the wall clock can name every
    /// moment of the answer, and the watch to be shown has its profile.
    pub open spec fn can_answer(
        self,
        request: Result<WireRequest, String>,
        view: EngineView,
    ) -> bool {
        match request {
            Ok(WireRequest::List) => project::clock_fits(view, self.driver_state),
            Ok(WireRequest::Show { name }) => match engine::named(view.subs@, name@) {
                None => true,
                Some(sub) => sub.spec_is_dynamic() || (project::fired_fits(
                    sub,
                    self.driver_state,
                ) && engine::keyed(view.profiles@, sub.profile) is Some),
            },
            _ => true,
        }
    }

    /// Whether what a line asks for can be told.
    pub fn answerable(&self, request: &Result<WireRequest, String>, view: &EngineView) -> (yes:
        bool)
        ensures
            yes == self.can_answer(*request, *view),
    {
        match request {
            Ok(WireRequest::List) => project::can_name_all(view, &self.driver_state),
            Ok(WireRequest::Show { name }) => match view.find_by_name(name.as_str()) {
                None => true,
                Some(sub) => sub.is_dynamic() || (project::can_name_fired(sub, &self.driver_state)
                    && view.profile(sub.profile).is_some()),
            },
            _ => true,
        }
    }

    /// The names that count as switched off once `plan` was made of a line.
    pub open spec fn off_after(
        self,
        request: Result<WireRequest, String>,
        plan: VerbPlan,
    ) -> Set<Seq<char>> {
        let disabled = self.disabled_runtime@;
        if self.first_term is Some {
            disabled
        } else {
            match request {
                Ok(WireRequest::Disable { name }) => if plan is Step {
                    disabled.insert(name@)
                } else {
                    disabled
                },
                Ok(WireRequest::Enable { name }) => disabled.remove(name@),
                _ => disabled,
            }
        }
    }

    /// What a parsed line asks for, or what to tell a client whose line could
    /// not be parsed (`Err` holds the parser's words). Once the process was
    /// asked to end, verbs that change what the daemon does are refused and
    /// the others go on.
    pub fn handle_ipc_line(
        &mut self,
        token: usize,
        request: Result<WireRequest, String>,
        view: &EngineView,
        now: MonoTime,
    ) -> (plan: VerbPlan)
        requires
            old(self).wf(),
            old(self).can_answer(request, *view),
        ensures
            final(self).wf(),
            *final(self) == (EngineDriver {
                disabled_runtime: final(self).disabled_runtime,
                ..*old(self)
            }),
            final(self).disabled_runtime@ == old(self).off_after(request, plan),
            planned(*old(self), token, request, *view, now, plan),
    {
        let request = match request {
            Ok(r) => r,
            Err(e) => {
                let mut error: String = "json parse: ".to_owned();
                error.append(e.as_str());
                return refuse(WireErrorCode::Malformed, error.as_str());
            },
        };
        if self.first_term.is_some() && request.is_mutating() {
            return refuse(
                WireErrorCode::ShuttingDown,
                "daemon shutting down; mutating verbs refused",
            );
        }
        match request {
            WireRequest::Status => VerbPlan::Answer(
                ResponsePayload::Status(
                    status::status(
                        view,
                        &self.driver_state,
                        &self.disabled_runtime,
                        &self.loader.current_config,
                        self.config_path.as_str(),
                        now,
                    ),
                ),
            ),
            WireRequest::List => VerbPlan::Answer(
                ResponsePayload::List(
                    list::list(
                        view,
                        &self.driver_state,
                        &self.disabled_runtime,
                        &self.loader.current_config,
                    ),
                ),
            ),
            WireRequest::Show { name } => VerbPlan::Answer(
                ResponsePayload::Show(
                    show::show(
                        view,
                        &self.driver_state,
                        &self.disabled_runtime,
                        &self.loader.current_config,
                        name.as_str(),
                    ),
                ),
            ),
            WireRequest::Subscribe { name } => self.handle_subscribe(token, &name, view),
            WireRequest::Reload => VerbPlan::Reload,
            WireRequest::Disable { name } => self.handle_disable(name, view),
            WireRequest::Enable { name } => self.handle_enable(name.as_str()),
            WireRequest::Absorb { name, duration_ms } => self.handle_absorb(
                name.as_str(),
                duration_ms,
                view,
            ),
        }
    }

    /// What a line asks for, or nothing where it cannot be told.
    pub fn try_handle_ipc_line(
        &mut self,
        token: usize,
        request: Result<WireRequest, String>,
        view: &EngineView,
        now: MonoTime,
    ) -> (plan: Option<VerbPlan>)
        requires
            old(self).wf(),
        ensures
            final(self).wf(),
            plan is Some <==> old(self).can_answer(request, *view),
            *final(self) == (EngineDriver {
                disabled_runtime: final(self).disabled_runtime,
                ..*old(self)
            }),
            match plan {
                Some(p) => {
                    &&& final(self).disabled_runtime@ == old(self).off_after(request, p)
                    &&& planned(*old(self), token, request, *view, now, p)
                },
                None => *final(self) == *old(self),
            },
    {
        if self.answerable(&request, view) {
            Some(self.handle_ipc_line(token, request, view, now))
        } else {
            None
        }
    }

    /// What a request to stream diagnostics asks for. A connection streams
    /// once.
    pub fn handle_subscribe(&self, token: usize, name: &Option<String>, view: &EngineView) -> (plan:
        VerbPlan)
        requires
            self.wf(),
        ensures
            subscribes(plan, self.streaming(token), view.subs@, crate::text::opt(*name)),
    {
        let streaming: bool = match self.ipc.conn_ref(token) {
            Some(conn) => conn.role.is_sub(),
            None => false,
        };
        if streaming {
            return refuse(WireErrorCode::AlreadySubscribed, "conn already in subscribe mode");
        }
        match name {
            None => VerbPlan::Subscribe { filter: None },
            Some(n) => match view.find_by_name(n.as_str()) {
                None => refuse_unknown(n.as_str()),
                Some(sub) => VerbPlan::Subscribe { filter: Some(sub.id) },
            },
        }
    }

    /// Queues the acknowledgement of a stream and, where it was queued, starts
    /// the stream: whatever is streamed comes behind it.
    pub fn commit_subscribe(
        &mut self,
        token: usize,
        filter: Option<SubId>,
        ack: &[u8],
    ) -> (outcome: EnqueueOutcome)
        requires
            old(self).wf(),
            !old(self).streaming(token),
        ensures
            final(self).wf(),
            outcome == hub::queue_outcome(old(self).ipc@.conns, token, ack@.len()),
            delivered(*old(self), token, Delivery::Stream { filter }, ack@, *final(self)),
    {
        let outcome: EnqueueOutcome = self.ipc.enqueue_response(token, ack);
        if let EnqueueOutcome::Accepted = outcome {
            let ghost queued = self.ipc@.conns;
            match self.ipc.conn_mut(token) {
                Some(conn) => {
                    conn.transition_to_sub(filter);
                },
                None => {},
            }
            assert(self.ipc@.conns =~= old(self).ipc@.conns.insert(token, self.ipc@.conns[token]));
        }
        outcome
    }

    /// What switching a watch off asks for. A watch that can be switched off
    /// counts as such from now on.
    pub fn handle_disable(&mut self, name: String, view: &EngineView) -> (plan: VerbPlan)
        requires
            old(self).wf(),
        ensures
            final(self).wf(),
            *final(self) == (EngineDriver {
                disabled_runtime: final(self).disabled_runtime,
                ..*old(self)
            }),
            disables(plan, view.subs@, old(self).disabled_runtime@, name@),
            final(self).disabled_runtime@ == (if plan is Step {
                old(self).disabled_runtime@.insert(name@)
            } else {
                old(self).disabled_runtime@
            }),
    {
        let sub = match view.find_by_name(name.as_str()) {
            Some(sub) => sub,
            None => {
                return refuse_unknown(name.as_str());
            },
        };
        if sub.is_dynamic() {
            return refuse(
                WireErrorCode::DynamicSubNoOp,
                "cannot disable a discovery-minted sub (the next reconcile would re-mint it; disable the template instead)",
            );
        }
        if self.disabled_runtime.contains(name.as_str()) {
            return refuse(WireErrorCode::NotDisabled, "already disabled at runtime");
        }
        let _ = self.disabled_runtime.insert(name);
        VerbPlan::Step(Input::DetachSub(sub.id))
    }

    /// What switching a watch on again asks for. It does not count as switched
    /// off from now on, even where the configuration keeps it off.
    pub fn handle_enable(&mut self, name: &str) -> (plan: VerbPlan)
        requires
            old(self).wf(),
        ensures
            final(self).wf(),
            *final(self) == (EngineDriver {
                disabled_runtime: final(self).disabled_runtime,
                ..*old(self)
            }),
            enables(
                plan,
                old(self).loader.current_config.watches@,
                old(self).disabled_runtime@,
                name@,
            ),
            final(self).disabled_runtime@ == old(self).disabled_runtime@.remove(name@),
    {
        if !self.disabled_runtime.remove(name) {
            return refuse(WireErrorCode::NotDisabled, "not disabled at runtime");
        }
        match self.loader.current_config.find_active_watch(name) {
            None => refuse(
                WireErrorCode::TomlDisabled,
                "runtime override cleared, but the watch is not active in the current TOML (enabled = false or removed); edit config and reload to re-attach",
            ),
            Some(watch) => {
                proof {
                    let watches = self.loader.current_config.watches@;
                    let place = first_active(watches, name@);
                    assert(watches[watch as int].enabled);
                    assert(watches[place].enabled && watches[place].name@ == name@);
                    if place < watch {
                        assert(false);
                    }
                    if watch < place {
                        assert(false);
                    }
                }
                VerbPlan::Step(Input::AttachSub { watch })
            },
        }
    }

    /// What absorbing the next change of a watch asks for.
    pub fn handle_absorb(&self, name: &str, duration_ms: Option<u64>, view: &EngineView) -> (plan:
        VerbPlan)
        ensures
            absorbs(plan, view.subs@, name@, duration_ms),
    {
        let sub = match view.find_by_name(name) {
            Some(sub) => sub,
            None => {
                return refuse_unknown(name);
            },
        };
        if sub.is_dynamic() {
            return refuse(
                WireErrorCode::DynamicSubNoOp,
                "cannot absorb on a discovery-minted sub (minted Subs vanish and re-mint with the match set; target an operator-declared sub)",
            );
        }
        let window: Option<u64> = match duration_ms {
            None => None,
            Some(ms) => Some(
                if ms <= MAX_ABSORB_WINDOW_MS {
                    ms
                } else {
                    MAX_ABSORB_WINDOW_MS
                },
            ),
        };
        VerbPlan::Step(Input::ArmAbsorb { profile: sub.profile, duration_ms: window })
    }

    /// Queues an answer; what becomes of it is the connection's affair.
    pub fn respond(&mut self, token: usize, line: &[u8])
        requires
            old(self).wf(),
        ensures
            final(self).wf(),
            delivered(*old(self), token, Delivery::Answer, line@, *final(self)),
    {
        let _ = self.ipc.enqueue_response(token, line);
    }

    /// Delivers the line of a plan that only reads. The driver goes on.
    pub fn deliver(&mut self, token: usize, delivery: Delivery, line: &[u8]) -> (flow: Flow)
        requires
            old(self).wf(),
            delivery is Stream ==> !old(self).streaming(token),
        ensures
            final(self).wf(),
            flow == Flow::Continue,
            delivered(*old(self), token, delivery, line@, *final(self)),
    {
        match delivery {
            Delivery::Answer => self.respond(token, line),
            Delivery::Stream { filter } => {
                let _ = self.commit_subscribe(token, filter, line);
            },
        }
        Flow::Continue
    }

    /// Answers a verb whose work is done that all is well, also where that work
    /// ended the driver as `flow` says.
    pub fn finish_verb(&mut self, token: usize, flow: Flow) -> (outcome: Flow)
        requires
            old(self).wf(),
        ensures
            final(self).wf(),
            verb_finished(*old(self), token, flow, outcome, *final(self)),
    {
        let line: String = framing::encode_ok_line();
        self.respond(token, line.as_str().as_bytes());
        flow
    }

    /// Ends the work on what was read from a connection: one whose peer is
    /// gone, or that is not there, is dropped; one that waits for nothing but
    /// its end as well.
    pub fn finish_read(&mut self, token: usize, outcome: Result<ReadOutcome, NoSuchConn>)
        requires
            old(self).wf(),
        ensures
            final(self).wf(),
            *final(self) == (EngineDriver { ipc: final(self).ipc, ..*old(self) }),
            final(self).ipc.next_conn_token == old(self).ipc.next_conn_token,
            final(self).ipc@.conns == read_finished(old(self).ipc, token, outcome),
    {
        match outcome {
            Ok(ReadOutcome::Continue) => {
                let _ = self.ipc.try_terminate_if_idle(token);
            },
            Ok(ReadOutcome::PeerGone) | Err(_) => {
                self.ipc.terminate_conn(token);
            },
        }
    }
}

} // verus!
