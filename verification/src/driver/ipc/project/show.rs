//! The `show` verb: everything about one watch an operator declared.

use vstd::prelude::*;
use crate::driver::ipc::project;
use crate::driver::ipc::project::program;
use crate::driver::state::DriverState;
use crate::ids::PromoterId;
use crate::ipc::protocol::{DisabledSource, ShowResponse, SubDetails};
use crate::model::config;
use crate::model::config::Config;
use crate::model::engine;
use crate::model::engine::{EngineView, MintSource, SubRecord};
use crate::names::NameSet;
use crate::text;

verus! {

/// How often the subscription fired; one without a history never did.
pub open spec fn fires(sub: SubRecord) -> u64 {
    match sub.history {
        Some(h) => h.fire_count,
        None => 0,
    }
}

/// How often a run of the subscription was found to be a repeat.
pub open spec fn repeats(sub: SubRecord) -> u64 {
    match sub.history {
        Some(h) => h.dedup_suppressed_count,
        None => 0,
    }
}

/// The promoter behind a subscription.
pub open spec fn promoter_of(sub: SubRecord) -> Option<PromoterId> {
    match sub.minted_by {
        Some(MintSource::Promoter(id)) => Some(id),
        _ => None,
    }
}

/// Whether `details` tell what the registries hold of the subscription.
pub open spec fn tells(
    details: SubDetails,
    sub: SubRecord,
    view: EngineView,
    ds: DriverState,
) -> bool {
    let profile = engine::keyed(view.profiles@, sub.profile)->0;
    &&& details.name@ == sub.name@
    &&& details.sub == sub.id
    &&& details.profile == sub.profile
    &&& details.state@ == profile.state@
    &&& text::opt(details.anchor) == text::opt(profile.anchor)
    &&& details.last_fired_at == project::fired_wall(sub, ds)
    &&& details.fire_count == fires(sub)
    &&& details.dedup_suppressed_count == repeats(sub)
    &&& details.settle_ms == sub.settle_ms
    &&& details.source_promoter == promoter_of(sub)
    &&& details.scope == sub.scope
    &&& program::rendered(sub.program.ops@, details.program@)
}

/// The details are those of the record, fact by fact: how often it fired is
/// not how often a run was a repeat, and one without a history did neither.
pub proof fn law_details_are_those_of_the_record(
    details: SubDetails,
    sub: SubRecord,
    view: EngineView,
    ds: DriverState,
)
    requires
        tells(details, sub, view, ds),
    ensures
        sub.history matches Some(h) ==> details.fire_count == h.fire_count
            && details.dedup_suppressed_count == h.dedup_suppressed_count,
        sub.history is None ==> details.fire_count == 0 && details.dedup_suppressed_count == 0
            && details.last_fired_at is None,
        sub.history matches Some(h) ==> (details.last_fired_at is Some <==> h.last_fired_at is Some),
        details.name@ == sub.name@,
        details.sub == sub.id,
        details.profile == sub.profile,
        details.settle_ms == sub.settle_ms,
        details.scope == sub.scope,
        sub.minted_by matches Some(MintSource::Promoter(id)) ==> details.source_promoter == Some(id),
        !(sub.minted_by matches Some(MintSource::Promoter(_))) ==> details.source_promoter is None,
        details.program@.len() == sub.program.ops@.len(),
        engine::keyed(view.profiles@, sub.profile) matches Some(p) ==> details.state@ == p.state@
            && text::opt(details.anchor) == text::opt(p.anchor),
{
}

/// What `show` answers goes by where the name stands: with the engine and
/// declared, its details; with the engine and minted, unknown; else switched
/// off by an operator, else by the configuration, else unknown. Each answer
/// gives the name back that was asked for.
pub proof fn law_show_goes_by_where_the_name_stands(
    response: ShowResponse,
    view: EngineView,
    ds: DriverState,
    disabled: Set<Seq<char>>,
    config: Config,
    name: Seq<char>,
)
    requires
        answers(response, view, ds, disabled, config, name),
    ensures
        response is Active <==> (engine::named(view.subs@, name) matches Some(sub)
            && sub.minted_by is None),
        response is Disabled <==> engine::named(view.subs@, name) is None && (disabled.contains(
            name,
        ) || exists|i: int|
            0 <= i < config.watches@.len() && (#[trigger] config.watches@[i]).name@ == name
                && !config.watches@[i].enabled),
        response matches ShowResponse::Disabled { source, .. } ==> (source
            == DisabledSource::Runtime <==> disabled.contains(name)),
        response matches ShowResponse::Active(details) ==> details.name@ == engine::named(
            view.subs@,
            name,
        )->0.name@,
        response matches ShowResponse::Disabled { name: n, .. } ==> n@ == name,
        response matches ShowResponse::Unknown { name: n } ==> n@ == name,
{
}

/// Whether `response` is the answer to `show name`. A subscription that
/// discovery minted is not addressed by this verb.
pub open spec fn answers(
    response: ShowResponse,
    view: EngineView,
    ds: DriverState,
    disabled: Set<Seq<char>>,
    config: Config,
    name: Seq<char>,
) -> bool {
    match engine::named(view.subs@, name) {
        Some(sub) => if sub.spec_is_dynamic() {
            response matches ShowResponse::Unknown { name: n } && n@ == name
        } else {
            response matches ShowResponse::Active(details) && tells(details, sub, view, ds)
        },
        None => if disabled.contains(name) {
            response matches ShowResponse::Disabled { name: n, source } && n@ == name && source
                == DisabledSource::Runtime
        } else if config::switched_off(config.watches@, name) {
            response matches ShowResponse::Disabled { name: n, source } && n@ == name && source
                == DisabledSource::Toml
        } else {
            response matches ShowResponse::Unknown { name: n } && n@ == name
        },
    }
}

/// Answers `show name`. An attached watch that an operator declared has a live
/// profile.
pub fn show(
    view: &EngineView,
    ds: &DriverState,
    disabled_runtime: &NameSet,
    config: &Config,
    name: &str,
) -> (response: ShowResponse)
    requires
        disabled_runtime.wf(),
        engine::named(view.subs@, name@) matches Some(sub) ==> sub.spec_is_dynamic() || (
        project::fired_fits(sub, *ds) && engine::keyed(view.profiles@, sub.profile) is Some),
    ensures
        answers(response, *view, *ds, disabled_runtime@, *config, name@),
{
    if let Some(sub) = view.find_by_name(name) {
        if !sub.is_dynamic() {
            return ShowResponse::Active(project_details(sub, view, ds));
        }
        return ShowResponse::Unknown { name: name.to_owned() };
    }
    if disabled_runtime.contains(name) {
        return ShowResponse::Disabled { name: name.to_owned(), source: DisabledSource::Runtime };
    }
    if config.switches_off(name) {
        return ShowResponse::Disabled { name: name.to_owned(), source: DisabledSource::Toml };
    }
    ShowResponse::Unknown { name: name.to_owned() }
}

/// Everything about an attached watch.
pub fn project_details(sub: &SubRecord, view: &EngineView, ds: &DriverState) -> (details: SubDetails)
    requires
        project::fired_fits(*sub, *ds),
        engine::keyed(view.profiles@, sub.profile) is Some,
    ensures
        tells(details, *sub, *view, *ds),
        sub.history matches Some(h) ==> details.fire_count == h.fire_count
            && details.dedup_suppressed_count == h.dedup_suppressed_count,
        sub.history is None ==> details.fire_count == 0 && details.dedup_suppressed_count == 0,
{
    let profile = view.profile(sub.profile).unwrap();
    let (fire_count, dedup_suppressed_count): (u64, u64) = match sub.history {
        Some(h) => (h.fire_count, h.dedup_suppressed_count),
        None => (0, 0),
    };
    SubDetails {
        name: sub.name.clone(),
        sub: sub.id,
        profile: sub.profile,
        state: profile.state.clone(),
        anchor: text::clone_opt(&profile.anchor),
        last_fired_at: project::last_fired_wall(sub, ds),
        fire_count,
        dedup_suppressed_count,
        settle_ms: sub.settle_ms,
        source_promoter: match sub.minted_by {
            Some(MintSource::Promoter(id)) => Some(id),
            _ => None,
        },
        scope: sub.scope,
        program: program::render(&sub.program),
    }
}

} // verus!
