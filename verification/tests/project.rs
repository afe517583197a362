use specter_bin::driver::ipc::project::list::list;
use specter_bin::driver::ipc::project::show::show;
use specter_bin::driver::ipc::project::status::status;
use specter_bin::driver::ipc::project::project_wall;
use specter_bin::driver::state::{DriverState, ReloadTrigger};
use specter_bin::ids::{ProfileId, PromoterId, SubId};
use specter_bin::ipc::protocol::{DisabledSource, ShowResponse, WireReloadTrigger};
use specter_bin::model::config::{Config, WatchSpec};
use specter_bin::model::engine::{
    EffectScope, EngineView, FireHistory, MintSource, ProfileRecord, ReactionKind, SubRecord,
};
use specter_bin::model::program::{
    ActionProgram, ArgPart, ArgTemplate, BranchTarget, ExecAction, ProgramOp, SpawnBody,
};
use specter_bin::names::NameSet;
use specter_bin::time::{MonoTime, WallTime};

const START: MonoTime = MonoTime { nanos: 10_000_000_000 };
const START_WALL: WallTime = WallTime { nanos: 1_700_000_000_000_000_000 };

fn fresh_state() -> DriverState {
    DriverState::new("/tmp/specter-test.sock".to_string(), START, START_WALL)
}

fn config_from_watches(watches: &[(&str, bool)]) -> Config {
    Config {
        watches: watches
            .iter()
            .map(|(name, enabled)| WatchSpec { name: name.to_string(), enabled: *enabled })
            .collect(),
        promoters: Vec::new(),
    }
}

fn empty_config() -> Config {
    config_from_watches(&[])
}

fn trivial_program() -> ActionProgram {
    ActionProgram {
        ops: vec![ProgramOp {
            body: SpawnBody::Exec(ExecAction {
                argv: vec![ArgTemplate { parts: vec![ArgPart::Literal("/bin/true".to_string())] }],
                timeout: None,
            }),
            on_ok: BranchTarget::Escape,
            on_failed: BranchTarget::Terminate,
        }],
    }
}

fn never_fired() -> FireHistory {
    FireHistory { last_fired_at: None, fire_count: 0, dedup_suppressed_count: 0 }
}

fn attached(id: u64, name: &str) -> SubRecord {
    SubRecord {
        id: SubId(id),
        name: name.to_string(),
        profile: ProfileId(id + 100),
        settle_ms: 250,
        reaction: ReactionKind::Spawn,
        history: Some(never_fired()),
        minted_by: None,
        scope: EffectScope::SubtreeRoot,
        program: trivial_program(),
    }
}

fn view_of(subs: Vec<SubRecord>) -> EngineView {
    let profiles = subs
        .iter()
        .map(|s| ProfileRecord {
            id: s.profile,
            state: "Idle".to_string(),
            anchor: Some(format!("/tmp/{}", s.name)),
        })
        .collect();
    EngineView { subs, profiles, profile_active: 0, promoter_active: 0 }
}

fn view_with(config: &Config) -> EngineView {
    let subs = config
        .watches
        .iter()
        .enumerate()
        .filter(|(_, w)| w.enabled)
        .map(|(i, w)| attached(i as u64 + 1, &w.name))
        .collect();
    view_of(subs)
}

fn no_engine() -> EngineView {
    view_of(Vec::new())
}

fn names_of(names: &[&str]) -> NameSet {
    let mut set = NameSet::new();
    for name in names {
        set.insert(name.to_string());
    }
    set
}

#[test]
fn list_unions_engine_disabled_runtime_toml() {
    let config = config_from_watches(&[("attached_a", true), ("toml_off", false)]);
    let view = view_with(&config);
    let disabled = names_of(&["runtime_off"]);

    let resp = list(&view, &fresh_state(), &disabled, &config);

    assert_eq!(
        resp.rows.len(),
        3,
        "one attached, one runtime-disabled, one toml-disabled — got {}",
        resp.rows.len(),
    );
    let names: Vec<_> = resp.rows.iter().map(|r| r.name.as_str()).collect();
    assert_eq!(names, vec!["attached_a", "runtime_off", "toml_off"]);

    let attached = &resp.rows[0];
    assert!(attached.disabled.is_none(), "engine row carries no disabled");
    assert!(attached.state.is_some(), "engine row carries state");
    assert!(attached.sub.is_some(), "engine row carries SubId");

    let runtime = &resp.rows[1];
    assert_eq!(runtime.disabled, Some(DisabledSource::Runtime));
    assert!(runtime.state.is_none());
    assert!(runtime.sub.is_none());

    let toml = &resp.rows[2];
    assert_eq!(toml.disabled, Some(DisabledSource::Toml));
    assert!(toml.state.is_none());
    assert!(toml.sub.is_none());
}

#[test]
fn list_engine_wins_on_name_conflict_with_runtime_set() {
    let config = config_from_watches(&[("alpha", true)]);
    let view = view_with(&config);
    let disabled = names_of(&["alpha"]);

    let resp = list(&view, &fresh_state(), &disabled, &config);

    assert_eq!(resp.rows.len(), 1, "engine row absorbs the conflict");
    let row = &resp.rows[0];
    assert_eq!(row.name, "alpha");
    assert!(row.disabled.is_none(), "engine row wins; disabled stays None");
    assert!(row.sub.is_some(), "engine row carries SubId");
}

#[test]
fn list_alphabetic_order_across_sources() {
    let config = config_from_watches(&[("zebra_toml", false), ("alpha_attached", true)]);
    let view = view_with(&config);
    let disabled = names_of(&["middle_runtime"]);

    let resp = list(&view, &fresh_state(), &disabled, &config);
    let names: Vec<_> = resp.rows.iter().map(|r| r.name.as_str()).collect();
    assert_eq!(
        names,
        vec!["alpha_attached", "middle_runtime", "zebra_toml"],
        "alphabetic regardless of source order",
    );
}

#[test]
fn list_attached_row_carries_every_engine_field() {
    let config = config_from_watches(&[("only", true)]);
    let view = view_with(&config);
    let resp = list(&view, &fresh_state(), &NameSet::new(), &config);
    let row = &resp.rows[0];

    assert_eq!(row.name, "only");
    assert!(row.state.is_some(), "attached row carries state");
    assert!(row.sub.is_some(), "attached row carries SubId");
    assert!(row.profile.is_some(), "attached row carries ProfileId");
    assert_eq!(row.fire_count, Some(0), "never-fired Sub carries Some(0), not None");
    assert_eq!(row.dedup_suppressed_count, Some(0));
    assert!(row.settle_ms.is_some(), "attached row carries settle_ms");
    assert_eq!(row.reaction, Some(ReactionKind::Spawn), "static Sub discriminates as spawn");
    assert!(row.minted_by.is_none(), "static Sub has no minted_by");
    assert!(row.disabled.is_none(), "attached row's disabled is None");
}

#[test]
fn list_template_row_discriminates_mint_with_no_fire_stats() {
    let config = config_from_watches(&[("disc", true)]);
    let mut sub = attached(1, "disc");
    sub.reaction = ReactionKind::Mint;
    sub.history = None;
    let view = view_of(vec![sub]);

    let resp = list(&view, &fresh_state(), &NameSet::new(), &config);
    assert_eq!(resp.rows.len(), 1);
    let row = &resp.rows[0];
    assert_eq!(row.name, "disc");
    assert_eq!(row.reaction, Some(ReactionKind::Mint));
    assert_eq!(row.fire_count, None, "a template has no fire count");
    assert_eq!(row.dedup_suppressed_count, None);
    assert!(row.last_fired_at.is_none());
    assert!(row.state.is_some(), "the template row is attached");
    assert!(row.sub.is_some(), "attached ⇒ SubId present");
}

#[test]
fn list_dynamic_sub_carries_minted_by() {
    let mut sub = attached(1, "template@/tmp/dyn_anchor");
    sub.minted_by = Some(MintSource::Template(SubId(0)));
    let view = view_of(vec![sub]);

    let resp = list(&view, &fresh_state(), &NameSet::new(), &empty_config());
    assert_eq!(resp.rows.len(), 1);
    let row = &resp.rows[0];
    assert!(row.minted_by.is_some(), "dynamic Sub must carry minted_by");
}

#[test]
fn list_takes_the_operator_before_the_configuration() {
    let config = config_from_watches(&[("both", false)]);
    let resp = list(&no_engine(), &fresh_state(), &names_of(&["both"]), &config);
    assert_eq!(resp.rows.len(), 1);
    assert_eq!(resp.rows[0].disabled, Some(DisabledSource::Runtime));
}

#[test]
fn list_tells_when_a_watch_fired() {
    let mut sub = attached(1, "w");
    sub.history = Some(FireHistory {
        last_fired_at: Some(MonoTime { nanos: START.nanos + 2_500_000_000 }),
        fire_count: 3,
        dedup_suppressed_count: 1,
    });
    let view = view_of(vec![sub]);
    let resp = list(&view, &fresh_state(), &NameSet::new(), &empty_config());
    let row = &resp.rows[0];
    assert_eq!(
        row.last_fired_at,
        Some(WallTime { nanos: START_WALL.nanos + 2_500_000_000 }),
    );
    assert_eq!(row.fire_count, Some(3));
    assert_eq!(row.dedup_suppressed_count, Some(1));
    assert_eq!(row.settle_ms, Some(250));
    assert_eq!(row.anchor.as_deref(), Some("/tmp/w"));
    assert_eq!(row.state.as_deref(), Some("Idle"));
}

#[test]
fn list_leaves_out_what_a_lost_profile_would_tell() {
    let mut view = view_of(vec![attached(1, "w")]);
    view.profiles.clear();
    let resp = list(&view, &fresh_state(), &NameSet::new(), &empty_config());
    assert!(resp.rows[0].state.is_none());
    assert!(resp.rows[0].anchor.is_none());
    assert_eq!(resp.rows[0].profile, Some(ProfileId(101)));
}

#[test]
fn a_moment_maps_to_the_wall_by_the_start() {
    assert_eq!(
        project_wall(START_WALL, START, MonoTime { nanos: START.nanos + 7 }),
        WallTime { nanos: START_WALL.nanos + 7 },
    );
    assert_eq!(project_wall(START_WALL, START, MonoTime { nanos: 3 }), START_WALL);
}

#[test]
fn show_active_returns_full_details() {
    let config = config_from_watches(&[("watched", true)]);
    let view = view_with(&config);

    let r = show(&view, &fresh_state(), &NameSet::new(), &config, "watched");
    match r {
        ShowResponse::Active(d) => {
            assert_eq!(d.name, "watched");
            assert!(d.anchor.is_some(), "attached Sub has resolved anchor path");
            assert_eq!(d.fire_count, 0, "never fired");
            assert!(d.last_fired_at.is_none(), "never fired ⇒ None");
            assert!(!d.program.is_empty(), "program renders ≥1 line");
            assert!(d.source_promoter.is_none(), "static Sub has no source_promoter");
            assert_eq!(d.program, vec!["[0] exec /bin/true  ok→escape fail→terminate"]);
            assert_eq!(d.scope, EffectScope::SubtreeRoot);
        }
        other => panic!("expected Active, got {other:?}"),
    }
}

#[test]
fn show_runtime_disabled() {
    let r = show(
        &no_engine(),
        &fresh_state(),
        &names_of(&["paused"]),
        &empty_config(),
        "paused",
    );
    match r {
        ShowResponse::Disabled { name, source } => {
            assert_eq!(name, "paused");
            assert_eq!(source, DisabledSource::Runtime);
        }
        other => panic!("expected Disabled(Runtime), got {other:?}"),
    }
}

#[test]
fn show_toml_disabled() {
    let config = config_from_watches(&[("off_by_toml", false)]);
    let view = view_with(&config);
    let r = show(&view, &fresh_state(), &NameSet::new(), &config, "off_by_toml");
    match r {
        ShowResponse::Disabled { name, source } => {
            assert_eq!(name, "off_by_toml");
            assert_eq!(source, DisabledSource::Toml);
        }
        other => panic!("expected Disabled(Toml), got {other:?}"),
    }
}

#[test]
fn show_unknown_for_typo() {
    let r = show(&no_engine(), &fresh_state(), &NameSet::new(), &empty_config(), "ghost");
    match r {
        ShowResponse::Unknown { name } => assert_eq!(name, "ghost"),
        other => panic!("expected Unknown, got {other:?}"),
    }
}

#[test]
fn show_engine_wins_over_disabled_sources_on_name_conflict() {
    let config = config_from_watches(&[("engaged", true)]);
    let view = view_with(&config);
    let disabled = names_of(&["engaged"]);

    let r = show(&view, &fresh_state(), &disabled, &config, "engaged");
    assert!(
        matches!(r, ShowResponse::Active(_)),
        "engine row wins precedence over the runtime-disabled set",
    );
}

#[test]
fn show_dynamic_sub_name_resolves_unknown() {
    let mut sub = attached(1, "promoter@/tmp/dyn_anchor");
    sub.minted_by = Some(MintSource::Promoter(PromoterId(0)));
    let view = view_of(vec![sub]);
    assert_eq!(view.subs.len(), 1, "Sub did land in the registry");
    assert!(
        view.find_by_name("promoter@/tmp/dyn_anchor").is_some(),
        "registry indexes the dynamic name",
    );
    let r = show(
        &view,
        &fresh_state(),
        &NameSet::new(),
        &empty_config(),
        "promoter@/tmp/dyn_anchor",
    );
    match r {
        ShowResponse::Unknown { name } => assert_eq!(name, "promoter@/tmp/dyn_anchor"),
        other => panic!("expected Unknown for dynamic Sub name, got {other:?}"),
    }
}

#[test]
fn show_and_list_tell_the_same_of_a_watch() {
    let config = config_from_watches(&[("on", true), ("off", false)]);
    let view = view_with(&config);
    let disabled = names_of(&["paused"]);
    let rows = list(&view, &fresh_state(), &disabled, &config).rows;
    for row in &rows {
        match show(&view, &fresh_state(), &disabled, &config, &row.name) {
            ShowResponse::Active(d) => {
                assert_eq!(row.sub, Some(d.sub));
                assert_eq!(row.profile, Some(d.profile));
                assert_eq!(row.state.as_ref(), Some(&d.state));
                assert_eq!(row.anchor, d.anchor);
                assert!(row.disabled.is_none());
            }
            ShowResponse::Disabled { source, .. } => assert_eq!(row.disabled, Some(source)),
            ShowResponse::Unknown { .. } => panic!("a listed watch is known"),
        }
    }
    assert_eq!(rows.len(), 3);
}

#[test]
fn show_of_a_template_counts_no_fires() {
    let mut sub = attached(1, "disc");
    sub.reaction = ReactionKind::Mint;
    sub.history = None;
    match show(&view_of(vec![sub]), &fresh_state(), &NameSet::new(), &empty_config(), "disc") {
        ShowResponse::Active(d) => {
            assert_eq!(d.fire_count, 0);
            assert_eq!(d.dedup_suppressed_count, 0);
            assert!(d.last_fired_at.is_none());
        }
        other => panic!("expected Active, got {other:?}"),
    }
}

#[test]
fn status_empty_engine_zero_counters() {
    let r = status(
        &no_engine(),
        &fresh_state(),
        &NameSet::new(),
        &empty_config(),
        "/etc/specter.toml",
        START,
    );

    assert_eq!(r.reload_count, 0);
    assert!(r.last_reload.is_none(), "fresh state has never reloaded ⇒ paired field absent");
    assert_eq!(r.sub_total, 0);
    assert_eq!(r.sub_disabled_toml, 0);
    assert_eq!(r.sub_disabled_runtime, 0);
    assert_eq!(r.profile_active, 0);
    assert_eq!(r.promoter_active, 0);
    assert_eq!(r.config_path, "/etc/specter.toml");
    assert_eq!(r.socket_path, "/tmp/specter-test.sock");
}

#[test]
fn status_uptime_advances() {
    let r = status(
        &no_engine(),
        &fresh_state(),
        &NameSet::new(),
        &empty_config(),
        "/etc/specter.toml",
        MonoTime { nanos: START.nanos + 5_000_000 },
    );
    let _: u64 = r.uptime_secs;
    let later = status(
        &no_engine(),
        &fresh_state(),
        &NameSet::new(),
        &empty_config(),
        "/etc/specter.toml",
        MonoTime { nanos: START.nanos + 61_999_999_999 },
    );
    assert_eq!(later.uptime_secs, 61);
}

#[test]
fn status_post_reload_carries_attribution() {
    let mut ds = fresh_state();
    ds.record_reload(ReloadTrigger::Sighup, WallTime { nanos: 9 });

    let r = status(
        &no_engine(),
        &ds,
        &NameSet::new(),
        &empty_config(),
        "/etc/specter.toml",
        START,
    );

    assert_eq!(r.reload_count, 1);
    let lr = r.last_reload.expect("record_reload populated the pair");
    assert_eq!(lr.via, WireReloadTrigger::Sighup);
    assert_eq!(lr.at, WallTime { nanos: 9 });
}

#[test]
fn status_post_ipc_reload_carries_ipc_trigger() {
    let mut ds = fresh_state();
    ds.record_reload(ReloadTrigger::Ipc, START_WALL);

    let r = status(
        &no_engine(),
        &ds,
        &NameSet::new(),
        &empty_config(),
        "/etc/specter.toml",
        START,
    );
    let lr = r.last_reload.expect("record_reload populated the pair");
    assert_eq!(lr.via, WireReloadTrigger::Ipc);
}

#[test]
fn status_names_every_trigger() {
    for (trigger, wire) in [
        (ReloadTrigger::Sighup, WireReloadTrigger::Sighup),
        (ReloadTrigger::AutoReload, WireReloadTrigger::Auto),
        (ReloadTrigger::Ipc, WireReloadTrigger::Ipc),
        (ReloadTrigger::Startup, WireReloadTrigger::Startup),
    ] {
        assert_eq!(WireReloadTrigger::from(trigger), wire);
    }
}

#[test]
fn status_disabled_runtime_count_from_set() {
    let r = status(
        &no_engine(),
        &fresh_state(),
        &names_of(&["foo", "bar"]),
        &empty_config(),
        "/etc/specter.toml",
        START,
    );
    assert_eq!(r.sub_disabled_runtime, 2);
}

#[test]
fn status_disabled_toml_from_config() {
    let config = config_from_watches(&[("off_one", false), ("on_one", true)]);
    let r = status(
        &no_engine(),
        &fresh_state(),
        &NameSet::new(),
        &config,
        "/etc/specter.toml",
        START,
    );
    assert_eq!(r.sub_disabled_toml, 1, "one TOML-disabled watch");
}

#[test]
fn status_socket_path_from_driver_state() {
    let ds = DriverState::new("/run/user/1000/custom.sock".to_string(), START, START_WALL);
    let r = status(
        &no_engine(),
        &ds,
        &NameSet::new(),
        &empty_config(),
        "/etc/specter.toml",
        START,
    );
    assert_eq!(r.socket_path, "/run/user/1000/custom.sock");
}

#[test]
fn status_counts_every_subscription() {
    let mut minted = attached(2, "t@/x");
    minted.minted_by = Some(MintSource::Template(SubId(1)));
    let mut view = view_of(vec![attached(1, "t"), minted]);
    view.profile_active = 1;
    view.promoter_active = 4;
    let r = status(
        &view,
        &fresh_state(),
        &NameSet::new(),
        &empty_config(),
        "/etc/specter.toml",
        START,
    );
    assert_eq!(r.sub_total, 2);
    assert_eq!(r.profile_active, 1);
    assert_eq!(r.promoter_active, 4);
    assert_eq!(r.start_wall, START_WALL);
}

#[test]
fn a_name_is_in_the_set_once() {
    let mut set = NameSet::new();
    assert!(set.insert("b".to_string()));
    assert!(set.insert("a".to_string()));
    assert!(!set.insert("b".to_string()));
    assert_eq!(set.len(), 2);
    assert!(set.contains("a"));
    assert!(!set.contains("c"));
    assert!(set.remove("b"));
    assert!(!set.remove("b"));
    assert_eq!(set.len(), 1);
}
