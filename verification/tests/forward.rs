use specter_bin::driver::forward::{diag_sub_id, effect_orders};
use specter_bin::driver::log::{log_diagnostic, FieldValue, Level, LogField};
use specter_bin::channels::{Effect, EffectOp};
use specter_bin::ids::{ProfileId, PromoterId, ResourceId, SubId};
use specter_bin::model::diagnostic::{Diagnostic, ProbeOwner, SensorFailure};

fn sid(raw: u64) -> SubId {
    SubId(raw)
}

fn pid(raw: u64) -> ProfileId {
    ProfileId(raw)
}

#[test]
fn forward_diag_sub_id_per_sub_variants() {
    let s = sid(1);
    let p = pid(0xAA);
    assert_eq!(
        diag_sub_id(&Diagnostic::SubAttached {
            sub: s,
            name: "x".to_string(),
            source_promoter: None,
        }),
        Some(s)
    );
    assert_eq!(diag_sub_id(&Diagnostic::SubFired { sub: s, profile: p, count: 1 }), Some(s));
    assert_eq!(
        diag_sub_id(&Diagnostic::SubDetached {
            sub: s,
            profile: p,
            reason: "IpcDisabled".to_string(),
        }),
        Some(s)
    );
    assert_eq!(diag_sub_id(&Diagnostic::SubRebound { sub: s }), Some(s));
    assert_eq!(diag_sub_id(&Diagnostic::DetachUnknownSub { sub: s }), Some(s));
    assert_eq!(diag_sub_id(&Diagnostic::RebindUnknownSub { sub: s }), Some(s));
    assert_eq!(diag_sub_id(&Diagnostic::EffectCompleteForUnknownSub { sub: s }), Some(s));
    assert_eq!(
        diag_sub_id(&Diagnostic::EffectCompleteOutsideAwaiting { sub: s, profile: p }),
        Some(s)
    );
}

#[test]
fn forward_diag_sub_id_profile_keyed_returns_none() {
    let p = pid(0xAA);
    assert_eq!(
        diag_sub_id(&Diagnostic::ProfileReaped { profile: p, via: "Immediate".to_string() }),
        None
    );
    assert_eq!(diag_sub_id(&Diagnostic::ReapPendingCancelled { profile: p }), None);
    assert_eq!(
        diag_sub_id(&Diagnostic::ProbeVanished { profile: p, intent: "Standard".to_string() }),
        None
    );
    assert_eq!(
        diag_sub_id(&Diagnostic::StaleProbeResponse {
            owner: ProbeOwner::Profile(p),
            correlation: 7,
        }),
        None
    );
}

#[test]
fn a_reaped_dynamic_watch_is_named_to_its_listeners() {
    let diag = Diagnostic::DynamicSubReaped {
        promoter: PromoterId(5),
        sub: sid(9),
        path: "/srv/x".to_string(),
    };
    assert_eq!(diag_sub_id(&diag), Some(sid(9)));
    let record = log_diagnostic(&diag);
    let named = |f: &LogField| f.name == "sub" && matches!(f.value, FieldValue::Sub(SubId(9)));
    assert!(record.fields.iter().any(named));
}

#[test]
fn orders_stop_before_they_start() {
    assert_eq!(
        effect_orders(&[pid(2), pid(1)], &[Effect { ticket: 9 }]),
        vec![
            EffectOp::Cancel { profile: pid(2) },
            EffectOp::Cancel { profile: pid(1) },
            EffectOp::Submit(Effect { ticket: 9 }),
        ],
    );
    assert!(effect_orders(&[], &[]).is_empty());
}

#[test]
fn a_log_line_names_level_message_and_fields() {
    let record = log_diagnostic(&Diagnostic::SubFired { sub: sid(3), profile: pid(4), count: 2 });
    assert_eq!(record.fields[0].name, "sub");
    assert!(matches!(record.fields[0].value, FieldValue::Sub(SubId(3))));
    let names: Vec<&str> = record.fields.iter().map(|f| f.name).collect();
    assert!(names.contains(&"profile"));
    assert!(names.contains(&"count"));
}

#[test]
fn a_cancelled_reap_is_told_at_info() {
    let record = log_diagnostic(&Diagnostic::ReapPendingCancelled { profile: pid(4) });
    assert_eq!(record.level, Level::Info);
}

#[test]
fn a_refused_watch_is_told_with_its_resource() {
    let record = log_diagnostic(&Diagnostic::WatchOpRejected {
        resource: ResourceId(8),
        failure: SensorFailure { text: "Pressure { errno: 24 }".to_string(), errno: Some(24) },
    });
    assert!(record.fields.iter().any(|f| matches!(f.value, FieldValue::Resource(ResourceId(8)))));
}
