use crossbeam::channel::bounded;
use specter_bin::channels::{Port, Verdict};
use specter_bin::driver::broker::{Broker, BrokerEvent, MarkerStep, Subscriber};
use specter_bin::driver::forward::diag_sub_id;
use specter_bin::ids::{ProfileId, SubId};
use specter_bin::model::diagnostic::{Diagnostic, ProbeOwner};
use specter_bin::time::WallTime;
use std::sync::Arc;

fn sid(raw: u64) -> SubId {
    SubId(raw)
}

fn pid(raw: u64) -> ProfileId {
    ProfileId(raw)
}

fn at(secs: u64) -> WallTime {
    WallTime { nanos: secs * 1_000_000_000 }
}

fn sub_fired_for(s: SubId) -> Arc<Diagnostic> {
    Arc::new(Diagnostic::SubFired { sub: s, profile: pid(0xAA), count: 1 })
}

fn profile_reaped() -> Diagnostic {
    Diagnostic::ProfileReaped { profile: pid(0xAA), via: "Immediate".to_string() }
}

#[test]
fn dispatch_no_subscribers_is_noop() {
    let mut broker = Broker::new();
    broker.dispatch(&sub_fired_for(sid(1)), at(1));
    assert_eq!(broker.len(), 0);
}

#[test]
fn dispatch_fans_out_to_every_subscriber() {
    let mut broker = Broker::new();
    let (tx_a, rx_a) = bounded::<BrokerEvent>(8);
    let (tx_b, rx_b) = bounded::<BrokerEvent>(8);
    broker.add_subscriber(tx_a, None);
    broker.add_subscriber(tx_b, None);

    let now = at(5);
    broker.dispatch(&sub_fired_for(sid(1)), now);

    let ev_a = rx_a.try_recv().expect("subscriber A receives");
    let ev_b = rx_b.try_recv().expect("subscriber B receives");
    match (&ev_a, &ev_b) {
        (BrokerEvent::Diag { at: at_a, .. }, BrokerEvent::Diag { at: at_b, .. }) => {
            assert_eq!(at_a, at_b, "same wall-clock at fanout");
            assert_eq!(*at_a, now);
        }
        other => panic!("expected two Diag events, got {other:?}"),
    }
}

#[test]
fn dispatch_filter_sub_drops_unmatched() {
    let mut broker = Broker::new();
    let (tx, rx) = bounded::<BrokerEvent>(8);
    let want = sid(1);
    let other = sid(2);
    broker.add_subscriber(tx, Some(want));

    broker.dispatch(&sub_fired_for(other), at(1));
    broker.dispatch(&sub_fired_for(want), at(2));

    let ev = rx.try_recv().expect("matching event arrives");
    match ev {
        BrokerEvent::Diag { diag, .. } => match *diag {
            Diagnostic::SubFired { sub, .. } => {
                assert_eq!(sub, want, "only the matching sub passes the filter")
            }
            _ => panic!("expected SubFired"),
        },
        other => panic!("expected Diag(SubFired), got {other:?}"),
    }
    assert!(rx.try_recv().is_err(), "non-matching event must NOT reach the subscriber");
}

#[test]
fn dispatch_filter_sub_drops_profile_keyed() {
    let mut broker = Broker::new();
    let (tx, rx) = bounded::<BrokerEvent>(8);
    broker.add_subscriber(tx, Some(sid(1)));
    broker.dispatch(&Arc::new(profile_reaped()), at(1));
    assert!(
        rx.try_recv().is_err(),
        "ProfileReaped must not reach a per-Sub-filtered subscriber",
    );
}

#[test]
fn dispatch_full_channel_accumulates_missed() {
    let mut broker = Broker::new();
    let (tx, rx) = bounded::<BrokerEvent>(1);
    broker.add_subscriber(tx, None);

    broker.dispatch(&sub_fired_for(sid(1)), at(1));
    broker.dispatch(&sub_fired_for(sid(1)), at(2));
    broker.dispatch(&sub_fired_for(sid(1)), at(3));

    assert!(matches!(rx.try_recv(), Ok(BrokerEvent::Diag { .. })));
    assert!(rx.try_recv().is_err(), "no further events while the receiver hasn't drained");
    assert_eq!(broker.len(), 1, "subscriber kept under back-pressure");
    assert_eq!(broker.subs[0].missed, 2);
}

#[test]
fn dispatch_flushes_missed_before_next_diag() {
    let mut broker = Broker::new();
    let (tx, rx) = bounded::<BrokerEvent>(1);
    broker.add_subscriber(tx, None);

    broker.dispatch(&sub_fired_for(sid(1)), at(1));
    broker.dispatch(&sub_fired_for(sid(1)), at(2));
    broker.dispatch(&sub_fired_for(sid(1)), at(3));

    assert!(matches!(rx.try_recv(), Ok(BrokerEvent::Diag { .. })));

    let now = at(4);
    broker.dispatch(&sub_fired_for(sid(1)), now);
    match rx.try_recv().expect("Missed flushed first") {
        BrokerEvent::Missed { count, at: at_m } => {
            assert_eq!(count, 2, "accumulated missed count");
            assert_eq!(at_m, now, "Missed at == emission at");
        }
        other @ BrokerEvent::Diag { .. } => panic!("expected Missed first, got {other:?}"),
    }
    let _ = rx.try_recv();
}

#[test]
fn dispatch_gc_drops_disconnected() {
    let mut broker = Broker::new();
    let (tx, rx) = bounded::<BrokerEvent>(8);
    broker.add_subscriber(tx, None);
    assert_eq!(broker.len(), 1);
    drop(rx);
    broker.dispatch(&sub_fired_for(sid(1)), at(1));
    assert_eq!(broker.len(), 0, "GC'd the disconnected subscriber");
}

#[test]
fn broker_diag_sub_id_per_sub_variants() {
    let s = sid(1);
    let p = pid(0xAA);
    assert_eq!(
        diag_sub_id(&Diagnostic::SubAttached {
            sub: s,
            name: "x".to_string(),
            source_promoter: None,
        }),
        Some(s)
    );
    assert_eq!(diag_sub_id(&Diagnostic::SubFired { sub: s, profile: p, count: 1 }), Some(s));
    assert_eq!(
        diag_sub_id(&Diagnostic::SubDetached {
            sub: s,
            profile: p,
            reason: "IpcDisabled".to_string(),
        }),
        Some(s)
    );
    assert_eq!(diag_sub_id(&Diagnostic::SubRebound { sub: s }), Some(s));
    assert_eq!(diag_sub_id(&Diagnostic::DetachUnknownSub { sub: s }), Some(s));
    assert_eq!(diag_sub_id(&Diagnostic::RebindUnknownSub { sub: s }), Some(s));
    assert_eq!(diag_sub_id(&Diagnostic::EffectCompleteForUnknownSub { sub: s }), Some(s));
    assert_eq!(
        diag_sub_id(&Diagnostic::EffectCompleteOutsideAwaiting { sub: s, profile: p }),
        Some(s)
    );
}

#[test]
fn broker_diag_sub_id_profile_keyed_returns_none() {
    let p = pid(0xAA);
    assert_eq!(diag_sub_id(&profile_reaped()), None);
    assert_eq!(diag_sub_id(&Diagnostic::ReapPendingCancelled { profile: p }), None);
    assert_eq!(
        diag_sub_id(&Diagnostic::ProbeVanished { profile: p, intent: "Standard".to_string() }),
        None
    );
    assert_eq!(
        diag_sub_id(&Diagnostic::StaleProbeResponse {
            owner: ProbeOwner::Profile(p),
            correlation: 7,
        }),
        None
    );
}

#[test]
fn no_diagnostic_goes_past_a_report_that_does_not_get_through() {
    let mut broker = Broker::default();
    let (tx, rx) = bounded::<BrokerEvent>(2);
    broker.add_subscriber(tx, None);

    for secs in 1..=3 {
        broker.dispatch(&sub_fired_for(sid(1)), at(secs));
    }
    assert_eq!(broker.subs[0].missed, 1);
    broker.dispatch(&sub_fired_for(sid(1)), at(4));
    assert_eq!(broker.subs[0].missed, 2);
    assert_eq!(rx.len(), 2);

    let _ = rx.try_recv();
    let _ = rx.try_recv();
    broker.dispatch(&sub_fired_for(sid(1)), at(5));
    assert_eq!(broker.subs[0].missed, 0);
    assert!(matches!(rx.try_recv(), Ok(BrokerEvent::Missed { count: 2, .. })));
    assert!(matches!(rx.try_recv(), Ok(BrokerEvent::Diag { .. })));
    assert!(rx.try_recv().is_err(), "the report and the diagnostic, nothing else");
}

#[test]
fn every_diagnostic_arrives_or_is_told_of_or_is_still_owed() {
    let (tx, rx) = bounded::<BrokerEvent>(2);
    let mut sub = Subscriber { tx: Port::new(tx), missed: 0, filter_sub: Some(sid(1)) };
    let (mut wanted, mut got, mut told): (u32, u32, u32) = (0, 0, 0);
    for turn in 0..40u64 {
        let about = if turn % 3 == 0 { sid(2) } else { sid(1) };
        let diag = sub_fired_for(about);
        assert!(sub.step(&diag, diag_sub_id(&diag), at(turn)));
        if about == sid(1) {
            wanted += 1;
        }
        let takes = if turn % 7 == 0 { 3 } else { 0 };
        for _ in 0..takes {
            match rx.try_recv() {
                Ok(BrokerEvent::Diag { .. }) => got += 1,
                Ok(BrokerEvent::Missed { count, .. }) => told += count,
                Err(_) => {}
            }
        }
    }
    while let Ok(event) = rx.try_recv() {
        match event {
            BrokerEvent::Diag { .. } => got += 1,
            BrokerEvent::Missed { count, .. } => told += count,
        }
    }
    assert!(told > 0, "some were lost");
    assert_eq!(wanted, got + told + sub.missed);
}

#[test]
fn only_the_listeners_who_are_gone_are_dropped() {
    let mut broker = Broker::new();
    let (tx_a, rx_a) = bounded::<BrokerEvent>(8);
    let (tx_b, rx_b) = bounded::<BrokerEvent>(8);
    let (tx_c, rx_c) = bounded::<BrokerEvent>(8);
    broker.add_subscriber(tx_a, Some(sid(1)));
    broker.add_subscriber(tx_b, None);
    broker.add_subscriber(tx_c, Some(sid(3)));
    drop(rx_b);
    broker.dispatch(&sub_fired_for(sid(3)), at(1));
    let filters: Vec<Option<SubId>> = broker.subs.iter().map(|s| s.filter_sub).collect();
    assert_eq!(filters, vec![Some(sid(1)), Some(sid(3))]);
    assert!(rx_a.try_recv().is_err());
    assert!(rx_c.try_recv().is_ok());
}

#[test]
fn the_count_of_losses_saturates() {
    let (tx, _rx) = bounded::<BrokerEvent>(1);
    let mut sub = Subscriber { tx: Port::new(tx), missed: u32::MAX, filter_sub: None };
    assert_eq!(sub.after_marker(Verdict::Full), MarkerStep::Keep);
    assert_eq!(sub.missed, u32::MAX);
    assert_eq!(sub.after_marker(Verdict::Disconnected), MarkerStep::Drop);
    assert_eq!(sub.missed, u32::MAX);
    assert_eq!(sub.after_marker(Verdict::Sent), MarkerStep::Proceed);
    assert_eq!(sub.missed, 0);
    assert!(sub.marker(at(1)).is_none());
    assert!(sub.after_diag(Verdict::Full));
    assert!(matches!(sub.marker(at(1)), Some(BrokerEvent::Missed { count: 1, .. })));
    assert!(sub.after_diag(Verdict::Sent));
    assert!(!sub.after_diag(Verdict::Disconnected));
    assert_eq!(sub.missed, 1);
}
