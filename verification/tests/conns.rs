use specter_bin::driver::ipc::conns::{
    ConnRole, ConnState, DispatchOutcome, MissedWindow, PushOutcome, ACCEPT_CAP,
    RESPONSE_TOO_BIG_RESERVE, WRITE_QUEUE_HIGH_WATER,
};
use specter_bin::ids::SubId;
use specter_bin::time::WallTime;
use std::time::{Duration, SystemTime};

fn fresh_conn() -> ConnState {
    ConnState::new(0x100)
}

fn at(secs: u64) -> WallTime {
    WallTime { nanos: secs * 1_000_000_000 }
}

fn system_time(at: WallTime) -> SystemTime {
    SystemTime::UNIX_EPOCH + Duration::from_nanos(at.nanos)
}

#[test]
fn conns_new_conn_starts_in_reqs_with_empty_buffers() {
    let conn = fresh_conn();
    assert!(matches!(conn.role, ConnRole::Reqs));
    assert!(conn.read_buf.is_empty());
    assert!(conn.write_queue.is_empty());
    assert!(!conn.close_after_flush);
    assert_eq!(conn.token, 0x100);
}

#[test]
fn conns_transition_to_sub_initializes_sub_state() {
    let mut conn = fresh_conn();
    conn.transition_to_sub(None);
    match conn.role {
        ConnRole::Sub { filter, missed } => {
            assert_eq!(filter, None);
            assert_eq!(missed, MissedWindow::Closed);
        }
        ConnRole::Reqs => panic!("expected Sub role after transition"),
    }
}

#[test]
fn conns_arm_close_after_flush_is_idempotent() {
    let mut conn = fresh_conn();
    conn.arm_close_after_flush();
    conn.arm_close_after_flush();
    assert!(conn.close_after_flush);
}

#[test]
fn conns_try_dispatch_diag_skips_on_close_after_flush() {
    let mut conn = fresh_conn();
    conn.transition_to_sub(None);
    conn.arm_close_after_flush();
    let line = b"{\"diag\":\"placeholder\"}\n";
    let outcome = conn.try_dispatch_diag(line, None, at(0));
    assert_eq!(outcome, DispatchOutcome::Skipped);
    assert!(conn.write_queue.is_empty(), "no bytes get through");
}

#[test]
fn conns_try_dispatch_diag_skips_on_reqs_role() {
    let mut conn = fresh_conn();
    let line = b"{\"diag\":\"placeholder\"}\n";
    let outcome = conn.try_dispatch_diag(line, None, at(0));
    assert_eq!(outcome, DispatchOutcome::Skipped);
    assert!(conn.write_queue.is_empty());
}

#[test]
fn conns_try_dispatch_diag_skips_on_filter_mismatch() {
    let mut conn = fresh_conn();
    let want = SubId(0x42);
    conn.transition_to_sub(Some(want));
    let line = b"{\"diag\":\"placeholder\"}\n";
    let other = SubId(0x99);
    let outcome = conn.try_dispatch_diag(line, Some(other), at(0));
    assert_eq!(outcome, DispatchOutcome::Skipped);
    assert!(conn.write_queue.is_empty());
}

#[test]
fn conns_try_dispatch_diag_pushes_on_unfiltered_sub() {
    let mut conn = fresh_conn();
    conn.transition_to_sub(None);
    let line: &[u8] = b"{\"diag\":\"placeholder\"}\n";
    let outcome = conn.try_dispatch_diag(line, None, at(0));
    assert_eq!(outcome, DispatchOutcome::Accepted);
    let queued: Vec<u8> = conn.write_queue.iter().copied().collect();
    assert_eq!(queued, line);
}

#[test]
fn conns_try_dispatch_diag_drops_and_bumps_missed_on_capacity_overflow() {
    let mut conn = fresh_conn();
    conn.transition_to_sub(None);
    // Pre-fill near the soft cap so a small diag overflows.
    conn.write_queue
        .extend(std::iter::repeat(b'x').take(ACCEPT_CAP - 10));
    let queue_len_before = conn.write_queue.len();
    let line: &[u8] = b"{\"diag\":\"too_big_to_fit_in_remaining_capacity\"}\n";
    assert!(line.len() > 10, "test precondition");

    let outcome = conn.try_dispatch_diag(line, None, at(0));
    assert_eq!(outcome, DispatchOutcome::Dropped);
    assert_eq!(conn.write_queue.len(), queue_len_before, "queue untouched");
    match &conn.role {
        ConnRole::Sub { missed, .. } => {
            assert_eq!(
                *missed,
                MissedWindow::Open {
                    count: 1,
                    since: at(0),
                },
            );
        }
        ConnRole::Reqs => panic!("expected Sub role"),
    }
}

#[test]
fn conns_try_dispatch_diag_preserves_first_dropped_at_across_subsequent_drops() {
    let mut conn = fresh_conn();
    conn.transition_to_sub(None);
    conn.write_queue
        .extend(std::iter::repeat(b'x').take(ACCEPT_CAP - 5));
    let line: &[u8] = b"{\"diag\":\"too_big_to_fit\"}\n";

    let at1 = at(100);
    let at2 = at(200);
    let at3 = at(301);
    assert_eq!(
        conn.try_dispatch_diag(line, None, at1),
        DispatchOutcome::Dropped
    );
    assert_eq!(
        conn.try_dispatch_diag(line, None, at2),
        DispatchOutcome::Dropped
    );
    assert_eq!(
        conn.try_dispatch_diag(line, None, at3),
        DispatchOutcome::Dropped
    );
    match &conn.role {
        ConnRole::Sub { missed, .. } => {
            assert_eq!(
                *missed,
                MissedWindow::Open {
                    count: 3,
                    since: at1,
                },
                "open window pins count to 3 and since to the 0->1 transition's at",
            );
        }
        ConnRole::Reqs => panic!("expected Sub role"),
    }
}

#[test]
fn conns_try_dispatch_diag_flushes_missed_marker_before_diag_in_causal_order() {
    let mut conn = fresh_conn();
    conn.transition_to_sub(None);
    // Drive one drop to open a missed window.
    conn.write_queue
        .extend(std::iter::repeat(b'x').take(ACCEPT_CAP - 5));
    let big: &[u8] = b"{\"diag\":\"too_big_to_fit\"}\n";
    let at_drop = at(100);
    assert_eq!(
        conn.try_dispatch_diag(big, None, at_drop),
        DispatchOutcome::Dropped
    );

    // Drain to simulate the wire making room.
    conn.write_queue.clear();

    // Dispatch a small diag — it fits, AND the marker must
    // precede it.
    let small: &[u8] = b"{\"diag\":\"placeholder\"}\n";
    let at_flush = at(200);
    assert_eq!(
        conn.try_dispatch_diag(small, None, at_flush),
        DispatchOutcome::Accepted
    );
    let queued: Vec<u8> = conn.write_queue.iter().copied().collect();
    let lines: Vec<&[u8]> = queued
        .split(|&b| b == b'\n')
        .filter(|l| !l.is_empty())
        .collect();
    assert_eq!(lines.len(), 2, "marker then diag");
    let first_v: serde_json::Value =
        serde_json::from_slice(lines[0]).expect("marker is valid JSON");
    assert_eq!(first_v["diag"], "_missed");
    let second_v: serde_json::Value =
        serde_json::from_slice(lines[1]).expect("diag is valid JSON");
    assert_eq!(second_v["diag"], "placeholder");
}

#[test]
fn conns_try_dispatch_diag_marker_uses_first_dropped_at_not_flush_at() {
    let mut conn = fresh_conn();
    conn.transition_to_sub(None);
    conn.write_queue
        .extend(std::iter::repeat(b'x').take(ACCEPT_CAP - 5));
    let big: &[u8] = b"{\"diag\":\"too_big_to_fit\"}\n";
    let at_drop = at(100);
    assert_eq!(
        conn.try_dispatch_diag(big, None, at_drop),
        DispatchOutcome::Dropped,
    );

    conn.write_queue.clear();

    let small: &[u8] = b"{\"diag\":\"placeholder\"}\n";
    let at_flush = at(500);
    assert_eq!(
        conn.try_dispatch_diag(small, None, at_flush),
        DispatchOutcome::Accepted,
    );

    let queued: Vec<u8> = conn.write_queue.iter().copied().collect();
    let marker_line: &[u8] = queued
        .split(|&b| b == b'\n')
        .find(|l| !l.is_empty())
        .expect("marker first");
    let marker_v: serde_json::Value = serde_json::from_slice(marker_line).expect("marker JSON");
    let expected_at = humantime::format_rfc3339_seconds(system_time(at_drop)).to_string();
    assert_eq!(
        marker_v["at"].as_str().expect("at is a string"),
        expected_at,
        "marker carries first-drop time, not flush time",
    );
}

#[test]
fn conns_try_dispatch_diag_drops_when_marker_plus_diag_does_not_fit() {
    let mut conn = fresh_conn();
    conn.transition_to_sub(None);
    // Drive one drop to open the marker window.
    conn.write_queue
        .extend(std::iter::repeat(b'x').take(ACCEPT_CAP - 5));
    let big: &[u8] = b"{\"diag\":\"too_big_to_fit\"}\n";
    let at_drop = at(100);
    assert_eq!(
        conn.try_dispatch_diag(big, None, at_drop),
        DispatchOutcome::Dropped,
    );

    // Keep the queue near the cap. The marker bytes + a fresh diag
    // both have to fit — even with the marker alone fitting, the
    // combined size overflows.
    let queue_len_before = conn.write_queue.len();
    let line: &[u8] = b"{\"diag\":\"still_too_big\"}\n";
    let at2 = at(200);
    assert_eq!(
        conn.try_dispatch_diag(line, None, at2),
        DispatchOutcome::Dropped
    );
    assert_eq!(
        conn.write_queue.len(),
        queue_len_before,
        "no bytes pushed when combined overflows",
    );
    match &conn.role {
        ConnRole::Sub { missed, .. } => {
            assert_eq!(
                *missed,
                MissedWindow::Open {
                    count: 2,
                    since: at_drop,
                },
                "open window count re-accumulates on combined-overflow; \
                 since sticks to the first 0->1 capture",
            );
        }
        ConnRole::Reqs => panic!("expected Sub role"),
    }
}

#[test]
fn conns_try_dispatch_diag_resets_first_dropped_at_on_flush() {
    let mut conn = fresh_conn();
    conn.transition_to_sub(None);
    conn.write_queue
        .extend(std::iter::repeat(b'x').take(ACCEPT_CAP - 5));
    let big: &[u8] = b"{\"diag\":\"too_big_to_fit\"}\n";
    let at_drop = at(100);
    assert_eq!(
        conn.try_dispatch_diag(big, None, at_drop),
        DispatchOutcome::Dropped,
    );

    conn.write_queue.clear();

    let small: &[u8] = b"{\"diag\":\"placeholder\"}\n";
    let at_flush = at(200);
    assert_eq!(
        conn.try_dispatch_diag(small, None, at_flush),
        DispatchOutcome::Accepted
    );
    match &conn.role {
        ConnRole::Sub { missed, .. } => {
            assert_eq!(
                *missed,
                MissedWindow::Closed,
                "window resets to Closed on the flush edge",
            );
        }
        ConnRole::Reqs => panic!("expected Sub role"),
    }
}

#[test]
fn conns_push_response_pushes_within_capacity() {
    let mut conn = fresh_conn();
    let bytes = b"{\"kind\":\"ok\"}\n";
    let outcome = conn.push_response(bytes);
    assert_eq!(outcome, PushOutcome::Accepted);
    let queued: Vec<u8> = conn.write_queue.iter().copied().collect();
    assert_eq!(queued, bytes);
    assert!(!conn.close_after_flush);
}

#[test]
fn conns_push_response_arms_close_on_capacity_overflow() {
    let mut conn = fresh_conn();
    let huge = vec![b'x'; ACCEPT_CAP + 1];
    let outcome = conn.push_response(&huge);
    assert_eq!(outcome, PushOutcome::Refused);
    assert!(
        conn.write_queue.is_empty(),
        "refused bytes never reach the queue",
    );
    assert!(conn.close_after_flush, "arm fires on overflow");
}

#[test]
fn conns_push_response_within_capacity_after_arm_still_succeeds() {
    let mut conn = fresh_conn();
    conn.arm_close_after_flush();
    let bytes = b"{\"kind\":\"ok\"}\n";
    let outcome = conn.push_response(bytes);
    assert_eq!(outcome, PushOutcome::Accepted);
    let queued: Vec<u8> = conn.write_queue.iter().copied().collect();
    assert_eq!(queued, bytes);
}

#[test]
fn push_err_in_reserve_extends_queue_unconditionally() {
    let mut conn = fresh_conn();
    // Pre-fill at exactly the soft cap — push_err_in_reserve must
    // still succeed because the reserve sits above ACCEPT_CAP.
    conn.write_queue
        .extend(std::iter::repeat(b'x').take(ACCEPT_CAP));
    let err_line: &[u8] = b"{\"kind\":\"err\",\"code\":\"response_too_big\",\"error\":\"x\"}\n";
    assert!(
        err_line.len() <= RESPONSE_TOO_BIG_RESERVE,
        "sample Err line fits the reserve invariant",
    );
    conn.push_err_in_reserve(err_line);
    assert_eq!(
        conn.write_queue.len(),
        ACCEPT_CAP + err_line.len(),
        "Err line appended verbatim past the soft cap into the reserve",
    );
}

#[test]
fn push_err_in_reserve_stops_at_the_hard_ceiling() {
    let err_line: &[u8] = b"{\"kind\":\"err\"}\n";
    let mut conn = fresh_conn();
    conn.close_after_flush = true;
    conn.write_queue
        .extend(std::iter::repeat(b'x').take(WRITE_QUEUE_HIGH_WATER - err_line.len()));
    conn.push_err_in_reserve(err_line);
    assert_eq!(conn.write_queue.len(), WRITE_QUEUE_HIGH_WATER, "the last line that fits");
    conn.push_err_in_reserve(err_line);
    assert_eq!(conn.write_queue.len(), WRITE_QUEUE_HIGH_WATER, "and no more");
}

#[test]
fn every_diagnostic_is_queued_or_counted() {
    let mut conn = fresh_conn();
    conn.transition_to_sub(Some(SubId(1)));
    let line = vec![b'd'; 100_000];
    let told_in = |conn: &ConnState| -> u32 {
        let bytes: Vec<u8> = conn.write_queue.iter().copied().collect();
        let text = String::from_utf8(bytes).expect("plain text");
        let counts = text.split("\"count\":").skip(1);
        counts.map(|c| c.split('}').next().expect("a number").parse::<u32>().expect("a count")).sum()
    };
    let (mut wanted, mut queued, mut dropped, mut told): (u32, u32, u32, u32) = (0, 0, 0, 0);
    for turn in 0..30u64 {
        let about = SubId(turn % 3);
        let at = WallTime { nanos: turn };
        match conn.try_dispatch_diag(&line, Some(about), at) {
            DispatchOutcome::Accepted => queued += 1,
            DispatchOutcome::Dropped => dropped += 1,
            DispatchOutcome::Skipped => {}
        }
        if about == SubId(1) {
            wanted += 1;
        }
        if turn % 10 == 9 {
            told += told_in(&conn);
            conn.write_queue.clear();
        }
    }
    let owed = match conn.role {
        ConnRole::Sub { missed: MissedWindow::Open { count, .. }, .. } => count,
        _ => 0,
    };
    assert_eq!(wanted, 10);
    assert!(told > 0);
    assert_eq!(dropped, told + owed);
    assert_eq!(wanted, queued + told + owed);
}

#[test]
fn caps_leave_exactly_the_reserve() {
    assert_eq!(WRITE_QUEUE_HIGH_WATER, 262_144);
    assert_eq!(RESPONSE_TOO_BIG_RESERVE, 1_024);
    assert_eq!(ACCEPT_CAP, 261_120);
}

#[test]
fn record_drop_then_take_gives_count_and_first_drop() {
    let mut window = MissedWindow::default();
    assert_eq!(window.take(), None);
    window.record_drop(at(7));
    window.record_drop(at(8));
    window.record_drop(at(9));
    assert_eq!(window, MissedWindow::Open { count: 3, since: at(7) });
    assert_eq!(window.take(), Some((3, at(7))));
    assert_eq!(window, MissedWindow::Closed);
    assert_eq!(window.take(), None);
}

#[test]
fn record_drop_saturates() {
    let mut window = MissedWindow::Open { count: u32::MAX, since: at(1) };
    window.record_drop(at(2));
    assert_eq!(window, MissedWindow::Open { count: u32::MAX, since: at(1) });
}

#[test]
fn filtered_stream_takes_its_own_subscription_only() {
    let mut conn = fresh_conn();
    conn.transition_to_sub(Some(SubId(0x42)));
    let line: &[u8] = b"{}\n";
    assert_eq!(
        conn.try_dispatch_diag(line, None, at(0)),
        DispatchOutcome::Skipped
    );
    assert_eq!(
        conn.try_dispatch_diag(line, Some(SubId(0x43)), at(0)),
        DispatchOutcome::Skipped
    );
    assert_eq!(
        conn.try_dispatch_diag(line, Some(SubId(0x42)), at(0)),
        DispatchOutcome::Accepted
    );
    assert_eq!(conn.write_queue.len(), line.len());
}

#[test]
fn marker_line_is_exact() {
    let mut conn = fresh_conn();
    conn.transition_to_sub(None);
    conn.role = ConnRole::Sub {
        filter: None,
        missed: MissedWindow::Open { count: 12, since: at(1_700_000_000) },
    };
    assert_eq!(
        conn.try_dispatch_diag(b"x\n", None, at(1_700_000_500)),
        DispatchOutcome::Accepted
    );
    let queued: Vec<u8> = conn.write_queue.iter().copied().collect();
    assert_eq!(
        String::from_utf8(queued).unwrap(),
        "{\"diag\":\"_missed\",\"at\":\"2023-11-14T22:13:20Z\",\"count\":12}\nx\n",
    );
}

#[test]
fn a_diagnostic_that_fits_to_the_byte_is_queued() {
    let mut conn = fresh_conn();
    conn.transition_to_sub(None);
    let line = vec![b'x'; ACCEPT_CAP];
    assert_eq!(
        conn.try_dispatch_diag(&line, None, at(0)),
        DispatchOutcome::Accepted
    );
    assert_eq!(conn.write_queue.len(), ACCEPT_CAP);
    assert_eq!(
        conn.try_dispatch_diag(b"y", None, at(1)),
        DispatchOutcome::Dropped
    );
}
