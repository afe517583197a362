//! What becomes of one step of the engine: refused watches are queued for the
//! engine, programs go to the actuator, diagnostics to the log and to the
//! operators who listen.

use std::collections::VecDeque;
use vstd::prelude::*;
use crate::channels::{ActuatorIO, Effect, EffectOp, Verdict};
use crate::driver::ipc::conns;
use crate::driver::ipc::conns::{ConnRole, ConnState, MissedWindow};
use crate::driver::ipc::hub::Hub;
use crate::driver::log;
use crate::driver::log::LogRecord;
use crate::driver::EngineDriver;
use crate::ids::{ProfileId, ResourceId, SubId};
use crate::model::diagnostic::{Diagnostic, SensorFailure};
use crate::model::input::{Flow, Input};
use crate::time::WallTime;

verus! {

/// The subscription a diagnostic names. One that names none reaches only those
/// who listen to everything.
pub open spec fn subject(d: Diagnostic) -> Option<SubId> {
    match d {
        Diagnostic::SubAttached { sub, .. } => Some(sub),
        Diagnostic::SubFired { sub, .. } => Some(sub),
        Diagnostic::SubDetached { sub, .. } => Some(sub),
        Diagnostic::SubRebound { sub } => Some(sub),
        Diagnostic::DetachUnknownSub { sub } => Some(sub),
        Diagnostic::RebindUnknownSub { sub } => Some(sub),
        Diagnostic::EffectCompleteForUnknownSub { sub } => Some(sub),
        Diagnostic::EffectCompleteOutsideAwaiting { sub, .. } => Some(sub),
        Diagnostic::DynamicSubReaped { sub, .. } => Some(sub),
        Diagnostic::StaleProbeResponse { .. }
        | Diagnostic::StaleTimer { .. }
        | Diagnostic::ConfigDiffUnknownSub { .. }
        | Diagnostic::ConfigDiffUnknownPromoter { .. }
        | Diagnostic::ConfigDiffRebindFallbackAttach { .. }
        | Diagnostic::ProbeVanished { .. }
        | Diagnostic::ProbeFailed { .. }
        | Diagnostic::EventClassDropped { .. }
        | Diagnostic::EventOnUnwatchedResource { .. }
        | Diagnostic::EventNoConsumer { .. }
        | Diagnostic::WatchOpRejected { .. }
        | Diagnostic::PendingPathProbeVanished { .. }
        | Diagnostic::PendingPathProbeFailed { .. }
        | Diagnostic::ReapPendingCancelled { .. }
        | Diagnostic::ProfileReaped { .. }
        | Diagnostic::ProfileClaimPurged { .. }
        | Diagnostic::PromoterClaimPurged { .. }
        | Diagnostic::AttachPathInvalid { .. }
        | Diagnostic::AttachResourceStale { .. }
        | Diagnostic::SpliceCrossedUncovered { .. }
        | Diagnostic::AnchorKindMismatch { .. }
        | Diagnostic::EventAbsorbedByFireTail { .. }
        | Diagnostic::AwaitGateDeadlineForceRebasing { .. }
        | Diagnostic::AwaitGateDeadlineReap { .. }
        | Diagnostic::QuiescenceCeilingUnreadable { .. }
        | Diagnostic::QuiescenceCeilingForcedDespiteChange { .. }
        | Diagnostic::RebaseCeilingForced { .. }
        | Diagnostic::RebaseCeilingUnreadable { .. }
        | Diagnostic::SensorOverflow { .. }
        | Diagnostic::PromoterReseededForOverflow { .. }
        | Diagnostic::PerFileDriftDroppedOnRecovery { .. }
        | Diagnostic::PerFileFireSkippedOnFreshSeed { .. }
        | Diagnostic::QuiescenceAbsorbed { .. }
        | Diagnostic::AbsorbArmed { .. }
        | Diagnostic::PromoterAttached { .. }
        | Diagnostic::PromoterReaped { .. }
        | Diagnostic::PromoterDescentVanished { .. }
        | Diagnostic::PromoterDescentFailed { .. }
        | Diagnostic::PromotionKindObserved { .. }
        | Diagnostic::PromoterFanoutThreshold { .. }
        | Diagnostic::PromoterProxyStaleEvent { .. }
        | Diagnostic::PromoterEnumerationVanished { .. }
        | Diagnostic::PromoterEnumerationFailed { .. }
        | Diagnostic::InvalidBurstTransition { .. }
        | Diagnostic::WalkerContractViolated { .. } => None,
    }
}

/// The subscription a diagnostic names.
pub fn diag_sub_id(d: &Diagnostic) -> (sub: Option<SubId>)
    ensures
        sub == subject(*d),
{
    match d {
        Diagnostic::SubAttached { sub, .. } => Some(*sub),
        Diagnostic::SubFired { sub, .. } => Some(*sub),
        Diagnostic::SubDetached { sub, .. } => Some(*sub),
        Diagnostic::SubRebound { sub } => Some(*sub),
        Diagnostic::DetachUnknownSub { sub } => Some(*sub),
        Diagnostic::RebindUnknownSub { sub } => Some(*sub),
        Diagnostic::EffectCompleteForUnknownSub { sub } => Some(*sub),
        Diagnostic::EffectCompleteOutsideAwaiting { sub, .. } => Some(*sub),
        Diagnostic::DynamicSubReaped { sub, .. } => Some(*sub),
        Diagnostic::StaleProbeResponse { .. }
        | Diagnostic::StaleTimer { .. }
        | Diagnostic::ConfigDiffUnknownSub { .. }
        | Diagnostic::ConfigDiffUnknownPromoter { .. }
        | Diagnostic::ConfigDiffRebindFallbackAttach { .. }
        | Diagnostic::ProbeVanished { .. }
        | Diagnostic::ProbeFailed { .. }
        | Diagnostic::EventClassDropped { .. }
        | Diagnostic::EventOnUnwatchedResource { .. }
        | Diagnostic::EventNoConsumer { .. }
        | Diagnostic::WatchOpRejected { .. }
        | Diagnostic::PendingPathProbeVanished { .. }
        | Diagnostic::PendingPathProbeFailed { .. }
        | Diagnostic::ReapPendingCancelled { .. }
        | Diagnostic::ProfileReaped { .. }
        | Diagnostic::ProfileClaimPurged { .. }
        | Diagnostic::PromoterClaimPurged { .. }
        | Diagnostic::AttachPathInvalid { .. }
        | Diagnostic::AttachResourceStale { .. }
        | Diagnostic::SpliceCrossedUncovered { .. }
        | Diagnostic::AnchorKindMismatch { .. }
        | Diagnostic::EventAbsorbedByFireTail { .. }
        | Diagnostic::AwaitGateDeadlineForceRebasing { .. }
        | Diagnostic::AwaitGateDeadlineReap { .. }
        | Diagnostic::QuiescenceCeilingUnreadable { .. }
        | Diagnostic::QuiescenceCeilingForcedDespiteChange { .. }
        | Diagnostic::RebaseCeilingForced { .. }
        | Diagnostic::RebaseCeilingUnreadable { .. }
        | Diagnostic::SensorOverflow { .. }
        | Diagnostic::PromoterReseededForOverflow { .. }
        | Diagnostic::PerFileDriftDroppedOnRecovery { .. }
        | Diagnostic::PerFileFireSkippedOnFreshSeed { .. }
        | Diagnostic::QuiescenceAbsorbed { .. }
        | Diagnostic::AbsorbArmed { .. }
        | Diagnostic::PromoterAttached { .. }
        | Diagnostic::PromoterReaped { .. }
        | Diagnostic::PromoterDescentVanished { .. }
        | Diagnostic::PromoterDescentFailed { .. }
        | Diagnostic::PromotionKindObserved { .. }
        | Diagnostic::PromoterFanoutThreshold { .. }
        | Diagnostic::PromoterProxyStaleEvent { .. }
        | Diagnostic::PromoterEnumerationVanished { .. }
        | Diagnostic::PromoterEnumerationFailed { .. }
        | Diagnostic::InvalidBurstTransition { .. }
        | Diagnostic::WalkerContractViolated { .. } => None,
    }
}

/// The log line of a diagnostic names the subscription it is about.
pub proof fn law_log_names_the_subject(d: Diagnostic, sub: SubId)
    requires
        subject(d) == Some(sub),
    ensures
        log::fields_of(d).contains(("sub"@, log::FieldView::Sub(sub))),
{
    let fields = log::fields_of(d);
    if d is DynamicSubReaped {
        assert(fields[1] == ("sub"@, log::FieldView::Sub(sub)));
    } else {
        assert(fields[0] == ("sub"@, log::FieldView::Sub(sub)));
    }
}

/// Whoever reads the log learns of no subscription that those who listen to it
/// are not told of: a diagnostic whose log line names a subscription is about
/// that subscription.
pub proof fn law_what_the_log_names_is_the_subject(d: Diagnostic, sub: SubId)
    requires
        log::fields_of(d).contains(("sub"@, log::FieldView::Sub(sub))),
    ensures
        subject(d) == Some(sub),
{
    let fields = log::fields_of(d);
    let i = choose|i: int|
        0 <= i < fields.len() && fields[i] == ("sub"@, log::FieldView::Sub(sub));
    assert(fields[i].1 == log::FieldView::Sub(sub));
}

/// A diagnostic about a subscription names that one, and no diagnostic of
/// another kind names any.
pub proof fn law_a_diagnostic_names_its_own_subscription(d: Diagnostic)
    ensures
        d matches Diagnostic::SubAttached { sub, .. } ==> subject(d) == Some(sub),
        d matches Diagnostic::SubFired { sub, .. } ==> subject(d) == Some(sub),
        d matches Diagnostic::SubDetached { sub, .. } ==> subject(d) == Some(sub),
        d matches Diagnostic::SubRebound { sub } ==> subject(d) == Some(sub),
        d matches Diagnostic::DetachUnknownSub { sub } ==> subject(d) == Some(sub),
        d matches Diagnostic::RebindUnknownSub { sub } ==> subject(d) == Some(sub),
        d matches Diagnostic::EffectCompleteForUnknownSub { sub } ==> subject(d) == Some(sub),
        d matches Diagnostic::EffectCompleteOutsideAwaiting { sub, .. } ==> subject(d) == Some(sub),
        d matches Diagnostic::DynamicSubReaped { sub, .. } ==> subject(d) == Some(sub),
        subject(d) is Some ==> d is SubAttached || d is SubFired || d is SubDetached
            || d is SubRebound || d is DetachUnknownSub || d is RebindUnknownSub
            || d is EffectCompleteForUnknownSub || d is EffectCompleteOutsideAwaiting
            || d is DynamicSubReaped,
{
}

/// A refused watch.
#[derive(Debug)]
pub struct Rejection {
    pub resource: ResourceId,
    pub failure: SensorFailure,
}

/// The input that tells the engine of a refused watch.
pub open spec fn rejection_input(r: Rejection) -> Input {
    Input::WatchOpRejected { resource: r.resource, failure: r.failure }
}

/// The orders for the actuator: everything to stop before anything to run.
pub open spec fn orders(cancels: Seq<ProfileId>, effects: Seq<Effect>) -> Seq<EffectOp> {
    cancels.map_values(|profile: ProfileId| EffectOp::Cancel { profile }) + effects.map_values(
        |effect: Effect| EffectOp::Submit(effect),
    )
}

/// Lines up the orders for the actuator: everything to stop before anything to
/// run.
pub fn effect_orders(cancels: &[ProfileId], effects: &[Effect]) -> (ops: Vec<EffectOp>)
    ensures
        ops@ == orders(cancels@, effects@),
{
    let mut ops: Vec<EffectOp> = Vec::new();
    let mut i: usize = 0;
    while i < cancels.len()
        invariant
            i <= cancels@.len(),
            ops@ == orders(cancels@.take(i as int), Seq::empty()),
        decreases cancels@.len() - i,
    {
        ops.push(EffectOp::Cancel { profile: cancels[i] });
        i = i + 1;
        assert(ops@ =~= orders(cancels@.take(i as int), Seq::empty()));
    }
    assert(cancels@.take(i as int) =~= cancels@);
    let mut j: usize = 0;
    while j < effects.len()
        invariant
            j <= effects@.len(),
            ops@ == orders(cancels@, effects@.take(j as int)),
        decreases effects@.len() - j,
    {
        ops.push(EffectOp::Submit(effects[j]));
        j = j + 1;
        assert(ops@ =~= orders(cancels@, effects@.take(j as int)));
    }
    assert(effects@.take(j as int) =~= effects@);
    ops
}

/// Whether the driver goes on after an order. One that found no room is
/// dropped, and the engine recovers by its own deadline; without an actuator
/// there is nothing left to do.
pub fn after_order(verdict: Verdict) -> (flow: Flow)
    ensures
        flow == (if verdict == Verdict::Disconnected {
            Flow::Break
        } else {
            Flow::Continue
        }),
{
    match verdict {
        Verdict::Sent | Verdict::Full => Flow::Continue,
        Verdict::Disconnected => Flow::Break,
    }
}

/// What became of the orders of one step.
#[derive(Debug)]
pub struct OrderReport {
    /// What became of each order tried, in order.
    pub verdicts: Vec<Verdict>,
    /// The orders dropped for want of room, in order.
    pub dropped: Vec<EffectOp>,
    /// Whether the driver goes on.
    pub flow: Flow,
}

/// The first orders, as many as there are verdicts, each with its own.
pub open spec fn tried(ops: Seq<EffectOp>, verdicts: Seq<Verdict>) -> Seq<(EffectOp, Verdict)> {
    Seq::new(verdicts.len(), |i: int| (ops[i], verdicts[i]))
}

/// The orders that found no room.
pub open spec fn dropped_orders(tries: Seq<(EffectOp, Verdict)>) -> Seq<EffectOp>
    decreases tries.len(),
{
    if tries.len() == 0 {
        Seq::empty()
    } else {
        let before = dropped_orders(tries.drop_last());
        if tries.last().1 == Verdict::Full {
            before.push(tries.last().0)
        } else {
            before
        }
    }
}

/// Whether a report fits the orders: they are tried to the end, or to the
/// first that finds the actuator gone.
pub open spec fn reported(ops: Seq<EffectOp>, report: OrderReport) -> bool {
    let verdicts = report.verdicts@;
    let n = verdicts.len();
    &&& n <= ops.len()
    &&& forall|i: int| 0 <= i < n - 1 ==> #[trigger] verdicts[i] != Verdict::Disconnected
    &&& report.flow == Flow::Break <==> n > 0 && verdicts[n - 1] == Verdict::Disconnected
    &&& report.flow == Flow::Continue ==> n == ops.len()
    &&& report.dropped@ == dropped_orders(tried(ops, verdicts))
}

/// Whether the actuator was handed the orders of the report, in order, each
/// once, and nothing else.
pub open spec fn ordered(
    before: ActuatorIO,
    ops: Seq<EffectOp>,
    report: OrderReport,
    after: ActuatorIO,
) -> bool {
    &&& reported(ops, report)
    &&& after.effects_tx.tx() == before.effects_tx.tx()
    &&& after.effects_tx.log() == before.effects_tx.log() + tried(ops, report.verdicts@)
    &&& after == (ActuatorIO { effects_tx: after.effects_tx, ..before })
}

/// Sends the orders to the actuator, none of them waited for.
pub fn send_orders(io: &mut ActuatorIO, ops: &[EffectOp]) -> (report: OrderReport)
    ensures
        ordered(*old(io), ops@, report, *final(io)),
{
    let mut verdicts: Vec<Verdict> = Vec::new();
    let mut dropped: Vec<EffectOp> = Vec::new();
    let mut i: usize = 0;
    assert(io.effects_tx.log() =~= old(io).effects_tx.log() + tried(ops@, verdicts@));
    while i < ops.len()
        invariant
            i <= ops@.len(),
            verdicts@.len() == i,
            dropped@ == dropped_orders(tried(ops@, verdicts@)),
            forall|j: int| 0 <= j < i ==> #[trigger] verdicts@[j] != Verdict::Disconnected,
            io.effects_tx.tx() == old(io).effects_tx.tx(),
            io.effects_tx.log() == old(io).effects_tx.log() + tried(ops@, verdicts@),
            *io == (ActuatorIO { effects_tx: io.effects_tx, ..*old(io) }),
        decreases ops@.len() - i,
    {
        let ghost before = verdicts@;
        let verdict: Verdict = io.effects_tx.offer(ops[i]);
        verdicts.push(verdict);
        proof {
            assert(tried(ops@, verdicts@).drop_last() =~= tried(ops@, before));
            assert(io.effects_tx.log() =~= old(io).effects_tx.log() + tried(ops@, verdicts@));
        }
        if verdict == Verdict::Full {
            dropped.push(ops[i]);
        }
        if after_order(verdict) == Flow::Break {
            return OrderReport { verdicts, dropped, flow: Flow::Break };
        }
        i = i + 1;
    }
    OrderReport { verdicts, dropped, flow: Flow::Continue }
}

/// Whether the refused watches wait in `after`, in order, behind what waited
/// `before`.
pub open spec fn rejections_wait(
    before: Seq<Input>,
    rejected: Seq<Rejection>,
    after: Seq<Input>,
) -> bool {
    after == before + rejected.map_values(|r: Rejection| rejection_input(r))
}

/// Every refused watch waits for the engine, with its own resource and reason,
/// in order and behind what waited before; nothing is lost, nothing else comes.
pub proof fn law_every_refused_watch_waits_in_turn(
    before: Seq<Input>,
    rejected: Seq<Rejection>,
    after: Seq<Input>,
)
    requires
        rejections_wait(before, rejected, after),
    ensures
        after.len() == before.len() + rejected.len(),
        before.is_prefix_of(after),
        forall|i: int|
            0 <= i < rejected.len() ==> (after[before.len() + i] matches Input::WatchOpRejected {
                resource,
                failure,
            } && resource == (#[trigger] rejected[i]).resource && failure == rejected[i].failure),
{
    assert(before =~= after.subrange(0, before.len() as int));
}

/// Queues refused watches for the engine, in order.
pub fn defer_rejections(deferred: &mut VecDeque<Input>, rejected: Vec<Rejection>)
    ensures
        rejections_wait(old(deferred)@, rejected@, final(deferred)@),
{
    let ghost all = rejected@;
    let ghost inputs = all.map_values(|r: Rejection| rejection_input(r));
    let ghost start = deferred@;
    let mut rest = rejected;
    let mut queue: VecDeque<Input> = VecDeque::new();
    assert(inputs.skip(all.len() as int) =~= Seq::empty());
    assert(all.take(all.len() as int) =~= all);
    while rest.len() > 0
        invariant
            rest@.len() <= all.len(),
            rest@ == all.take(rest@.len() as int),
            inputs == all.map_values(|r: Rejection| rejection_input(r)),
            queue@ == inputs.skip(rest@.len() as int),
        decreases rest@.len(),
    {
        let ghost n = rest@.len();
        match rest.pop() {
            Some(r) => {
                queue.push_front(Input::WatchOpRejected { resource: r.resource, failure: r.failure });
                assert(queue@ =~= inputs.skip(n - 1));
                assert(rest@ =~= all.take(n - 1));
            },
            None => {},
        }
    }
    assert(inputs.skip(0) =~= inputs);
    deferred.append(&mut queue);
}

/// What is offered to a connection for each diagnostic: its line, its subject
/// and the moment, the same for all.
pub open spec fn offers(
    diagnostics: Seq<Diagnostic>,
    lines: Seq<Vec<u8>>,
    at: WallTime,
) -> Seq<(Seq<u8>, Option<SubId>, WallTime)> {
    Seq::new(diagnostics.len(), |i: int| (lines[i]@, subject(diagnostics[i]), at))
}

/// Whether `next` is `conn` after all `offers`.
pub open spec fn streamed(
    conn: ConnState,
    offers: Seq<(Seq<u8>, Option<SubId>, WallTime)>,
    next: ConnState,
) -> bool {
    exists|states: Seq<ConnState>|
        #[trigger] conns::offered(states, offers) && states[0] == conn && states.last() == next
}

/// Whether a log line is that of the diagnostic.
pub open spec fn logged(record: LogRecord, d: Diagnostic) -> bool {
    &&& record.level == log::level_of(d)
    &&& record.message@ == log::message_of(d)
    &&& log::said(record.fields@) == log::fields_of(d)
}

/// Whether the log lines are those of the diagnostics, in order.
pub open spec fn all_logged(records: Seq<LogRecord>, diagnostics: Seq<Diagnostic>) -> bool {
    &&& records.len() == diagnostics.len()
    &&& forall|i: int| 0 <= i < records.len() ==> logged(#[trigger] records[i], diagnostics[i])
}

/// Every diagnostic of a step has its own log line, in its place.
pub proof fn law_every_diagnostic_is_logged(
    records: Seq<LogRecord>,
    diagnostics: Seq<Diagnostic>,
    i: int,
)
    requires
        all_logged(records, diagnostics),
        0 <= i < diagnostics.len(),
    ensures
        records.len() == diagnostics.len(),
        records[i].level == log::level_of(diagnostics[i]),
        records[i].message@ == log::message_of(diagnostics[i]),
        records[i].fields@.len() == log::fields_of(diagnostics[i]).len(),
        forall|j: int|
            0 <= j < records[i].fields@.len() ==> (#[trigger] records[i].fields@[j]).name@
                == log::fields_of(diagnostics[i])[j].0 && records[i].fields@[j].value@
                == log::fields_of(diagnostics[i])[j].1,
{
    assert(logged(records[i], diagnostics[i]));
    let said = log::said(records[i].fields@);
    assert forall|j: int| 0 <= j < records[i].fields@.len() implies (
    #[trigger] records[i].fields@[j]).name@ == log::fields_of(diagnostics[i])[j].0
        && records[i].fields@[j].value@ == log::fields_of(diagnostics[i])[j].1 by {
        assert(said[j] == (records[i].fields@[j].name@, records[i].fields@[j].value@));
    }
}

/// Whether `after` is `before` with all `offers` made to every connection.
/// Where nobody listens nothing is.
pub open spec fn all_streamed(
    before: Hub,
    offers: Seq<(Seq<u8>, Option<SubId>, WallTime)>,
    after: Hub,
) -> bool {
    if before.spec_has_any_subscriber() {
        &&& after.next_conn_token == before.next_conn_token
        &&& after.conns@.len() == before.conns@.len()
        &&& forall|c: int|
            0 <= c < before.conns@.len() ==> streamed(
                #[trigger] before.conns@[c],
                offers,
                after.conns@[c],
            )
    } else {
        after == before
    }
}

/// The lines, one after the other, of those among the first `n` diagnostics
/// that are for a listener with this filter.
pub open spec fn lines_for(
    filter: Option<SubId>,
    diagnostics: Seq<Diagnostic>,
    lines: Seq<Vec<u8>>,
    n: nat,
) -> Seq<u8>
    decreases n,
{
    if n == 0 {
        Seq::empty()
    } else {
        let i = n - 1;
        let before = lines_for(filter, diagnostics, lines, i as nat);
        if filter is None || subject(diagnostics[i]) == filter {
            before + lines[i]@
        } else {
            before
        }
    }
}

/// Whether any of the first `n` diagnostics is for a listener with this
/// filter.
pub open spec fn any_for(filter: Option<SubId>, diagnostics: Seq<Diagnostic>, n: nat) -> bool {
    exists|i: int|
        0 <= i < n && (filter is None || #[trigger] subject(diagnostics[i]) == filter)
}

/// Whether a connection that streams, where it has room, is given exactly the
/// lines of its own diagnostics, in order, behind the report of what it lost
/// before, and a connection that does not stream, or is about to close, is
/// given nothing.
pub open spec fn own_lines(
    conn: ConnState,
    diagnostics: Seq<Diagnostic>,
    lines: Seq<Vec<u8>>,
    next: ConnState,
) -> bool {
    let n = diagnostics.len();
    match conn.role {
        ConnRole::Sub { filter, missed } if !conn.close_after_flush => {
            let own = lines_for(filter, diagnostics, lines, n);
            conn.write_queue@.len() + missed.marker().len() + own.len() <= conns::ACCEPT_CAP ==> {
                &&& any_for(filter, diagnostics, n) ==> next.write_queue@ == conn.write_queue@
                    + missed.marker() + own
                &&& !any_for(filter, diagnostics, n) ==> next.write_queue@ == conn.write_queue@
                &&& missed == MissedWindow::Closed ==> next.write_queue@ == conn.write_queue@ + own
            }
        },
        _ => next.write_queue@ == conn.write_queue@,
    }
}

/// Each listener gets its own: of the diagnostics of a step, the lines of
/// exactly those about the subscription it listens to, each judged by itself,
/// or of all of them where it listens to everything, in order and whole,
/// wherever it has room for them.
pub proof fn law_a_listener_gets_its_own_lines(
    conn: ConnState,
    diagnostics: Seq<Diagnostic>,
    lines: Seq<Vec<u8>>,
    at: WallTime,
    next: ConnState,
)
    requires
        streamed(conn, offers(diagnostics, lines, at), next),
        lines.len() == diagnostics.len(),
    ensures
        own_lines(conn, diagnostics, lines, next),
{
    let all = offers(diagnostics, lines, at);
    let states = choose|states: Seq<ConnState>|
        #[trigger] conns::offered(states, all) && states[0] == conn && states.last() == next;
    let n = diagnostics.len();
    match conn.role {
        ConnRole::Sub { filter, missed } if !conn.close_after_flush => {
            if conn.write_queue@.len() + missed.marker().len() + lines_for(
                filter,
                diagnostics,
                lines,
                n,
            ).len() <= conns::ACCEPT_CAP {
                lemma_own_lines_so_far(states, filter, missed, diagnostics, lines, at, n);
                assert(states[n as int] == next);
                if !any_for(filter, diagnostics, n) {
                    lemma_no_lines(filter, diagnostics, lines, n);
                }
            }
        },
        _ => {
            lemma_no_stream_no_lines(states, all, n);
        },
    }
}

/// Without a diagnostic for the listener there is no line for it.
proof fn lemma_no_lines(
    filter: Option<SubId>,
    diagnostics: Seq<Diagnostic>,
    lines: Seq<Vec<u8>>,
    n: nat,
)
    requires
        !any_for(filter, diagnostics, n),
    ensures
        lines_for(filter, diagnostics, lines, n) == Seq::<u8>::empty(),
    decreases n,
{
    if n > 0 {
        let i = n - 1;
        assert(!(filter is None || subject(diagnostics[i]) == filter));
        assert(!any_for(filter, diagnostics, i as nat));
        lemma_no_lines(filter, diagnostics, lines, i as nat);
    }
}

/// The lines so far are no longer than all of them.
proof fn lemma_lines_grow(
    filter: Option<SubId>,
    diagnostics: Seq<Diagnostic>,
    lines: Seq<Vec<u8>>,
    k: nat,
    n: nat,
)
    requires
        k <= n,
    ensures
        lines_for(filter, diagnostics, lines, k).len() <= lines_for(
            filter,
            diagnostics,
            lines,
            n,
        ).len(),
    decreases n,
{
    if k < n {
        lemma_lines_grow(filter, diagnostics, lines, k, (n - 1) as nat);
    }
}

/// What a listener with room has been given after `k` diagnostics.
proof fn lemma_own_lines_so_far(
    states: Seq<ConnState>,
    filter: Option<SubId>,
    missed: MissedWindow,
    diagnostics: Seq<Diagnostic>,
    lines: Seq<Vec<u8>>,
    at: WallTime,
    k: nat,
)
    requires
        conns::offered(states, offers(diagnostics, lines, at)),
        k <= diagnostics.len() == lines.len(),
        !states[0].close_after_flush,
        states[0].role == (ConnRole::Sub { filter, missed }),
        states[0].write_queue@.len() + missed.marker().len() + lines_for(
            filter,
            diagnostics,
            lines,
            diagnostics.len(),
        ).len() <= conns::ACCEPT_CAP,
    ensures
        ({
            let own = lines_for(filter, diagnostics, lines, k);
            let now = states[k as int];
            &&& !now.close_after_flush
            &&& any_for(filter, diagnostics, k) ==> now.role == (ConnRole::Sub {
                filter,
                missed: MissedWindow::Closed,
            }) && now.write_queue@ == states[0].write_queue@ + missed.marker() + own
            &&& !any_for(filter, diagnostics, k) ==> now.role == states[0].role
                && now.write_queue@ == states[0].write_queue@
        }),
    decreases k,
{
    if k > 0 {
        let i = k - 1;
        let all = offers(diagnostics, lines, at);
        lemma_own_lines_so_far(states, filter, missed, diagnostics, lines, at, i as nat);
        lemma_lines_grow(filter, diagnostics, lines, k, diagnostics.len());
        let before = states[i];
        assert(all[i] == (lines[i]@, subject(diagnostics[i]), at));
        assert(before.dispatched(all[i].0, all[i].1, all[i].2, states[i + 1]));
        let wanted = filter is None || subject(diagnostics[i]) == filter;
        assert(any_for(filter, diagnostics, k) <==> any_for(filter, diagnostics, i as nat)
            || wanted) by {
            if wanted {
                assert(filter is None || subject(diagnostics[i]) == filter);
            }
        }
        if !any_for(filter, diagnostics, i as nat) {
            lemma_no_lines(filter, diagnostics, lines, i as nat);
        }
        let own = lines_for(filter, diagnostics, lines, k);
        if wanted {
            if any_for(filter, diagnostics, i as nat) {
                assert(states[k as int].write_queue@ =~= states[0].write_queue@ + missed.marker()
                    + own);
            } else {
                assert(own =~= lines[i]@);
            }
        }
    }
}

/// A connection that does not stream, or is about to close, is given nothing.
proof fn lemma_no_stream_no_lines(
    states: Seq<ConnState>,
    offers: Seq<(Seq<u8>, Option<SubId>, WallTime)>,
    k: nat,
)
    requires
        conns::offered(states, offers),
        k <= offers.len(),
        states[0].close_after_flush || states[0].role is Reqs,
    ensures
        states[k as int].write_queue@ == states[0].write_queue@,
        states[k as int].role == states[0].role,
        states[k as int].close_after_flush == states[0].close_after_flush,
    decreases k,
{
    if k > 0 {
        let i = k - 1;
        lemma_no_stream_no_lines(states, offers, i as nat);
        assert(states[i].dispatched(offers[i].0, offers[i].1, offers[i].2, states[i + 1]));
    }
}

/// Turns the diagnostics of one step into log lines and streams them to the
/// operators who listen. All of them carry the one reading `at` of the clock.
/// The encoded `lines` are looked at only where somebody listens.
pub fn forward_diagnostics(
    ipc: &mut Hub,
    diagnostics: &[Diagnostic],
    lines: &[Vec<u8>],
    at: WallTime,
) -> (records: Vec<LogRecord>)
    requires
        old(ipc).wf(),
        old(ipc).spec_has_any_subscriber() ==> lines@.len() == diagnostics@.len(),
    ensures
        final(ipc).wf(),
        all_logged(records@, diagnostics@),
        all_streamed(*old(ipc), offers(diagnostics@, lines@, at), *final(ipc)),
        final(ipc).conns@.len() == old(ipc).conns@.len(),
        forall|c: int|
            0 <= c < old(ipc).conns@.len() ==> own_lines(
                #[trigger] old(ipc).conns@[c],
                diagnostics@,
                lines@,
                final(ipc).conns@[c],
            ),
{
    let mut records: Vec<LogRecord> = Vec::new();
    let listened: bool = ipc.has_any_subscriber();
    let ghost all = offers(diagnostics@, lines@, at);
    let ghost n = ipc.conns@.len();
    let ghost mut trails: Seq<Seq<ConnState>> = Seq::new(n, |c: int| seq![ipc.conns@[c]]);
    let mut i: usize = 0;
    assert forall|c: int| 0 <= c < n implies conns::offered(#[trigger] trails[c], all.take(0)) by {}
    while i < diagnostics.len()
        invariant
            i <= diagnostics@.len(),
            records@.len() == i,
            forall|j: int| 0 <= j < i ==> logged(#[trigger] records@[j], diagnostics@[j]),
            all == offers(diagnostics@, lines@, at),
            n == old(ipc).conns@.len(),
            trails.len() == n,
            listened == old(ipc).spec_has_any_subscriber(),
            listened ==> lines@.len() == diagnostics@.len(),
            ipc.wf(),
            ipc.next_conn_token == old(ipc).next_conn_token,
            !listened ==> *ipc == *old(ipc),
            listened ==> ipc.conns@.len() == n,
            listened ==> forall|c: int|
                0 <= c < n ==> {
                    &&& conns::offered(#[trigger] trails[c], all.take(i as int))
                    &&& trails[c][0] == old(ipc).conns@[c]
                    &&& trails[c].last() == ipc.conns@[c]
                },
        decreases diagnostics@.len() - i,
    {
        records.push(log::log_diagnostic(&diagnostics[i]));
        if listened {
            let ghost before = ipc.conns@;
            let sub: Option<SubId> = diag_sub_id(&diagnostics[i]);
            ipc.dispatch_to_subscribers(lines[i].as_slice(), at, sub);
            proof {
                let longer = Seq::new(n, |c: int| trails[c].push(ipc.conns@[c]));
                assert forall|c: int| 0 <= c < n implies {
                    &&& conns::offered(#[trigger] longer[c], all.take(i + 1))
                    &&& longer[c][0] == old(ipc).conns@[c]
                    &&& longer[c].last() == ipc.conns@[c]
                } by {
                    let so_far = all.take(i as int);
                    let next = all.take(i + 1);
                    assert(conns::offered(trails[c], so_far));
                    assert(before[c].dispatched(lines@[i as int]@, sub, at, ipc.conns@[c]));
                    assert forall|k: int|
                        #![trigger next[k]]
                        0 <= k < next.len() implies longer[c][k].dispatched(
                        next[k].0,
                        next[k].1,
                        next[k].2,
                        longer[c][k + 1],
                    ) by {
                        if k < i {
                            assert(next[k] == so_far[k]);
                            assert(longer[c][k] == trails[c][k]);
                            assert(longer[c][k + 1] == trails[c][k + 1]);
                        } else {
                            assert(longer[c][k] == before[c]);
                            assert(next[k] == all[i as int]);
                        }
                    }
                }
                trails = longer;
            }
        }
        i = i + 1;
    }
    proof {
        if listened {
            assert(all.take(i as int) =~= all);
            assert forall|c: int| 0 <= c < n implies streamed(
                #[trigger] old(ipc).conns@[c],
                all,
                ipc.conns@[c],
            ) by {
                assert(conns::offered(trails[c], all));
            }
            assert forall|c: int| 0 <= c < n implies own_lines(
                #[trigger] old(ipc).conns@[c],
                diagnostics@,
                lines@,
                ipc.conns@[c],
            ) by {
                law_a_listener_gets_its_own_lines(
                    old(ipc).conns@[c],
                    diagnostics@,
                    lines@,
                    at,
                    ipc.conns@[c],
                );
            }
        } else {
            assert forall|c: int| 0 <= c < n implies own_lines(
                #[trigger] old(ipc).conns@[c],
                diagnostics@,
                lines@,
                ipc.conns@[c],
            ) by {
                assert(!old(ipc).conns@[c].role.spec_is_sub());
            }
        }
    }
    records
}

/// What became of one step of the engine.
pub struct Forwarded {
    /// The programs stopped and started.
    pub orders: OrderReport,
    /// The log lines.
    pub records: Vec<LogRecord>,
}

/// What one step of the engine brought: the watches that were refused, the
/// profiles to stop, the programs to run, and the diagnostics with their
/// encoded lines and their moment.
pub struct StepOutput {
    pub rejected: Seq<Rejection>,
    pub cancels: Seq<ProfileId>,
    pub effects: Seq<Effect>,
    pub diagnostics: Seq<Diagnostic>,
    pub lines: Seq<Vec<u8>>,
    pub at: WallTime,
}

/// Whether `after` is `before` once it passed the outcome of a step on, and
/// `done` the account of it.
pub open spec fn forwarded(
    before: EngineDriver,
    step: StepOutput,
    done: Forwarded,
    after: EngineDriver,
) -> bool {
    &&& rejections_wait(before.deferred_inputs@, step.rejected, after.deferred_inputs@)
    &&& ordered(
        before.actuator_io,
        orders(step.cancels, step.effects),
        done.orders,
        after.actuator_io,
    )
    &&& done.orders.flow == Flow::Continue ==> {
        &&& all_logged(done.records@, step.diagnostics)
        &&& all_streamed(before.ipc, offers(step.diagnostics, step.lines, step.at), after.ipc)
    }
    &&& done.orders.flow == Flow::Break ==> done.records@.len() == 0 && after.ipc == before.ipc
    &&& after == (EngineDriver {
        deferred_inputs: after.deferred_inputs,
        actuator_io: after.actuator_io,
        ipc: after.ipc,
        ..before
    })
}

/// Whatever becomes of the orders of a step, each watch that it refused waits
/// for the next turn. While there is an actuator, every diagnostic has its own
/// log line, in order, and every connection stays; without one nothing is
/// logged and no connection is sent anything.
pub proof fn law_a_step_is_passed_on_whole(
    before: EngineDriver,
    step: StepOutput,
    done: Forwarded,
    after: EngineDriver,
)
    requires
        forwarded(before, step, done, after),
    ensures
        after.deferred_inputs@.len() == before.deferred_inputs@.len() + step.rejected.len(),
        before.deferred_inputs@.is_prefix_of(after.deferred_inputs@),
        ({
            let tried = after.actuator_io.effects_tx.log().len()
                - before.actuator_io.effects_tx.log().len();
            let gone = tried > 0 && after.actuator_io.effects_tx.log().last().1
                == Verdict::Disconnected;
            &&& done.orders.flow == Flow::Break <==> gone
            &&& !gone ==> {
                &&& tried == step.cancels.len() + step.effects.len()
                &&& done.records@.len() == step.diagnostics.len()
                &&& forall|i: int|
                    0 <= i < step.diagnostics.len() ==> (#[trigger] done.records@[i]).level
                        == log::level_of(step.diagnostics[i]) && log::said(done.records@[i].fields@)
                        == log::fields_of(step.diagnostics[i])
                &&& after.ipc.conns@.len() == before.ipc.conns@.len()
            }
            &&& gone ==> done.records@.len() == 0 && after.ipc == before.ipc
        }),
        after.loader == before.loader,
        after.disabled_runtime == before.disabled_runtime,
        after.first_term == before.first_term,
        after.config_settle_until == before.config_settle_until,
{
    law_every_refused_watch_waits_in_turn(
        before.deferred_inputs@,
        step.rejected,
        after.deferred_inputs@,
    );
    law_only_a_lost_actuator_ends_the_orders(
        before.actuator_io,
        orders(step.cancels, step.effects),
        done.orders,
        after.actuator_io,
    );
    let n = before.actuator_io.effects_tx.log().len() as int;
    let fresh = after.actuator_io.effects_tx.log().skip(n);
    if fresh.len() > 0 {
        assert(fresh.last() == after.actuator_io.effects_tx.log().last());
    }
}

impl EngineDriver {
    /// Passes the outcome of one step of the engine on: the `rejected` watches
    /// wait for the next turn, the orders go to the actuator, and the
    /// diagnostics to the log and to the operators who listen. Without an
    /// actuator the diagnostics are dropped; the driver ends.
    pub fn forward(
        &mut self,
        rejected: Vec<Rejection>,
        cancels: &[ProfileId],
        effects: &[Effect],
        diagnostics: &[Diagnostic],
        lines: &[Vec<u8>],
        at: WallTime,
    ) -> (done: Forwarded)
        requires
            old(self).wf(),
            old(self).ipc.spec_has_any_subscriber() ==> lines@.len() == diagnostics@.len(),
        ensures
            final(self).wf(),
            forwarded(
                *old(self),
                StepOutput {
                    rejected: rejected@,
                    cancels: cancels@,
                    effects: effects@,
                    diagnostics: diagnostics@,
                    lines: lines@,
                    at,
                },
                done,
                *final(self),
            ),
    {
        defer_rejections(&mut self.deferred_inputs, rejected);
        let ops = effect_orders(cancels, effects);
        let report = send_orders(&mut self.actuator_io, ops.as_slice());
        match report.flow {
            Flow::Break => Forwarded { orders: report, records: Vec::new() },
            Flow::Continue => {
                let records = forward_diagnostics(&mut self.ipc, diagnostics, lines, at);
                Forwarded { orders: report, records }
            },
        }
    }
}

/// The actuator is handed what the step asks for and nothing else: the place of
/// each order tells what it is. First the profiles to stop, in their order,
/// then the programs to run, in theirs.
pub proof fn law_the_actuator_gets_the_orders_of_the_step(
    before: ActuatorIO,
    cancels: Seq<ProfileId>,
    effects: Seq<Effect>,
    report: OrderReport,
    after: ActuatorIO,
    k: int,
)
    requires
        ordered(before, orders(cancels, effects), report, after),
        0 <= k < after.effects_tx.log().len() - before.effects_tx.log().len(),
    ensures
        before.effects_tx.log().is_prefix_of(after.effects_tx.log()),
        ({
            let op = after.effects_tx.log()[before.effects_tx.log().len() + k].0;
            &&& k < cancels.len() ==> (op matches EffectOp::Cancel { profile } && profile
                == cancels[k])
            &&& k >= cancels.len() ==> (op matches EffectOp::Submit(effect) && effect
                == effects[k - cancels.len()])
        }),
        after.shutdown_actuator_tx == before.shutdown_actuator_tx,
        after.hard_shutdown_actuator_tx == before.hard_shutdown_actuator_tx,
{
    let n = before.effects_tx.log().len() as int;
    let ops = orders(cancels, effects);
    assert(before.effects_tx.log() =~= after.effects_tx.log().subrange(0, n));
    assert(after.effects_tx.log()[n + k] == tried(ops, report.verdicts@)[k]);
}

/// Orders are handed over until one finds the actuator gone, which ends the
/// driver; one that only finds no room does not. Exactly those that found no
/// room are reported as dropped, in order.
pub proof fn law_only_a_lost_actuator_ends_the_orders(
    before: ActuatorIO,
    ops: Seq<EffectOp>,
    report: OrderReport,
    after: ActuatorIO,
)
    requires
        ordered(before, ops, report, after),
    ensures
        ({
            let fresh = after.effects_tx.log().skip(before.effects_tx.log().len() as int);
            &&& report.flow == Flow::Break <==> fresh.len() > 0 && fresh.last().1
                == Verdict::Disconnected
            &&& report.flow == Flow::Continue <==> fresh.len() == ops.len() && forall|i: int|
                0 <= i < fresh.len() ==> (#[trigger] fresh[i]).1 != Verdict::Disconnected
            &&& report.dropped@ == fresh.filter(
                |t: (EffectOp, Verdict)| t.1 == Verdict::Full,
            ).map_values(|t: (EffectOp, Verdict)| t.0)
        }),
{
    let fresh = after.effects_tx.log().skip(before.effects_tx.log().len() as int);
    let tries = tried(ops, report.verdicts@);
    assert(fresh =~= tries);
    lemma_dropped_are_the_full_ones(tries);
    let verdicts = report.verdicts@;
    if report.flow == Flow::Continue {
        assert forall|i: int| 0 <= i < fresh.len() implies (#[trigger] fresh[i]).1
            != Verdict::Disconnected by {
            assert(fresh[i].1 == verdicts[i]);
            if i == verdicts.len() - 1 {
                assert(report.flow != Flow::Break);
            }
        }
    } else {
        let last = verdicts.len() - 1;
        assert(fresh[last].1 == verdicts[last]);
    }
}

/// The dropped orders are those that found no room.
proof fn lemma_dropped_are_the_full_ones(tries: Seq<(EffectOp, Verdict)>)
    ensures
        dropped_orders(tries) == tries.filter(
            |t: (EffectOp, Verdict)| t.1 == Verdict::Full,
        ).map_values(|t: (EffectOp, Verdict)| t.0),
    decreases tries.len(),
{
    reveal(Seq::filter);
    let full = |t: (EffectOp, Verdict)| t.1 == Verdict::Full;
    let op = |t: (EffectOp, Verdict)| t.0;
    if tries.len() > 0 {
        lemma_dropped_are_the_full_ones(tries.drop_last());
        assert(dropped_orders(tries) =~= tries.filter(full).map_values(op));
    } else {
        assert(dropped_orders(tries) =~= tries.filter(full).map_values(op));
    }
}

/// Nothing is started before everything that the same step stops is stopped:
/// in the account of what the actuator was handed, the stops of a step stand
/// before its starts.
pub proof fn law_stops_go_before_starts(
    before: ActuatorIO,
    cancels: Seq<ProfileId>,
    effects: Seq<Effect>,
    report: OrderReport,
    after: ActuatorIO,
    i: int,
    j: int,
)
    requires
        ordered(before, orders(cancels, effects), report, after),
        before.effects_tx.log().len() <= i < after.effects_tx.log().len(),
        before.effects_tx.log().len() <= j < after.effects_tx.log().len(),
        after.effects_tx.log()[i].0 is Cancel,
        after.effects_tx.log()[j].0 is Submit,
    ensures
        i < j,
{
    let ops = orders(cancels, effects);
    let n = before.effects_tx.log().len() as int;
    assert(after.effects_tx.log()[i].0 == ops[i - n]);
    assert(after.effects_tx.log()[j].0 == ops[j - n]);
}

/// Each order of a step is handed to the actuator once, in its place, and
/// reaches it or is among the dropped, unless the actuator is gone.
pub proof fn law_every_order_is_accounted_for(
    before: ActuatorIO,
    cancels: Seq<ProfileId>,
    effects: Seq<Effect>,
    report: OrderReport,
    after: ActuatorIO,
    k: int,
)
    requires
        ordered(before, orders(cancels, effects), report, after),
        report.flow == Flow::Continue,
        0 <= k < cancels.len() + effects.len(),
    ensures
        after.effects_tx.log().len() == before.effects_tx.log().len() + cancels.len()
            + effects.len(),
        ({
            let (op, verdict) = after.effects_tx.log()[before.effects_tx.log().len() + k];
            &&& op == orders(cancels, effects)[k]
            &&& verdict == Verdict::Sent || report.dropped@.contains(op)
        }),
{
    let ops = orders(cancels, effects);
    let verdicts = report.verdicts@;
    assert(after.effects_tx.log()[before.effects_tx.log().len() + k] == tried(ops, verdicts)[k]);
    if verdicts[k] != Verdict::Sent {
        assert(verdicts[k] == Verdict::Full) by {
            if k == verdicts.len() - 1 {
                assert(report.flow != Flow::Break);
            }
        }
        lemma_dropped_holds(tried(ops, verdicts), k);
    }
}

/// What found no room is among the dropped.
proof fn lemma_dropped_holds(tries: Seq<(EffectOp, Verdict)>, k: int)
    requires
        0 <= k < tries.len(),
        tries[k].1 == Verdict::Full,
    ensures
        dropped_orders(tries).contains(tries[k].0),
    decreases tries.len(),
{
    let before = dropped_orders(tries.drop_last());
    if k == tries.len() - 1 {
        assert(dropped_orders(tries)[before.len() as int] == tries[k].0);
    } else {
        lemma_dropped_holds(tries.drop_last(), k);
        let p = choose|p: int| 0 <= p < before.len() && before[p] == tries[k].0;
        assert(dropped_orders(tries)[p] == tries[k].0);
    }
}

} // verus!
