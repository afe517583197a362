//! Per-connection state: the read accumulator, the write queue and the role.
//!
//! Every change of the role, of the back-pressure window, of the close flag
//! and of the queued bytes goes through a method of [`ConnState`].

use std::collections::VecDeque;
use vstd::prelude::*;
use crate::ids::SubId;
use crate::ipc::framing;
use crate::time::WallTime;

verus! {

/// Hard ceiling of a connection's write queue.
pub const WRITE_QUEUE_HIGH_WATER: usize = 256 * 1024;

/// Bytes kept free below the hard ceiling for the line that tells a client
/// its answer was too big.
pub const RESPONSE_TOO_BIG_RESERVE: usize = 1024;

/// Soft cap that every ordinary write honours.
pub const ACCEPT_CAP: usize = WRITE_QUEUE_HIGH_WATER - RESPONSE_TOO_BIG_RESERVE;

/// Diagnostics dropped for want of room since the last report of drops.
#[derive(Debug, PartialEq, Eq, Structural, Clone, Copy)]
pub enum MissedWindow {
    /// Nothing dropped since the last report.
    Closed,
    /// `count` diagnostics dropped, the first of them at `since`.
    Open { count: u32, since: WallTime },
}

impl MissedWindow {
    /// The window after one more drop, at `at`.
    pub open spec fn after_drop(self, at: WallTime) -> MissedWindow {
        match self {
            MissedWindow::Closed => MissedWindow::Open { count: 1, since: at },
            MissedWindow::Open { count, since } => MissedWindow::Open {
                count: if count < u32::MAX { (count + 1) as u32 } else { u32::MAX },
                since,
            },
        }
    }

    /// The window after a run of drops.
    pub open spec fn after_drops(self, at: Seq<WallTime>) -> MissedWindow
        decreases at.len(),
    {
        if at.len() == 0 {
            self
        } else {
            self.after_drops(at.drop_last()).after_drop(at.last())
        }
    }

    /// What the window would report: how many drops, and since when.
    pub open spec fn pending(self) -> Option<(u32, WallTime)> {
        match self {
            MissedWindow::Closed => None,
            MissedWindow::Open { count, since } => Some((count, since)),
        }
    }

    /// The bytes of the report line, empty while nothing is pending.
    pub open spec fn marker(self) -> Seq<u8> {
        match self {
            MissedWindow::Closed => Seq::empty(),
            MissedWindow::Open { count, since } => framing::bytes(
                framing::missed_line(since, count),
            ),
        }
    }

    /// Records one dropped diagnostic. The first drop fixes the start of the
    /// window; later ones only count.
    pub fn record_drop(&mut self, at: WallTime)
        ensures
            *final(self) == old(self).after_drop(at),
    {
        match self {
            MissedWindow::Closed => {
                *self = MissedWindow::Open { count: 1, since: at };
            },
            MissedWindow::Open { count, .. } => {
                *count = count.saturating_add(1);
            },
        }
    }

    /// Closes the window and returns what it held.
    pub fn take(&mut self) -> (held: Option<(u32, WallTime)>)
        ensures
            held == old(self).pending(),
            *final(self) == MissedWindow::Closed,
    {
        let held: Option<(u32, WallTime)> = match *self {
            MissedWindow::Closed => None,
            MissedWindow::Open { count, since } => Some((count, since)),
        };
        *self = MissedWindow::Closed;
        held
    }
}

impl Default for MissedWindow {
    fn default() -> (window: Self)
        ensures
            window == MissedWindow::Closed,
    {
        MissedWindow::Closed
    }
}

/// A window that starts closed and sees `at.len()` drops reports exactly that
/// many (up to the counter's maximum) and the time of the first.
pub proof fn law_window_reports_drop_count_and_first_drop(at: Seq<WallTime>)
    requires
        at.len() > 0,
    ensures
        MissedWindow::Closed.after_drops(at) == (MissedWindow::Open {
            count: if at.len() <= u32::MAX { at.len() as u32 } else { u32::MAX },
            since: at[0],
        }),
    decreases at.len(),
{
    if at.len() > 1 {
        law_window_reports_drop_count_and_first_drop(at.drop_last());
    } else {
        assert(at.drop_last() =~= Seq::empty());
        reveal_with_fuel(MissedWindow::after_drops, 2);
    }
}

/// What a connection is for.
#[derive(Debug, PartialEq, Eq, Structural, Clone, Copy)]
pub enum ConnRole {
    /// Request and answer.
    Reqs,
    /// A stream of diagnostics, of one subscription where `filter` names it.
    Sub { filter: Option<SubId>, missed: MissedWindow },
}

impl ConnRole {
    /// Whether diagnostics are delivered to this role at all.
    pub open spec fn spec_is_sub(self) -> bool {
        self is Sub
    }

    /// Whether diagnostics are delivered to this role at all.
    pub fn is_sub(&self) -> (yes: bool)
        ensures
            yes == self.spec_is_sub(),
    {
        match self {
            ConnRole::Reqs => false,
            ConnRole::Sub { .. } => true,
        }
    }

    /// Whether a diagnostic about `diag_sub` is for this role: the role
    /// streams, and its filter is open or names that very subscription.
    pub open spec fn wants(self, diag_sub: Option<SubId>) -> bool {
        match self {
            ConnRole::Reqs => false,
            ConnRole::Sub { filter, .. } => match filter {
                None => true,
                Some(want) => diag_sub == Some(want),
            },
        }
    }

    /// The pending drops of a streaming role.
    pub open spec fn window(self) -> MissedWindow {
        match self {
            ConnRole::Reqs => MissedWindow::Closed,
            ConnRole::Sub { missed, .. } => missed,
        }
    }

    /// The same role with another window of pending drops.
    pub open spec fn with_window(self, window: MissedWindow) -> ConnRole {
        match self {
            ConnRole::Reqs => ConnRole::Reqs,
            ConnRole::Sub { filter, .. } => ConnRole::Sub { filter, missed: window },
        }
    }
}

/// What became of one diagnostic at one connection.
#[derive(Debug, PartialEq, Eq, Structural, Clone, Copy)]
pub enum DispatchOutcome {
    /// Queued, after the report of earlier drops where one was pending.
    Accepted,
    /// Dropped for want of room, and counted.
    Dropped,
    /// Not for this connection.
    Skipped,
}

/// What became of one answer at one connection.
#[derive(Debug, PartialEq, Eq, Structural, Clone, Copy)]
pub enum PushOutcome {
    /// Queued.
    Accepted,
    /// Does not fit; the connection will close.
    Refused,
}

/// One operator connection.
#[derive(Debug)]
pub struct ConnState {
    /// The key under which the connection is polled and filed.
    pub token: usize,
    /// Bytes read and not yet cut into lines.
    pub read_buf: Vec<u8>,
    /// Bytes queued and not yet written.
    pub write_queue: VecDeque<u8>,
    /// What the connection is for.
    pub role: ConnRole,
    /// Whether the connection ends once the queue is written out.
    pub close_after_flush: bool,
}

/// Appends `bytes` to the queue.
pub(crate) fn extend_queue(queue: &mut VecDeque<u8>, bytes: &[u8])
    ensures
        final(queue)@ == old(queue)@ + bytes@,
{
    let mut i: usize = 0;
    while i < bytes.len()
        invariant
            i <= bytes@.len(),
            queue@ == old(queue)@ + bytes@.take(i as int),
        decreases bytes@.len() - i,
    {
        queue.push_back(bytes[i]);
        i = i + 1;
        assert(bytes@.take(i as int) =~= bytes@.take(i - 1).push(bytes@[i - 1]));
    }
    assert(bytes@.take(i as int) =~= bytes@);
}

impl ConnState {
    /// A connection as it is accepted.
    pub fn new(token: usize) -> (conn: ConnState)
        ensures
            conn.token == token,
            conn.read_buf@ == Seq::<u8>::empty(),
            conn.write_queue@ == Seq::<u8>::empty(),
            conn.role == ConnRole::Reqs,
            !conn.close_after_flush,
    {
        ConnState {
            token,
            read_buf: Vec::with_capacity(1024),
            write_queue: VecDeque::with_capacity(1024),
            role: ConnRole::Reqs,
            close_after_flush: false,
        }
    }

    /// Turns a request connection into a stream of diagnostics.
    pub fn transition_to_sub(&mut self, filter: Option<SubId>)
        requires
            old(self).role == ConnRole::Reqs,
        ensures
            final(self).role == (ConnRole::Sub { filter, missed: MissedWindow::Closed }),
            final(self).token == old(self).token,
            final(self).read_buf == old(self).read_buf,
            final(self).write_queue == old(self).write_queue,
            final(self).close_after_flush == old(self).close_after_flush,
    {
        self.role = ConnRole::Sub { filter, missed: MissedWindow::Closed };
    }

    /// Has the connection end once its queue is written out.
    pub fn arm_close_after_flush(&mut self)
        ensures
            final(self).close_after_flush,
            final(self).token == old(self).token,
            final(self).read_buf == old(self).read_buf,
            final(self).write_queue == old(self).write_queue,
            final(self).role == old(self).role,
    {
        self.close_after_flush = true;
    }

    /// The bounds of the queue: never beyond the hard ceiling, and beyond the
    /// soft cap only while the connection is about to close.
    pub open spec fn bounded(self) -> bool {
        &&& self.write_queue@.len() <= WRITE_QUEUE_HIGH_WATER
        &&& self.write_queue@.len() > ACCEPT_CAP ==> self.close_after_flush
    }

    /// Whether a diagnostic about `diag_sub` is for this connection.
    pub open spec fn eligible(self, diag_sub: Option<SubId>) -> bool {
        !self.close_after_flush && self.role.wants(diag_sub)
    }

    /// Whether `line`, behind the pending report of drops, fits the soft cap.
    pub open spec fn fits(self, line: Seq<u8>) -> bool {
        self.write_queue@.len() + self.role.window().marker().len() + line.len() <= ACCEPT_CAP
    }

    /// What becomes of a diagnostic at this connection.
    pub open spec fn dispatch_verdict(self, line: Seq<u8>, diag_sub: Option<SubId>)
        -> DispatchOutcome {
        if !self.eligible(diag_sub) {
            DispatchOutcome::Skipped
        } else if self.fits(line) {
            DispatchOutcome::Accepted
        } else {
            DispatchOutcome::Dropped
        }
    }

    /// How the connection stands after the diagnostic: a queued line goes
    /// behind the report of earlier drops, which it settles; a dropped line
    /// is counted; nothing else changes.
    pub open spec fn dispatched(
        self,
        line: Seq<u8>,
        diag_sub: Option<SubId>,
        at: WallTime,
        next: ConnState,
    ) -> bool {
        let verdict = self.dispatch_verdict(line, diag_sub);
        let window = self.role.window();
        &&& next.token == self.token
        &&& next.read_buf == self.read_buf
        &&& next.close_after_flush == self.close_after_flush
        &&& next.write_queue@ == match verdict {
            DispatchOutcome::Accepted => self.write_queue@ + window.marker() + line,
            _ => self.write_queue@,
        }
        &&& next.role == match verdict {
            DispatchOutcome::Accepted => self.role.with_window(MissedWindow::Closed),
            DispatchOutcome::Dropped => self.role.with_window(window.after_drop(at)),
            DispatchOutcome::Skipped => self.role,
        }
    }

    /// Offers one diagnostic line to the connection.
    pub fn try_dispatch_diag(
        &mut self,
        diag_line: &[u8],
        diag_sub: Option<SubId>,
        at: WallTime,
    ) -> (outcome: DispatchOutcome)
        ensures
            outcome == old(self).dispatch_verdict(diag_line@, diag_sub),
            old(self).dispatched(diag_line@, diag_sub, at, *final(self)),
    {
        if self.close_after_flush {
            return DispatchOutcome::Skipped;
        }
        let (filter, mut missed): (Option<SubId>, MissedWindow) = match self.role {
            ConnRole::Reqs => {
                return DispatchOutcome::Skipped;
            },
            ConnRole::Sub { filter, missed } => (filter, missed),
        };
        if let Some(want) = filter {
            let wanted: bool = match diag_sub {
                Some(sub) => sub == want,
                None => false,
            };
            if !wanted {
                return DispatchOutcome::Skipped;
            }
        }
        let marker: Option<String> = match missed {
            MissedWindow::Open { count, since } => Some(framing::encode_missed_line(since, count)),
            MissedWindow::Closed => None,
        };
        let marker_bytes: &[u8] = match &marker {
            Some(line) => line.as_str().as_bytes(),
            None => &[],
        };
        assert(marker_bytes@ =~= missed.marker());
        let combined: usize = self.write_queue.len().saturating_add(
            marker_bytes.len(),
        ).saturating_add(diag_line.len());
        if combined > ACCEPT_CAP {
            missed.record_drop(at);
            self.role = ConnRole::Sub { filter, missed };
            return DispatchOutcome::Dropped;
        }
        extend_queue(&mut self.write_queue, marker_bytes);
        extend_queue(&mut self.write_queue, diag_line);
        let _ = missed.take();
        self.role = ConnRole::Sub { filter, missed };
        DispatchOutcome::Accepted
    }

    /// Queues an answer. One that does not fit leaves the queue as it is and
    /// has the connection close.
    pub fn push_response(&mut self, bytes: &[u8]) -> (outcome: PushOutcome)
        ensures
            outcome == (if old(self).write_queue@.len() + bytes@.len() > ACCEPT_CAP {
                PushOutcome::Refused
            } else {
                PushOutcome::Accepted
            }),
            final(self).token == old(self).token,
            final(self).read_buf == old(self).read_buf,
            final(self).role == old(self).role,
            outcome == PushOutcome::Accepted ==> final(self).write_queue@ == old(self).write_queue@
                + bytes@ && final(self).close_after_flush == old(self).close_after_flush,
            outcome == PushOutcome::Refused ==> final(self).write_queue@ == old(self).write_queue@
                && final(self).close_after_flush,
    {
        if self.write_queue.len().saturating_add(bytes.len()) > ACCEPT_CAP {
            self.arm_close_after_flush();
            return PushOutcome::Refused;
        }
        extend_queue(&mut self.write_queue, bytes);
        PushOutcome::Accepted
    }

    /// Queues the line that reports a refused answer, without regard to the
    /// soft cap. Where not even the hard ceiling has room for it, the queue
    /// stays as it is.
    pub fn push_err_in_reserve(&mut self, bytes: &[u8])
        requires
            bytes@.len() <= RESPONSE_TOO_BIG_RESERVE,
        ensures
            final(self).write_queue@ == (if old(self).write_queue@.len() + bytes@.len()
                <= WRITE_QUEUE_HIGH_WATER {
                old(self).write_queue@ + bytes@
            } else {
                old(self).write_queue@
            }),
            final(self).token == old(self).token,
            final(self).read_buf == old(self).read_buf,
            final(self).role == old(self).role,
            final(self).close_after_flush == old(self).close_after_flush,
    {
        if self.write_queue.len().saturating_add(bytes.len()) <= WRITE_QUEUE_HIGH_WATER {
            extend_queue(&mut self.write_queue, bytes);
        }
    }
}

/// A diagnostic that is for a connection is queued wherever there is room for
/// it and the report before it; else it is counted, and nothing is queued of
/// it. It is for a connection exactly where that streams, is not about to
/// close, and listens to everything or to that very subscription.
pub proof fn law_a_wanted_diagnostic_with_room_is_queued(
    conn: ConnState,
    line: Seq<u8>,
    diag_sub: Option<SubId>,
    at: WallTime,
    next: ConnState,
)
    requires
        conn.dispatched(line, diag_sub, at, next),
    ensures
        ({
            let wanted = !conn.close_after_flush && (conn.role matches ConnRole::Sub { filter, .. }
                && (filter is None || (diag_sub is Some && filter == diag_sub)));
            let marker = conn.role.window().marker();
            let room = conn.write_queue@.len() + marker.len() + line.len() <= ACCEPT_CAP;
            &&& wanted && room ==> next.write_queue@ == conn.write_queue@ + marker + line
                && next.role.window() == MissedWindow::Closed
            &&& wanted && !room ==> next.write_queue@ == conn.write_queue@ && next.role.window()
                == conn.role.window().after_drop(at)
            &&& !wanted ==> next.write_queue@ == conn.write_queue@ && next.role == conn.role
            &&& conn.dispatch_verdict(line, diag_sub) is Skipped <==> !wanted
            &&& conn.dispatch_verdict(line, diag_sub) is Accepted <==> wanted && room
            &&& conn.dispatch_verdict(line, diag_sub) is Dropped <==> wanted && !room
        }),
        next.close_after_flush == conn.close_after_flush,
        next.read_buf == conn.read_buf,
        next.token == conn.token,
        next.role is Sub <==> conn.role is Sub,
        conn.role is Sub ==> next.role->filter == conn.role->filter,
{
}

/// A window reports what it holds: the number of drops and the time of the
/// first, and nothing while there are none.
pub proof fn law_a_window_reports_what_it_holds(window: MissedWindow)
    ensures
        window is Closed ==> window.marker().len() == 0 && window.pending() is None,
        window matches MissedWindow::Open { count, since } ==> window.marker() == framing::bytes(
            framing::missed_line(since, count),
        ) && window.pending() == Some((count, since)),
{
}

/// A diagnostic never takes a queue over the soft cap.
pub proof fn law_diagnostics_respect_the_soft_cap(
    conn: ConnState,
    line: Seq<u8>,
    diag_sub: Option<SubId>,
    at: WallTime,
    next: ConnState,
)
    requires
        conn.dispatched(line, diag_sub, at, next),
        conn.write_queue@.len() <= ACCEPT_CAP,
    ensures
        next.write_queue@.len() <= ACCEPT_CAP,
{
}

/// Only a streaming connection that is not about to close is sent a
/// diagnostic, and one with a filter only those about its subscription.
pub proof fn law_diagnostics_reach_only_their_subscribers(
    conn: ConnState,
    line: Seq<u8>,
    diag_sub: Option<SubId>,
    at: WallTime,
    next: ConnState,
)
    requires
        conn.dispatched(line, diag_sub, at, next),
        next.write_queue@ != conn.write_queue@,
    ensures
        !conn.close_after_flush,
        conn.role is Sub,
        conn.role->filter matches Some(want) ==> diag_sub == Some(want),
{
}

/// `states` are the states of one connection while it is offered the
/// diagnostics of `offers` one after the other.
pub open spec fn offered(
    states: Seq<ConnState>,
    offers: Seq<(Seq<u8>, Option<SubId>, WallTime)>,
) -> bool {
    &&& states.len() == offers.len() + 1
    &&& forall|i: int|
        #![trigger offers[i]]
        0 <= i < offers.len() ==> states[i].dispatched(
            offers[i].0,
            offers[i].1,
            offers[i].2,
            states[i + 1],
        )
}

/// How many drops a window holds.
pub open spec fn pending_count(window: MissedWindow) -> nat {
    match window {
        MissedWindow::Closed => 0,
        MissedWindow::Open { count, .. } => count as nat,
    }
}

/// How many of the first `n` offers are for the connection.
pub open spec fn wanted_count(
    states: Seq<ConnState>,
    offers: Seq<(Seq<u8>, Option<SubId>, WallTime)>,
    n: nat,
) -> nat
    decreases n,
{
    if n == 0 {
        0
    } else {
        let i = n - 1;
        wanted_count(states, offers, i as nat) + if states[i].eligible(offers[i].1) {
            1nat
        } else {
            0nat
        }
    }
}

/// How many of the first `n` offers were queued.
pub open spec fn queued_count(
    states: Seq<ConnState>,
    offers: Seq<(Seq<u8>, Option<SubId>, WallTime)>,
    n: nat,
) -> nat
    decreases n,
{
    if n == 0 {
        0
    } else {
        let i = n - 1;
        queued_count(states, offers, i as nat) + if states[i].dispatch_verdict(
            offers[i].0,
            offers[i].1,
        ) == DispatchOutcome::Accepted {
            1nat
        } else {
            0nat
        }
    }
}

/// How many drops the reports tell of that were queued during the first `n`
/// offers.
pub open spec fn told_count(
    states: Seq<ConnState>,
    offers: Seq<(Seq<u8>, Option<SubId>, WallTime)>,
    n: nat,
) -> nat
    decreases n,
{
    if n == 0 {
        0
    } else {
        let i = n - 1;
        told_count(states, offers, i as nat) + if states[i].dispatch_verdict(
            offers[i].0,
            offers[i].1,
        ) == DispatchOutcome::Accepted {
            pending_count(states[i].role.window())
        } else {
            0nat
        }
    }
}

/// Whether `pre` and `post` are the states of one connection before and after
/// each of the `offers`. In between its role stays, and its queue may be
/// written out, grow by answers, or both.
pub open spec fn offered_over_time(
    pre: Seq<ConnState>,
    post: Seq<ConnState>,
    offers: Seq<(Seq<u8>, Option<SubId>, WallTime)>,
) -> bool {
    &&& pre.len() == offers.len()
    &&& post.len() == offers.len()
    &&& forall|i: int|
        #![trigger offers[i]]
        0 <= i < offers.len() ==> pre[i].dispatched(
            offers[i].0,
            offers[i].1,
            offers[i].2,
            post[i],
        )
    &&& forall|i: int, j: int|
        0 <= i < offers.len() - 1 && j == i + 1 ==> (#[trigger] pre[j]).role == (
        #[trigger] post[i]).role
}

/// The role that a connection has once the first `n` offers are over.
pub open spec fn role_after(pre: Seq<ConnState>, post: Seq<ConnState>, n: nat) -> ConnRole {
    if n == 0 {
        pre[0].role
    } else {
        post[n - 1].role
    }
}

/// No drop goes uncounted: of any number of diagnostics, whatever is written
/// out between them, those for a connection are as many as were queued, told
/// of as dropped and still to be told of, as long as the count has room.
pub proof fn law_every_diagnostic_is_queued_or_counted(
    pre: Seq<ConnState>,
    post: Seq<ConnState>,
    offers: Seq<(Seq<u8>, Option<SubId>, WallTime)>,
    n: nat,
)
    requires
        offered_over_time(pre, post, offers),
        n <= offers.len(),
        pre[0].role.window() == MissedWindow::Closed,
        forall|i: int| 0 <= i < n ==> pending_count((#[trigger] pre[i]).role.window()) < u32::MAX,
    ensures
        wanted_count(pre, offers, n) == queued_count(pre, offers, n) + told_count(pre, offers, n)
            + pending_count(role_after(pre, post, n).window()),
    decreases n,
{
    if n > 0 {
        let i = n - 1;
        law_every_diagnostic_is_queued_or_counted(pre, post, offers, i as nat);
        assert(pre[i].dispatched(offers[i].0, offers[i].1, offers[i].2, post[i]));
        if i > 0 {
            assert(pre[i].role == post[i - 1].role);
        }
    }
}

/// The times of those among the first `n` offers that were dropped.
pub open spec fn drop_times(
    pre: Seq<ConnState>,
    offers: Seq<(Seq<u8>, Option<SubId>, WallTime)>,
    n: nat,
) -> Seq<WallTime>
    decreases n,
{
    if n == 0 {
        Seq::empty()
    } else {
        let i = n - 1;
        let before = drop_times(pre, offers, i as nat);
        if pre[i].dispatch_verdict(offers[i].0, offers[i].1) == DispatchOutcome::Dropped {
            before.push(offers[i].2)
        } else {
            before
        }
    }
}

/// While nothing is queued, the window counts drop by drop.
proof fn lemma_run_of_drops(
    pre: Seq<ConnState>,
    post: Seq<ConnState>,
    offers: Seq<(Seq<u8>, Option<SubId>, WallTime)>,
    n: nat,
)
    requires
        offered_over_time(pre, post, offers),
        n <= offers.len(),
        pre[0].role.window() == MissedWindow::Closed,
        forall|i: int|
            #![trigger offers[i]]
            0 <= i < n ==> pre[i].dispatch_verdict(offers[i].0, offers[i].1)
                != DispatchOutcome::Accepted,
    ensures
        role_after(pre, post, n).window() == MissedWindow::Closed.after_drops(
            drop_times(pre, offers, n),
        ),
    decreases n,
{
    if n > 0 {
        let i = n - 1;
        lemma_run_of_drops(pre, post, offers, i as nat);
        let before = drop_times(pre, offers, i as nat);
        assert(pre[i].dispatched(offers[i].0, offers[i].1, offers[i].2, post[i]));
        assert(pre[i].dispatch_verdict(offers[i].0, offers[i].1) != DispatchOutcome::Accepted);
        assert(before.push(offers[i].2).drop_last() =~= before);
        if i > 0 {
            assert(pre[i].role == post[i - 1].role);
        }
    }
}

/// After any run without a diagnostic queued, the next one that is queued
/// stands directly behind a report of exactly the drops of that run, stamped
/// with the time of the first of them, and the report is settled. What was
/// queued or written out meanwhile makes no difference, and neither do the
/// diagnostics that were not for the connection.
pub proof fn law_drops_are_reported_before_the_next_diagnostic(
    pre: Seq<ConnState>,
    post: Seq<ConnState>,
    offers: Seq<(Seq<u8>, Option<SubId>, WallTime)>,
    before: ConnState,
    line: Seq<u8>,
    diag_sub: Option<SubId>,
    at: WallTime,
    next: ConnState,
)
    requires
        offered_over_time(pre, post, offers),
        pre[0].role.window() == MissedWindow::Closed,
        forall|i: int|
            #![trigger offers[i]]
            0 <= i < offers.len() ==> pre[i].dispatch_verdict(offers[i].0, offers[i].1)
                != DispatchOutcome::Accepted,
        0 < drop_times(pre, offers, offers.len()).len() <= u32::MAX,
        before.role == role_after(pre, post, offers.len()),
        before.dispatched(line, diag_sub, at, next),
        before.dispatch_verdict(line, diag_sub) == DispatchOutcome::Accepted,
    ensures
        ({
            let drops = drop_times(pre, offers, offers.len());
            next.write_queue@ == before.write_queue@ + framing::bytes(
                framing::missed_line(drops[0], drops.len() as u32),
            ) + line
        }),
        next.role.window() == MissedWindow::Closed,
{
    lemma_run_of_drops(pre, post, offers, offers.len());
    law_window_reports_drop_count_and_first_drop(drop_times(pre, offers, offers.len()));
}

} // verus!
