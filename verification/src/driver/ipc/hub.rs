//! The set of operator connections and everything that happens to them
//! between two system calls.
//!
//! The sockets themselves belong to the surrounding program. It reports what
//! a system call gave (an [`AcceptEvent`], a [`ReadEvent`], a [`WriteEvent`])
//! and performs the step it gets back.

use vstd::prelude::*;
use vstd::string::StringExecFns;
use crate::driver::ipc::conns;
use crate::driver::ipc::conns::{ConnRole, ConnState, PushOutcome};
use crate::driver::ipc::lines;
use crate::ids::SubId;
use crate::ipc::framing;
use crate::ipc::protocol::WireErrorCode;
use crate::text;
use crate::time::WallTime;

verus! {

/// First token of a connection; smaller ones name the fixed sources.
pub const TOKEN_CONN_BASE: usize = 0x100;

/// Most connections served at once.
pub const MAX_IPC_CONNS: usize = 8;

/// Most accepts in one pass.
pub const MAX_ACCEPTS_PER_PASS: usize = MAX_IPC_CONNS * 2;

/// The operator connections, by ascending token.
#[derive(Debug)]
pub struct Hub {
    pub conns: Vec<ConnState>,
    pub next_conn_token: usize,
}

/// What became of one answer.
#[derive(Debug, PartialEq, Eq, Structural, Clone, Copy)]
pub enum EnqueueOutcome {
    /// Queued.
    Accepted,
    /// Does not fit; the connection will close.
    Refused,
    /// The connection is gone.
    ConnGone,
}

/// Whether `conns` stands in strictly ascending order of tokens.
pub open spec fn ascending(conns: Seq<ConnState>) -> bool {
    forall|i: int, j: int|
        0 <= i < j < conns.len() ==> (#[trigger] conns[i]).token < (#[trigger] conns[j]).token
}

/// The connections of `conns`, by token.
pub open spec fn by_token(conns: Seq<ConnState>) -> Map<usize, ConnState> {
    Map::new(
        |token: usize| exists|i: int| 0 <= i < conns.len() && (#[trigger] conns[i]).token == token,
        |token: usize|
            conns[choose|i: int| 0 <= i < conns.len() && (#[trigger] conns[i]).token == token],
    )
}

/// In ascending order, the place of a connection determines its entry.
proof fn lemma_by_token(conns: Seq<ConnState>, i: int)
    requires
        ascending(conns),
        0 <= i < conns.len(),
    ensures
        by_token(conns).contains_key(conns[i].token),
        by_token(conns)[conns[i].token] == conns[i],
{
    let token = conns[i].token;
    let j = choose|j: int| 0 <= j < conns.len() && (#[trigger] conns[j]).token == token;
    assert(conns[i].token == token);
    assert(0 <= j < conns.len() && conns[j].token == token);
    if i < j {
        assert(conns[i].token < conns[j].token);
    } else if j < i {
        assert(conns[j].token < conns[i].token);
    }
}

/// Replacing a connection in place replaces its entry.
proof fn lemma_by_token_update(conns: Seq<ConnState>, i: int, conn: ConnState)
    requires
        ascending(conns),
        0 <= i < conns.len(),
        conn.token == conns[i].token,
    ensures
        ascending(conns.update(i, conn)),
        by_token(conns.update(i, conn)) == by_token(conns).insert(conn.token, conn),
{
    let next = conns.update(i, conn);
    assert(ascending(next));
    let left = by_token(next);
    let right = by_token(conns).insert(conn.token, conn);
    assert forall|token: usize| left.contains_key(token) <==> right.contains_key(token) by {
        if left.contains_key(token) {
            let j = choose|j: int| 0 <= j < next.len() && (#[trigger] next[j]).token == token;
            assert(conns[j].token == token);
        }
        if right.contains_key(token) {
            if token == conn.token {
                assert(next[i].token == token);
            } else {
                let j = choose|j: int| 0 <= j < conns.len() && (#[trigger] conns[j]).token == token;
                assert(next[j].token == token);
            }
        }
    }
    assert forall|token: usize| left.contains_key(token) implies left[token] == right[token] by {
        let j = choose|j: int| 0 <= j < next.len() && (#[trigger] next[j]).token == token;
        lemma_by_token(next, j);
        lemma_by_token(conns, j);
        if j != i {
            lemma_by_token(next, i);
            if j < i {
                assert(next[j].token < next[i].token);
            } else {
                assert(next[i].token < next[j].token);
            }
        }
    }
    assert(left =~= right);
}

/// Where one connection changed and kept its token, its entry changed and
/// nothing else.
proof fn lemma_replaced(before: Seq<ConnState>, after: Seq<ConnState>, i: int)
    requires
        ascending(before),
        0 <= i < before.len(),
        after.len() == before.len(),
        forall|j: int| 0 <= j < before.len() && j != i ==> after[j] == #[trigger] before[j],
        after[i].token == before[i].token,
    ensures
        ascending(after),
        by_token(after) == by_token(before).insert(before[i].token, after[i]),
        by_token(after)[before[i].token] == after[i],
{
    assert(after =~= before.update(i, after[i]));
    lemma_by_token_update(before, i, after[i]);
    lemma_by_token(after, i);
}

/// Removing a connection removes its entry.
proof fn lemma_by_token_remove(conns: Seq<ConnState>, i: int)
    requires
        ascending(conns),
        0 <= i < conns.len(),
    ensures
        ascending(conns.remove(i)),
        by_token(conns.remove(i)) == by_token(conns).remove(conns[i].token),
{
    let next = conns.remove(i);
    let gone = conns[i].token;
    assert(ascending(next)) by {
        assert forall|a: int, b: int| 0 <= a < b < next.len() implies (#[trigger] next[a]).token < (
        #[trigger] next[b]).token by {
            let a0 = if a < i { a } else { a + 1 };
            let b0 = if b < i { b } else { b + 1 };
            assert(next[a] == conns[a0]);
            assert(next[b] == conns[b0]);
            assert(conns[a0].token < conns[b0].token);
        }
    }
    let left = by_token(next);
    let right = by_token(conns).remove(gone);
    assert forall|token: usize| left.contains_key(token) <==> right.contains_key(token) by {
        if left.contains_key(token) {
            let j = choose|j: int| 0 <= j < next.len() && (#[trigger] next[j]).token == token;
            let j0 = if j < i { j } else { j + 1 };
            assert(conns[j0] == next[j]);
            if j0 < i {
                assert(conns[j0].token < conns[i].token);
            } else {
                assert(conns[i].token < conns[j0].token);
            }
        }
        if right.contains_key(token) {
            let j = choose|j: int| 0 <= j < conns.len() && (#[trigger] conns[j]).token == token;
            let j0 = if j < i { j } else { j - 1 };
            assert(j != i);
            assert(next[j0] == conns[j]);
        }
    }
    assert forall|token: usize| left.contains_key(token) implies left[token] == right[token] by {
        let j = choose|j: int| 0 <= j < next.len() && (#[trigger] next[j]).token == token;
        let j0 = if j < i { j } else { j + 1 };
        assert(next[j] == conns[j0]);
        lemma_by_token(next, j);
        lemma_by_token(conns, j0);
    }
    assert(left =~= right);
}

/// Appending a connection with a larger token adds its entry.
proof fn lemma_by_token_push(conns: Seq<ConnState>, conn: ConnState)
    requires
        ascending(conns),
        forall|i: int| 0 <= i < conns.len() ==> (#[trigger] conns[i]).token < conn.token,
    ensures
        ascending(conns.push(conn)),
        !by_token(conns).contains_key(conn.token),
        by_token(conns.push(conn)) == by_token(conns).insert(conn.token, conn),
{
    let next = conns.push(conn);
    assert(ascending(next));
    let left = by_token(next);
    let right = by_token(conns).insert(conn.token, conn);
    assert forall|token: usize| left.contains_key(token) <==> right.contains_key(token) by {
        if left.contains_key(token) {
            let j = choose|j: int| 0 <= j < next.len() && (#[trigger] next[j]).token == token;
            if j < conns.len() {
                assert(conns[j].token == token);
            }
        }
        if right.contains_key(token) {
            if token == conn.token {
                assert(next[conns.len() as int].token == token);
            } else {
                let j = choose|j: int| 0 <= j < conns.len() && (#[trigger] conns[j]).token == token;
                assert(next[j].token == token);
            }
        }
    }
    assert forall|token: usize| left.contains_key(token) implies left[token] == right[token] by {
        let j = choose|j: int| 0 <= j < next.len() && (#[trigger] next[j]).token == token;
        lemma_by_token(next, j);
        if j < conns.len() {
            lemma_by_token(conns, j);
        }
    }
    assert(left =~= right);
}

/// What a [`Hub`] holds.
pub struct HubView {
    /// The connections, by token.
    pub conns: Map<usize, ConnState>,
    /// The token that the next connection gets.
    pub next_conn_token: usize,
}

impl View for Hub {
    type V = HubView;

    open spec fn view(&self) -> HubView {
        HubView { conns: by_token(self.conns@), next_conn_token: self.next_conn_token }
    }
}

/// The text of the refusal of an answer of `len` bytes.
pub open spec fn too_big_text(len: nat) -> Seq<char> {
    "response of "@ + text::decimal(len) + " bytes exceeds per-conn cap of "@ + text::decimal(
        conns::ACCEPT_CAP as nat,
    ) + " bytes"@
}

/// The line that refuses an answer of `len` bytes.
pub open spec fn too_big_line(len: nat) -> Seq<u8> {
    framing::bytes(framing::plain_err_line(WireErrorCode::ResponseTooBig, too_big_text(len)))
}

/// Longest line that refuses an answer.
pub const TOO_BIG_LINE_MAX: usize = 127;

/// The refusal of an answer of at most `u64::MAX` bytes needs no escapes and
/// is at most [`TOO_BIG_LINE_MAX`] bytes long.
pub proof fn lemma_too_big_line_is_short(len: nat)
    requires
        len <= u64::MAX,
    ensures
        text::plain_json(too_big_text(len)),
        too_big_line(len).len() <= TOO_BIG_LINE_MAX,
{
    reveal_strlit("response of ");
    reveal_strlit(" bytes exceeds per-conn cap of ");
    reveal_strlit(" bytes");
    reveal_strlit("{\"kind\":\"err\",\"code\":\"");
    reveal_strlit("response_too_big");
    reveal_strlit("\",\"error\":");
    reveal_strlit("}\n");
    assert(vstd::arithmetic::power::pow(10, 20) > u64::MAX && vstd::arithmetic::power::pow(10, 6)
        > conns::ACCEPT_CAP) by {
        reveal(vstd::arithmetic::power::pow);
        reveal_with_fuel(vstd::arithmetic::power::pow, 21);
    }
    text::lemma_decimal_shape(len, 20);
    text::lemma_decimal_shape(conns::ACCEPT_CAP as nat, 6);
    let message = too_big_text(len);
    assert(text::plain_json(message));
    let line = framing::plain_err_line(WireErrorCode::ResponseTooBig, message);
    assert(vstd::utf8::is_ascii_chars(line));
    vstd::utf8::is_ascii_chars_encode_utf8(line);
}

/// What becomes of a connection that is given an answer: the answer is
/// queued where it fits the soft cap; else the connection will close, and the
/// refusal is queued where it fits the hard ceiling.
pub open spec fn answered(conn: ConnState, bytes: Seq<u8>, next: ConnState) -> bool {
    let fits = conn.write_queue@.len() + bytes.len() <= conns::ACCEPT_CAP;
    let refusal = too_big_line(bytes.len());
    &&& next.token == conn.token
    &&& next.read_buf == conn.read_buf
    &&& next.role == conn.role
    &&& next.write_queue@ == if fits {
        conn.write_queue@ + bytes
    } else if conn.write_queue@.len() + refusal.len() <= conns::WRITE_QUEUE_HIGH_WATER {
        conn.write_queue@ + refusal
    } else {
        conn.write_queue@
    }
    &&& next.close_after_flush == (conn.close_after_flush || !fits)
}

/// An answer that fits is queued whole, behind what was queued, and changes
/// nothing else; whatever does not fit is not cut short.
pub proof fn law_an_answer_that_fits_is_queued_whole(
    conn: ConnState,
    bytes: Seq<u8>,
    next: ConnState,
)
    requires
        answered(conn, bytes, next),
    ensures
        next.role == conn.role,
        next.read_buf == conn.read_buf,
        next.token == conn.token,
        conn.write_queue@.len() + bytes.len() <= conns::ACCEPT_CAP ==> {
            &&& next.write_queue@ == conn.write_queue@ + bytes
            &&& next.close_after_flush == conn.close_after_flush
        },
        conn.write_queue@.len() + bytes.len() > conns::ACCEPT_CAP ==> {
            &&& next.close_after_flush
            &&& next.write_queue@ == conn.write_queue@ || next.write_queue@ == conn.write_queue@
                + too_big_line(bytes.len())
        },
{
}

/// What `accept` gave.
#[derive(Debug, PartialEq, Eq, Structural, Clone, Copy)]
pub enum AcceptEvent {
    /// A connection.
    Accepted,
    /// Nothing is waiting.
    WouldBlock,
    /// A signal came in between.
    Interrupted,
    /// Any other failure.
    Failed,
}

/// What to do after one `accept`.
#[derive(Debug, PartialEq, Eq, Structural, Clone, Copy)]
pub enum AcceptStep {
    /// Poll the new connection under `token` and file it with
    /// [`Hub::insert_conn`]; give up the pass where polling fails.
    Admit { token: usize },
    /// Offer the new connection [`busy_line`] once and drop it.
    Refuse,
    /// Accept again.
    Again,
    /// The pass is over.
    Done,
    /// The pass failed.
    Fail,
}

/// One bounded pass over the accept queue.
#[derive(Debug, PartialEq, Eq, Structural, Clone, Copy)]
pub struct AcceptPass {
    pub left: usize,
}

impl AcceptPass {
    /// A fresh pass.
    pub fn new() -> (pass: AcceptPass)
        ensures
            pass.left == MAX_ACCEPTS_PER_PASS,
    {
        AcceptPass { left: MAX_ACCEPTS_PER_PASS }
    }

    /// Takes one accept off the pass. Once it answers `false` the pass hit its
    /// bound and the listener must be armed anew: the queue may still hold
    /// connections that no further edge announces.
    pub fn begin(&mut self) -> (more: bool)
        ensures
            more == (old(self).left > 0),
            final(self).left == (if old(self).left > 0 { old(self).left - 1 } else { 0 }),
    {
        if self.left > 0 {
            self.left = self.left - 1;
            true
        } else {
            false
        }
    }
}

/// The reason given to a client beyond [`MAX_IPC_CONNS`].
pub open spec fn busy_text() -> Seq<char> {
    "max concurrent connections"@
}

/// The line offered to a client beyond [`MAX_IPC_CONNS`].
pub fn busy_line() -> (line: String)
    ensures
        line@ == framing::plain_err_line(WireErrorCode::Busy, busy_text()),
{
    proof {
        reveal_strlit("max concurrent connections");
    }
    framing::encode_err_line(WireErrorCode::Busy, "max concurrent connections")
}

/// What `read` gave.
#[derive(Debug, PartialEq, Eq, Structural, Clone, Copy)]
pub enum ReadEvent {
    /// Bytes; their number is not zero.
    Data,
    /// The end of the stream.
    Eof,
    /// Nothing is there to read.
    WouldBlock,
    /// A signal came in between.
    Interrupted,
    /// Any other failure.
    Failed,
}

/// What to do after one `read`.
#[derive(Debug, PartialEq, Eq, Structural, Clone, Copy)]
pub enum ReadStep {
    /// Read again, keeping what came.
    Again,
    /// Stop; the peer is still there.
    Stop,
    /// Stop; the peer is gone.
    PeerGone,
}

/// What follows a `read`.
pub open spec fn after_read(event: ReadEvent) -> ReadStep {
    match event {
        ReadEvent::Data | ReadEvent::Interrupted => ReadStep::Again,
        ReadEvent::WouldBlock => ReadStep::Stop,
        ReadEvent::Eof | ReadEvent::Failed => ReadStep::PeerGone,
    }
}

/// A connection is read until nothing is there: bytes and signals do not stop
/// it. Its peer counts as gone exactly at the end of the stream or a failure.
pub proof fn law_a_connection_is_read_to_the_end(event: ReadEvent)
    ensures
        after_read(event) is Again <==> event is Data || event is Interrupted,
        after_read(event) is PeerGone <==> event is Eof || event is Failed,
        after_read(event) is Stop <==> event is WouldBlock,
{
}

/// Whether to go on reading.
pub fn read_step(event: ReadEvent) -> (step: ReadStep)
    ensures
        step == after_read(event),
{
    match event {
        ReadEvent::Data | ReadEvent::Interrupted => ReadStep::Again,
        ReadEvent::WouldBlock => ReadStep::Stop,
        ReadEvent::Eof | ReadEvent::Failed => ReadStep::PeerGone,
    }
}

/// How a read ended.
#[derive(Debug, PartialEq, Eq, Structural, Clone, Copy)]
pub enum ReadOutcome {
    /// The connection goes on.
    Continue,
    /// The peer is gone.
    PeerGone,
}

/// No connection is filed under the token.
#[derive(Debug, PartialEq, Eq, Structural, Clone, Copy)]
pub struct NoSuchConn {
    pub token: usize,
}

/// What `write` gave.
#[derive(Debug, PartialEq, Eq, Structural, Clone, Copy)]
pub enum WriteEvent {
    /// The number of bytes taken.
    Wrote(usize),
    /// No room for more.
    WouldBlock,
    /// A signal came in between.
    Interrupted,
    /// Any other failure.
    Failed,
}

/// What to do after one `write`.
#[derive(Debug, PartialEq, Eq, Structural, Clone, Copy)]
pub enum WriteStep {
    /// Write again while bytes are queued.
    Again,
    /// Stop writing.
    Stop,
    /// The connection is lost.
    Terminate,
}

/// What follows a `write`.
pub open spec fn after_write(event: WriteEvent) -> WriteStep {
    match event {
        WriteEvent::Wrote(n) => if n == 0 {
            WriteStep::Stop
        } else {
            WriteStep::Again
        },
        WriteEvent::WouldBlock => WriteStep::Stop,
        WriteEvent::Interrupted => WriteStep::Again,
        WriteEvent::Failed => WriteStep::Terminate,
    }
}

/// Whether `next` is what a `write` leaves of `conn`.
pub open spec fn written(conn: ConnState, event: WriteEvent, next: ConnState) -> bool {
    &&& next.token == conn.token
    &&& next.read_buf == conn.read_buf
    &&& next.role == conn.role
    &&& next.close_after_flush == conn.close_after_flush
    &&& next.write_queue@ == match event {
        WriteEvent::Wrote(n) => conn.write_queue@.skip(n as int),
        _ => conn.write_queue@,
    }
}

/// Bytes leave a queue only by being written, from its front, each once: what
/// was written and what is left make up what was queued. Writing goes on
/// exactly after progress or a signal, and only a failure ends the connection.
pub proof fn law_bytes_leave_by_being_written(conn: ConnState, event: WriteEvent, next: ConnState)
    requires
        written(conn, event, next),
        event matches WriteEvent::Wrote(n) ==> n <= conn.write_queue@.len(),
    ensures
        event matches WriteEvent::Wrote(n) ==> conn.write_queue@.take(n as int) + next.write_queue@
            == conn.write_queue@ && next.write_queue@.len() == conn.write_queue@.len() - n,
        !(event is Wrote) ==> next.write_queue@ == conn.write_queue@,
        next.role == conn.role,
        next.close_after_flush == conn.close_after_flush,
        next.read_buf == conn.read_buf,
        after_write(event) is Again <==> event is Interrupted || (event matches WriteEvent::Wrote(n)
            && n > 0),
        after_write(event) is Terminate <==> event is Failed,
{
    if let WriteEvent::Wrote(n) = event {
        assert(conn.write_queue@.take(n as int) + conn.write_queue@.skip(n as int)
            =~= conn.write_queue@);
    }
}

/// How a write pass leaves a connection.
#[derive(Debug, PartialEq, Eq, Structural, Clone, Copy)]
pub enum DrainVerdict {
    /// Bytes are left over.
    Continue,
    /// Everything is written: poll for reading only, and terminate where that
    /// fails.
    RearmReadable,
    /// Everything is written and the connection was to close.
    Terminate,
    /// The connection is gone.
    ConnGone,
}

/// What became of one connection in a write pass.
#[derive(Debug, PartialEq, Eq, Structural, Clone, Copy)]
pub enum DrainWritableOutcome {
    /// The connection goes on.
    Continue,
    /// The connection must end.
    Terminate,
    /// The connection is gone already.
    ConnGone,
}

/// A connection ends after a write pass exactly where it was to close and
/// everything is written, or where it could not be polled again; one that is
/// gone is not ended twice.
pub proof fn law_a_write_pass_ends_only_what_is_over(verdict: DrainVerdict, polled: bool)
    ensures
        verdict.concluded(polled) is Terminate <==> verdict is Terminate || (
        verdict is RearmReadable && !polled),
        verdict.concluded(polled) is ConnGone <==> verdict is ConnGone,
        verdict.concluded(polled) is Continue <==> verdict is Continue || (verdict is RearmReadable
            && polled),
{
}

impl DrainVerdict {
    /// What becomes of the connection, where polling for reading succeeded or
    /// not as `polled` says.
    pub open spec fn concluded(self, polled: bool) -> DrainWritableOutcome {
        match self {
            DrainVerdict::Continue => DrainWritableOutcome::Continue,
            DrainVerdict::RearmReadable => if polled {
                DrainWritableOutcome::Continue
            } else {
                DrainWritableOutcome::Terminate
            },
            DrainVerdict::Terminate => DrainWritableOutcome::Terminate,
            DrainVerdict::ConnGone => DrainWritableOutcome::ConnGone,
        }
    }

    /// What becomes of the connection, where polling for reading succeeded or
    /// not as `polled` says.
    pub fn conclude(self, polled: bool) -> (outcome: DrainWritableOutcome)
        ensures
            outcome == self.concluded(polled),
    {
        match self {
            DrainVerdict::Continue => DrainWritableOutcome::Continue,
            DrainVerdict::RearmReadable => if polled {
                DrainWritableOutcome::Continue
            } else {
                DrainWritableOutcome::Terminate
            },
            DrainVerdict::Terminate => DrainWritableOutcome::Terminate,
            DrainVerdict::ConnGone => DrainWritableOutcome::ConnGone,
        }
    }
}

/// What becomes of a connection whose read gave `bytes`: its accumulator is
/// cut into `lines`, and it will close where one of them, or what is left
/// over, is beyond the length bound.
pub open spec fn read_into(
    conn: ConnState,
    bytes: Seq<u8>,
    lines: Seq<Vec<u8>>,
    next: ConnState,
) -> bool {
    &&& next.token == conn.token
    &&& next.write_queue == conn.write_queue
    &&& next.role == conn.role
    &&& exists|oversize: bool|
        {
            &&& #[trigger] lines::cut(conn.read_buf@ + bytes, lines, oversize, next.read_buf@)
            &&& next.close_after_flush == (conn.close_after_flush || oversize
                || next.read_buf@.len() > framing::MAX_LINE_BYTES)
        }
}

/// What follows an `accept` while `served` connections are served and `next`
/// is the token of the next one.
pub open spec fn after_accept(event: AcceptEvent, served: nat, next: usize) -> AcceptStep {
    match event {
        AcceptEvent::Accepted => if served >= MAX_IPC_CONNS {
            AcceptStep::Refuse
        } else {
            AcceptStep::Admit { token: next }
        },
        AcceptEvent::WouldBlock => AcceptStep::Done,
        AcceptEvent::Interrupted => AcceptStep::Again,
        AcceptEvent::Failed => AcceptStep::Fail,
    }
}

/// A connection is admitted while there is a place and refused else, and
/// neither happens without one. Accepting goes on until nothing waits or it
/// fails.
pub proof fn law_a_connection_is_admitted_while_there_is_a_place(
    event: AcceptEvent,
    served: nat,
    next: usize,
)
    ensures
        after_accept(event, served, next) is Admit <==> event is Accepted && served < 8,
        after_accept(event, served, next) is Refuse <==> event is Accepted && served >= 8,
        after_accept(event, served, next) matches AcceptStep::Admit { token } ==> token == next,
        after_accept(event, served, next) is Done <==> event is WouldBlock,
        after_accept(event, served, next) is Fail <==> event is Failed,
{
}

/// Whether `after` is `before` with a new connection under `token`.
pub open spec fn admitted(
    before: Map<usize, ConnState>,
    token: usize,
    after: Map<usize, ConnState>,
) -> bool {
    let conn = after[token];
    &&& !before.contains_key(token)
    &&& after.contains_key(token)
    &&& after == before.insert(token, conn)
    &&& conn.token == token
    &&& conn.read_buf@ == Seq::<u8>::empty()
    &&& conn.write_queue@ == Seq::<u8>::empty()
    &&& conn.role == ConnRole::Reqs
    &&& !conn.close_after_flush
}

/// A new connection has nothing read and nothing queued, streams nothing and
/// stays open; it takes nobody's place and changes nothing for the others.
pub proof fn law_a_new_connection_starts_afresh(
    before: Map<usize, ConnState>,
    token: usize,
    after: Map<usize, ConnState>,
    other: usize,
)
    requires
        admitted(before, token, after),
    ensures
        !before.contains_key(token),
        after.contains_key(token),
        after[token].token == token,
        after[token].read_buf@.len() == 0,
        after[token].write_queue@.len() == 0,
        !(after[token].role is Sub),
        !after[token].close_after_flush,
        other != token ==> after.contains_key(other) == before.contains_key(other) && after[other]
            == before[other],
{
}

/// Whether `after` is `before` without the connections of `failed`.
pub open spec fn polled_without(
    before: Map<usize, ConnState>,
    failed: Seq<usize>,
    after: Map<usize, ConnState>,
) -> bool {
    after == before.remove_keys(failed.to_set())
}

/// Every connection that could not be polled is dropped, and no other is
/// touched.
pub proof fn law_only_what_cannot_be_polled_is_dropped(
    before: Map<usize, ConnState>,
    failed: Seq<usize>,
    after: Map<usize, ConnState>,
    token: usize,
)
    requires
        polled_without(before, failed, after),
    ensures
        after.contains_key(token) <==> before.contains_key(token) && forall|i: int|
            0 <= i < failed.len() ==> #[trigger] failed[i] != token,
        after.contains_key(token) ==> after[token] == before[token],
{
    if failed.contains(token) {
        let i = choose|i: int| 0 <= i < failed.len() && failed[i] == token;
        assert(failed[i] == token);
    }
    assert(failed.to_set().contains(token) <==> failed.contains(token));
}

/// What becomes of an answer of `len` bytes to the connection of `token`.
pub open spec fn queue_outcome(
    conns: Map<usize, ConnState>,
    token: usize,
    len: nat,
) -> EnqueueOutcome {
    if !conns.contains_key(token) {
        EnqueueOutcome::ConnGone
    } else if conns[token].write_queue@.len() + len > conns::ACCEPT_CAP {
        EnqueueOutcome::Refused
    } else {
        EnqueueOutcome::Accepted
    }
}

/// What an answer is said to have become is what it became: one that is said
/// to be queued is queued whole, and one that is not makes its connection
/// close.
pub proof fn law_the_outcome_tells_what_became_of_an_answer(
    conns: Map<usize, ConnState>,
    token: usize,
    bytes: Seq<u8>,
    next: ConnState,
)
    requires
        conns.contains_key(token) ==> answered(conns[token], bytes, next),
    ensures
        queue_outcome(conns, token, bytes.len()) is ConnGone <==> !conns.contains_key(token),
        queue_outcome(conns, token, bytes.len()) is Accepted ==> next.write_queue@
            == conns[token].write_queue@ + bytes && next.close_after_flush
            == conns[token].close_after_flush,
        queue_outcome(conns, token, bytes.len()) is Refused ==> next.close_after_flush,
        conns.contains_key(token) && !conns[token].close_after_flush ==> (queue_outcome(
            conns,
            token,
            bytes.len(),
        ) is Refused <==> next.close_after_flush),
{
}

/// How reading the connection of `token` ends.
pub open spec fn read_outcome(
    conns: Map<usize, ConnState>,
    token: usize,
    peer_gone: bool,
) -> Result<ReadOutcome, NoSuchConn> {
    if !conns.contains_key(token) {
        Err(NoSuchConn { token })
    } else if peer_gone {
        Ok(ReadOutcome::PeerGone)
    } else {
        Ok(ReadOutcome::Continue)
    }
}

/// Reading tells a connection that is not there from one whose peer is gone,
/// and both from one that goes on.
pub proof fn law_reading_tells_who_is_gone(
    conns: Map<usize, ConnState>,
    token: usize,
    peer_gone: bool,
)
    ensures
        read_outcome(conns, token, peer_gone) matches Err(e) ==> e.token == token,
        read_outcome(conns, token, peer_gone) is Ok <==> conns.contains_key(token),
        read_outcome(conns, token, peer_gone) matches Ok(o) ==> (o is PeerGone <==> peer_gone),
{
}

/// What is read is cut at its line feeds and nowhere else, and no byte is lost:
/// where the connection is not to close, the lines and what waits for more make
/// up what waited before and what came, every line is within the bound, and so
/// is what waits. Reading touches neither the queue nor the role.
pub proof fn law_what_is_read_is_kept(
    conn: ConnState,
    bytes: Seq<u8>,
    lines: Seq<Vec<u8>>,
    next: ConnState,
)
    requires
        read_into(conn, bytes, lines, next),
    ensures
        conn.close_after_flush ==> next.close_after_flush,
        !next.close_after_flush ==> {
            &&& lines::joined(lines) + next.read_buf@ == conn.read_buf@ + bytes
            &&& lines::no_lf(next.read_buf@)
            &&& next.read_buf@.len() <= framing::MAX_LINE_BYTES
        },
        forall|i: int|
            0 <= i < lines.len() ==> lines::is_line((#[trigger] lines[i])@) && lines[i]@.len()
                <= framing::MAX_LINE_BYTES,
        !conn.close_after_flush && next.close_after_flush && next.read_buf@.len()
            <= framing::MAX_LINE_BYTES ==> lines::joined(lines) + next.read_buf@ != conn.read_buf@
            + bytes,
        next.write_queue == conn.write_queue,
        next.role == conn.role,
        next.token == conn.token,
{
    let total = conn.read_buf@ + bytes;
    let oversize = choose|oversize: bool|
        {
            &&& #[trigger] lines::cut(total, lines, oversize, next.read_buf@)
            &&& next.close_after_flush == (conn.close_after_flush || oversize
                || next.read_buf@.len() > framing::MAX_LINE_BYTES)
        };
    lines::law_cut_keeps_every_byte(total, lines, oversize, next.read_buf@);
    if oversize {
        let head = lines::joined(lines);
        let dropped = total.subrange(head.len() as int, total.len() - next.read_buf@.len());
        assert((head + next.read_buf@).len() < total.len());
    }
}

/// A client that keeps to the bound is never cut off: where what it sent is
/// made up of lines within the bound and the start of another, these are the
/// lines that are read, the start waits, and the connection stays open.
pub proof fn law_lines_within_the_bound_are_all_read(
    conn: ConnState,
    bytes: Seq<u8>,
    lines: Seq<Vec<u8>>,
    next: ConnState,
    sent: Seq<Vec<u8>>,
    start: Seq<u8>,
)
    requires
        read_into(conn, bytes, lines, next),
        !conn.close_after_flush,
        conn.read_buf@ + bytes == lines::joined(sent) + start,
        forall|i: int|
            0 <= i < sent.len() ==> lines::is_line((#[trigger] sent[i])@) && sent[i]@.len()
                <= framing::MAX_LINE_BYTES,
        lines::no_lf(start),
        start.len() <= framing::MAX_LINE_BYTES,
    ensures
        lines.len() == sent.len(),
        forall|i: int| 0 <= i < sent.len() ==> (#[trigger] lines[i])@ == sent[i]@,
        next.read_buf@ == start,
        !next.close_after_flush,
{
    let total = conn.read_buf@ + bytes;
    let head = lines::joined(sent);
    let dropped = total.subrange(head.len() as int, total.len() - start.len());
    assert(dropped =~= Seq::empty());
    assert(total =~= head + dropped + start);
    assert(lines::cut(total, sent, false, start));
    let oversize = choose|oversize: bool|
        {
            &&& #[trigger] lines::cut(total, lines, oversize, next.read_buf@)
            &&& next.close_after_flush == (conn.close_after_flush || oversize
                || next.read_buf@.len() > framing::MAX_LINE_BYTES)
        };
    lines::law_cut_is_unique(total, lines, oversize, next.read_buf@, sent, false, start);
}

/// It does not matter in how many pieces bytes come: read in two pieces that
/// leave the connection open, they give the lines and the remainder that they
/// give when read at once.
pub proof fn law_pieces_do_not_matter(
    conn: ConnState,
    first: Seq<u8>,
    lines1: Seq<Vec<u8>>,
    between: ConnState,
    second: Seq<u8>,
    lines2: Seq<Vec<u8>>,
    end: ConnState,
    lines: Seq<Vec<u8>>,
    at_once: ConnState,
)
    requires
        read_into(conn, first, lines1, between),
        !between.close_after_flush,
        read_into(between, second, lines2, end),
        !end.close_after_flush,
        read_into(conn, first + second, lines, at_once),
    ensures
        at_once.read_buf@ == end.read_buf@,
        lines.len() == lines1.len() + lines2.len(),
        forall|i: int| 0 <= i < lines1.len() ==> (#[trigger] lines1[i])@ == lines[i]@,
        forall|i: int|
            0 <= i < lines2.len() ==> (#[trigger] lines2[i])@ == lines[lines1.len() + i]@,
        !at_once.close_after_flush,
{
    let total = conn.read_buf@ + (first + second);
    law_what_is_read_is_kept(conn, first, lines1, between);
    law_what_is_read_is_kept(between, second, lines2, end);
    let both = lines1 + lines2;
    lines::lemma_joined_concat(lines1, lines2);
    assert(total =~= (conn.read_buf@ + first) + second);
    assert(total =~= lines::joined(lines1) + (between.read_buf@ + second));
    assert(total =~= lines::joined(both) + end.read_buf@);
    assert(lines::cut(total, both, false, end.read_buf@)) by {
        let head = lines::joined(both);
        let dropped = total.subrange(head.len() as int, total.len() - end.read_buf@.len());
        assert(dropped =~= Seq::empty());
        assert(total =~= head + dropped + end.read_buf@);
        assert forall|i: int| 0 <= i < both.len() implies lines::is_line((#[trigger] both[i])@)
            && both[i]@.len() <= framing::MAX_LINE_BYTES by {
            if i < lines1.len() {
                assert(both[i] == lines1[i]);
            } else {
                assert(both[i] == lines2[i - lines1.len()]);
            }
        }
    }
    let oversize = choose|oversize: bool|
        {
            &&& #[trigger] lines::cut(total, lines, oversize, at_once.read_buf@)
            &&& at_once.close_after_flush == (conn.close_after_flush || oversize
                || at_once.read_buf@.len() > framing::MAX_LINE_BYTES)
        };
    lines::law_cut_is_unique(
        total,
        lines,
        oversize,
        at_once.read_buf@,
        both,
        false,
        end.read_buf@,
    );
    assert forall|i: int| 0 <= i < lines1.len() implies (#[trigger] lines1[i])@ == lines[i]@ by {
        assert(lines[i]@ == both[i]@);
    }
    assert forall|i: int| 0 <= i < lines2.len() implies (#[trigger] lines2[i])@ == lines[
    lines1.len() + i]@ by {
        assert(lines[lines1.len() + i]@ == both[lines1.len() + i]@);
    }
}

/// Drops the first `n` bytes of the queue.
fn drop_front(queue: &mut std::collections::VecDeque<u8>, n: usize)
    requires
        n <= old(queue)@.len(),
    ensures
        final(queue)@ == old(queue)@.skip(n as int),
{
    let mut i: usize = 0;
    while i < n
        invariant
            i <= n <= old(queue)@.len(),
            queue@ == old(queue)@.skip(i as int),
        decreases n - i,
    {
        let _ = queue.pop_front();
        i = i + 1;
        assert(queue@ =~= old(queue)@.skip(i as int));
    }
}

impl Hub {
    /// The order of the tokens, their range, the bound on their number and the
    /// bounds of every queue.
    pub open spec fn wf(self) -> bool {
        &&& ascending(self.conns@)
        &&& self.conns@.len() <= MAX_IPC_CONNS
        &&& TOKEN_CONN_BASE <= self.next_conn_token
        &&& forall|i: int|
            0 <= i < self.conns@.len() ==> TOKEN_CONN_BASE <= (#[trigger] self.conns@[i]).token
                < self.next_conn_token && self.conns@[i].bounded()
    }

    /// No connections yet.
    pub fn new() -> (hub: Hub)
        ensures
            hub.wf(),
            hub@.conns == Map::<usize, ConnState>::empty(),
            hub.conns@.len() == 0,
            hub.next_conn_token == TOKEN_CONN_BASE,
    {
        let hub = Hub { conns: Vec::new(), next_conn_token: TOKEN_CONN_BASE };
        assert(hub@.conns =~= Map::<usize, ConnState>::empty());
        hub
    }

    /// Where the connection of `token` stands.
    fn find(&self, token: usize) -> (place: Option<usize>)
        requires
            ascending(self.conns@),
        ensures
            match place {
                Some(i) => i < self.conns@.len() && self.conns@[i as int].token == token
                    && self@.conns.contains_key(token) && self@.conns[token] == self.conns@[i as int],
                None => !self@.conns.contains_key(token),
            },
    {
        let mut i: usize = 0;
        while i < self.conns.len()
            invariant
                i <= self.conns@.len(),
                ascending(self.conns@),
                forall|j: int| 0 <= j < i ==> (#[trigger] self.conns@[j]).token != token,
            decreases self.conns@.len() - i,
        {
            if self.conns[i].token == token {
                proof {
                    lemma_by_token(self.conns@, i as int);
                }
                return Some(i);
            }
            i = i + 1;
        }
        None
    }

    /// Hands out the next token.
    pub fn allocate_conn_token(&mut self) -> (token: usize)
        requires
            old(self).next_conn_token < usize::MAX,
        ensures
            token == old(self).next_conn_token,
            final(self).next_conn_token == token + 1,
            final(self).conns == old(self).conns,
    {
        let token: usize = self.next_conn_token;
        self.next_conn_token = token + 1;
        token
    }

    /// What to do about one `accept`. A new connection gets a token that was
    /// never used before, or is refused where all places are taken.
    pub fn on_accept(&mut self, event: AcceptEvent) -> (step: AcceptStep)
        requires
            old(self).wf(),
            event is Accepted && old(self).conns@.len() < MAX_IPC_CONNS ==> old(
                self,
            ).next_conn_token < usize::MAX,
        ensures
            final(self).wf(),
            final(self).conns == old(self).conns,
            step == after_accept(event, old(self).conns@.len(), old(self).next_conn_token),
            final(self).next_conn_token == (if step is Admit {
                old(self).next_conn_token + 1
            } else {
                old(self).next_conn_token as int
            }),
    {
        match event {
            AcceptEvent::Accepted => {
                if self.conns.len() >= MAX_IPC_CONNS {
                    AcceptStep::Refuse
                } else {
                    AcceptStep::Admit { token: self.allocate_conn_token() }
                }
            },
            AcceptEvent::WouldBlock => AcceptStep::Done,
            AcceptEvent::Interrupted => AcceptStep::Again,
            AcceptEvent::Failed => AcceptStep::Fail,
        }
    }

    /// Files the connection admitted under the token handed out last.
    pub fn insert_conn(&mut self, token: usize)
        requires
            old(self).wf(),
            old(self).conns@.len() < MAX_IPC_CONNS,
            TOKEN_CONN_BASE <= token < old(self).next_conn_token,
            forall|i: int|
                0 <= i < old(self).conns@.len() ==> (#[trigger] old(self).conns@[i]).token < token,
        ensures
            final(self).wf(),
            final(self).next_conn_token == old(self).next_conn_token,
            admitted(old(self)@.conns, token, final(self)@.conns),
    {
        let conn = ConnState::new(token);
        proof {
            lemma_by_token_push(self.conns@, conn);
        }
        self.conns.push(conn);
    }

    /// Whether any connection streams diagnostics.
    pub open spec fn spec_has_any_subscriber(self) -> bool {
        exists|i: int| 0 <= i < self.conns@.len() && (#[trigger] self.conns@[i]).role.spec_is_sub()
    }

    /// Whether any connection streams diagnostics.
    pub fn has_any_subscriber(&self) -> (any: bool)
        ensures
            any == self.spec_has_any_subscriber(),
    {
        let mut i: usize = 0;
        while i < self.conns.len()
            invariant
                i <= self.conns@.len(),
                forall|j: int| 0 <= j < i ==> !(#[trigger] self.conns@[j]).role.spec_is_sub(),
            decreases self.conns@.len() - i,
        {
            if self.conns[i].role.is_sub() {
                return true;
            }
            i = i + 1;
        }
        false
    }

    /// Offers one diagnostic line to every connection, in order of tokens.
    pub fn dispatch_to_subscribers(
        &mut self,
        line: &[u8],
        at: WallTime,
        diag_sub: Option<SubId>,
    )
        requires
            old(self).wf(),
        ensures
            final(self).wf(),
            final(self).next_conn_token == old(self).next_conn_token,
            final(self).conns@.len() == old(self).conns@.len(),
            forall|i: int|
                0 <= i < old(self).conns@.len() ==> (#[trigger] old(self).conns@[i]).dispatched(
                    line@,
                    diag_sub,
                    at,
                    final(self).conns@[i],
                ),
    {
        if !self.has_any_subscriber() {
            return;
        }
        let mut i: usize = 0;
        while i < self.conns.len()
            invariant
                i <= self.conns@.len(),
                self.conns@.len() == old(self).conns@.len(),
                self.next_conn_token == old(self).next_conn_token,
                forall|j: int|
                    i <= j < self.conns@.len() ==> self.conns@[j] == #[trigger] old(self).conns@[j],
                forall|j: int|
                    0 <= j < i ==> (#[trigger] old(self).conns@[j]).dispatched(
                        line@,
                        diag_sub,
                        at,
                        self.conns@[j],
                    ),
            decreases self.conns@.len() - i,
        {
            let _ = self.conns[i].try_dispatch_diag(line, diag_sub, at);
            i = i + 1;
        }
        assert forall|a: int, b: int| 0 <= a < b < self.conns@.len() implies (
        #[trigger] self.conns@[a]).token < (#[trigger] self.conns@[b]).token by {
            assert(old(self).conns@[a].token < old(self).conns@[b].token);
        }
        assert forall|a: int| 0 <= a < self.conns@.len() implies TOKEN_CONN_BASE <= (
        #[trigger] self.conns@[a]).token < self.next_conn_token && self.conns@[a].bounded() by {
            assert(TOKEN_CONN_BASE <= old(self).conns@[a].token < old(self).next_conn_token);
        }
    }

    /// The connection of `token`.
    pub fn conn_ref(&self, token: usize) -> (conn: Option<&ConnState>)
        requires
            self.wf(),
        ensures
            match conn {
                Some(c) => self@.conns.contains_key(token) && *c == self@.conns[token],
                None => !self@.conns.contains_key(token),
            },
    {
        match self.find(token) {
            Some(i) => Some(&self.conns[i]),
            None => None,
        }
    }

    /// The connection of `token`, to change; its token and the bounds of its
    /// queue must stay.
    pub fn conn_mut(&mut self, token: usize) -> (conn: Option<&mut ConnState>)
        requires
            old(self).wf(),
        ensures
            match conn {
                Some(c) => {
                    &&& old(self)@.conns.contains_key(token)
                    &&& *c == old(self)@.conns[token]
                    &&& final(c).token == token && final(c).bounded() ==> {
                        &&& final(self).wf()
                        &&& final(self).next_conn_token == old(self).next_conn_token
                        &&& final(self)@.conns == old(self)@.conns.insert(token, *final(c))
                    }
                },
                None => !old(self)@.conns.contains_key(token) && *final(self) == *old(self),
            },
    {
        match self.find(token) {
            Some(i) => {
                let ghost before = self.conns@;
                assert forall|c: ConnState|
                    c.token == token implies ascending(#[trigger] before.update(i as int, c))
                    && by_token(before.update(i as int, c)) == by_token(before).insert(token, c) by {
                    lemma_by_token_update(before, i as int, c);
                }
                Some(&mut self.conns[i])
            },
            None => None,
        }
    }

    /// Cuts what was read from a connection into lines.
    pub fn read_conn_into_lines(
        &mut self,
        token: usize,
        read: &[u8],
        peer_gone: bool,
        out: &mut Vec<Vec<u8>>,
    ) -> (outcome: Result<ReadOutcome, NoSuchConn>)
        requires
            old(self).wf(),
        ensures
            final(self).wf(),
            final(self).next_conn_token == old(self).next_conn_token,
            outcome == read_outcome(old(self)@.conns, token, peer_gone),
            outcome is Err ==> final(self)@.conns == old(self)@.conns && final(out)@ == old(out)@,
            outcome is Ok ==> {
                &&& final(self)@.conns == old(self)@.conns.insert(token, final(self)@.conns[token])
                &&& final(out)@.len() >= old(out)@.len()
                &&& final(out)@.take(old(out)@.len() as int) == old(out)@
                &&& read_into(
                    old(self)@.conns[token],
                    read@,
                    final(out)@.skip(old(out)@.len() as int),
                    final(self)@.conns[token],
                )
            },
    {
        let i: usize = match self.find(token) {
            Some(i) => i,
            None => {
                return Err(NoSuchConn { token });
            },
        };
        let ghost before = self.conns@;
        let ghost out_before = out@;
        self.conns[i].read_buf.extend_from_slice(read);
        assert(self.conns@[i as int].read_buf@ =~= before[i as int].read_buf@ + read@);
        let oversize: bool = lines::cut_lines(&mut self.conns[i].read_buf, out);
        if oversize {
            self.conns[i].arm_close_after_flush();
        }
        if self.conns[i].read_buf.len() > framing::MAX_LINE_BYTES {
            self.conns[i].arm_close_after_flush();
        }
        proof {
            lemma_replaced(before, self.conns@, i as int);
            assert(lines::cut(
                before[i as int].read_buf@ + read@,
                out@.skip(out_before.len() as int),
                oversize,
                self.conns@[i as int].read_buf@,
            ));
        }
        if peer_gone {
            Ok(ReadOutcome::PeerGone)
        } else {
            Ok(ReadOutcome::Continue)
        }
    }

    /// Queues an answer, one line of bytes. Where it does not fit, the
    /// connection will close, and the client is told so unless even that does
    /// not fit.
    pub fn enqueue_response(&mut self, token: usize, bytes: &[u8]) -> (outcome: EnqueueOutcome)
        requires
            old(self).wf(),
        ensures
            final(self).wf(),
            final(self).next_conn_token == old(self).next_conn_token,
            outcome == queue_outcome(old(self)@.conns, token, bytes@.len()),
            outcome == EnqueueOutcome::ConnGone ==> final(self)@.conns == old(self)@.conns,
            outcome != EnqueueOutcome::ConnGone ==> final(self)@.conns == old(self)@.conns.insert(
                token,
                final(self)@.conns[token],
            ) && answered(old(self)@.conns[token], bytes@, final(self)@.conns[token]),
    {
        let i: usize = match self.find(token) {
            Some(i) => i,
            None => {
                return EnqueueOutcome::ConnGone;
            },
        };
        let ghost before = self.conns@;
        match self.conns[i].push_response(bytes) {
            PushOutcome::Accepted => {
                proof {
                    lemma_replaced(before, self.conns@, i as int);
                }
                EnqueueOutcome::Accepted
            },
            PushOutcome::Refused => {
                let mut message: String = "response of ".to_owned();
                text::push_decimal(&mut message, bytes.len() as u64);
                message.append(" bytes exceeds per-conn cap of ");
                text::push_decimal(&mut message, conns::ACCEPT_CAP as u64);
                message.append(" bytes");
                proof {
                    lemma_too_big_line_is_short(bytes@.len());
                }
                let line: String = framing::encode_err_line(
                    WireErrorCode::ResponseTooBig,
                    message.as_str(),
                );
                self.conns[i].push_err_in_reserve(line.as_str().as_bytes());
                proof {
                    lemma_replaced(before, self.conns@, i as int);
                }
                EnqueueOutcome::Refused
            },
        }
    }

    /// Whether the connection of `token` waits for nothing but its end.
    pub open spec fn idle(self, token: usize) -> bool {
        &&& self@.conns.contains_key(token)
        &&& self@.conns[token].close_after_flush
        &&& self@.conns[token].write_queue@.len() == 0
    }

    /// Drops the connection where it was to close and nothing is left to
    /// write.
    pub fn try_terminate_if_idle(&mut self, token: usize) -> (terminated: bool)
        requires
            old(self).wf(),
        ensures
            final(self).wf(),
            final(self).next_conn_token == old(self).next_conn_token,
            terminated == old(self).idle(token),
            final(self)@.conns == (if terminated {
                old(self)@.conns.remove(token)
            } else {
                old(self)@.conns
            }),
    {
        match self.find(token) {
            Some(i) => {
                if self.conns[i].close_after_flush && self.conns[i].write_queue.len() == 0 {
                    self.terminate_conn(token);
                    true
                } else {
                    false
                }
            },
            None => false,
        }
    }

    /// What to do after one `write` of queued bytes; what was written leaves
    /// the queue.
    pub fn on_write(&mut self, token: usize, event: WriteEvent) -> (step: WriteStep)
        requires
            old(self).wf(),
            old(self)@.conns.contains_key(token),
            event matches WriteEvent::Wrote(n) ==> n <= old(self)@.conns[token].write_queue@.len(),
        ensures
            final(self).wf(),
            final(self).next_conn_token == old(self).next_conn_token,
            step == after_write(event),
            final(self)@.conns == old(self)@.conns.insert(token, final(self)@.conns[token]),
            written(old(self)@.conns[token], event, final(self)@.conns[token]),
    {
        let i: usize = match self.find(token) {
            Some(i) => i,
            None => {
                return WriteStep::Stop;
            },
        };
        let ghost before = self.conns@;
        let step: WriteStep = match event {
            WriteEvent::Wrote(n) => {
                drop_front(&mut self.conns[i].write_queue, n);
                if n == 0 {
                    WriteStep::Stop
                } else {
                    WriteStep::Again
                }
            },
            WriteEvent::WouldBlock => WriteStep::Stop,
            WriteEvent::Interrupted => WriteStep::Again,
            WriteEvent::Failed => WriteStep::Terminate,
        };
        proof {
            lemma_replaced(before, self.conns@, i as int);
        }
        step
    }

    /// How a write pass that was not cut short by a failure leaves the
    /// connection.
    pub open spec fn drain_verdict(self, token: usize) -> DrainVerdict {
        if !self@.conns.contains_key(token) {
            DrainVerdict::ConnGone
        } else if self@.conns[token].write_queue@.len() > 0 {
            DrainVerdict::Continue
        } else if self@.conns[token].close_after_flush {
            DrainVerdict::Terminate
        } else {
            DrainVerdict::RearmReadable
        }
    }

    /// How a write pass that was not cut short by a failure leaves the
    /// connection.
    pub fn after_drain(&self, token: usize) -> (verdict: DrainVerdict)
        requires
            self.wf(),
        ensures
            verdict == self.drain_verdict(token),
    {
        match self.find(token) {
            None => DrainVerdict::ConnGone,
            Some(i) => {
                if self.conns[i].write_queue.len() > 0 {
                    DrainVerdict::Continue
                } else if self.conns[i].close_after_flush {
                    DrainVerdict::Terminate
                } else {
                    DrainVerdict::RearmReadable
                }
            },
        }
    }

    /// Drops the connection.
    pub fn terminate_conn(&mut self, token: usize)
        requires
            old(self).wf(),
        ensures
            final(self).wf(),
            final(self).next_conn_token == old(self).next_conn_token,
            final(self)@.conns == old(self)@.conns.remove(token),
    {
        match self.find(token) {
            Some(i) => {
                proof {
                    lemma_by_token_remove(self.conns@, i as int);
                }
                let ghost before = self.conns@;
                let _ = self.conns.remove(i);
                assert forall|a: int| 0 <= a < self.conns@.len() implies TOKEN_CONN_BASE <= (
                #[trigger] self.conns@[a]).token < self.next_conn_token && self.conns@[a].bounded() by {
                    let a0 = if a < i { a } else { a + 1 };
                    assert(self.conns@[a] == before[a0]);
                }
            },
            None => {
                assert(self@.conns =~= self@.conns.remove(token));
            },
        }
    }

    /// Whether the connection of `token` has bytes to write.
    pub open spec fn has_bytes(self, token: usize) -> bool {
        self@.conns.contains_key(token) && self@.conns[token].write_queue@.len() > 0
    }

    /// The tokens of the connections with bytes to write, in order: each is to
    /// be polled for writing as well.
    pub fn writable_interests(&self) -> (tokens: Vec<usize>)
        requires
            self.wf(),
        ensures
            forall|i: int, j: int| 0 <= i < j < tokens@.len() ==> tokens@[i] < tokens@[j],
            forall|token: usize| tokens@.contains(token) <==> self.has_bytes(token),
    {
        let mut tokens: Vec<usize> = Vec::new();
        let mut i: usize = 0;
        while i < self.conns.len()
            invariant
                i <= self.conns@.len(),
                self.wf(),
                forall|a: int, b: int| 0 <= a < b < tokens@.len() ==> tokens@[a] < tokens@[b],
                forall|a: int, b: int|
                    0 <= a < tokens@.len() && i <= b < self.conns@.len() ==> tokens@[a] < (
                    #[trigger] self.conns@[b]).token && #[trigger] tokens@[a] <= usize::MAX,
                forall|token: usize|
                    tokens@.contains(token) <==> (exists|j: int|
                        0 <= j < i && (#[trigger] self.conns@[j]).token == token
                            && self.conns@[j].write_queue@.len() > 0),
            decreases self.conns@.len() - i,
        {
            let ghost before = tokens@;
            let token: usize = self.conns[i].token;
            let pending: bool = self.conns[i].write_queue.len() > 0;
            if pending {
                tokens.push(token);
            }
            proof {
                assert forall|t: usize| tokens@.contains(t) <==> (exists|j: int|
                    0 <= j < i + 1 && (#[trigger] self.conns@[j]).token == t
                        && self.conns@[j].write_queue@.len() > 0) by {
                    if tokens@.contains(t) {
                        if before.contains(t) {
                        } else {
                            assert(t == token);
                            assert(self.conns@[i as int].token == t);
                        }
                    }
                    if exists|j: int|
                        0 <= j < i + 1 && (#[trigger] self.conns@[j]).token == t
                            && self.conns@[j].write_queue@.len() > 0 {
                        let j = choose|j: int|
                            0 <= j < i + 1 && (#[trigger] self.conns@[j]).token == t
                                && self.conns@[j].write_queue@.len() > 0;
                        if j < i {
                            assert(before.contains(t));
                            let k = choose|k: int| 0 <= k < before.len() && before[k] == t;
                            assert(tokens@[k] == t);
                        } else {
                            assert(tokens@[before.len() as int] == t);
                        }
                    }
                }
            }
            i = i + 1;
        }
        assert forall|token: usize|
            tokens@.contains(token) <==> self@.conns.contains_key(token)
                && self@.conns[token].write_queue@.len() > 0 by {
            if tokens@.contains(token) {
                let j = choose|j: int|
                    0 <= j < self.conns@.len() && (#[trigger] self.conns@[j]).token == token
                        && self.conns@[j].write_queue@.len() > 0;
                lemma_by_token(self.conns@, j);
            }
            if self@.conns.contains_key(token) && self@.conns[token].write_queue@.len() > 0 {
                let j = choose|j: int|
                    0 <= j < self.conns@.len() && (#[trigger] self.conns@[j]).token == token;
                lemma_by_token(self.conns@, j);
            }
        }
        tokens
    }

    /// Ends the pass that polls connections for writing: those of `failed`
    /// could not be polled and are dropped; no other is touched.
    pub fn arm_writable_interests(&mut self, failed: &[usize])
        requires
            old(self).wf(),
        ensures
            final(self).wf(),
            final(self).next_conn_token == old(self).next_conn_token,
            polled_without(old(self)@.conns, failed@, final(self)@.conns),
    {
        let mut i: usize = 0;
        assert(failed@.take(0).to_set() =~= Set::empty());
        assert(self@.conns =~= self@.conns.remove_keys(Set::empty()));
        while i < failed.len()
            invariant
                i <= failed@.len(),
                self.wf(),
                self.next_conn_token == old(self).next_conn_token,
                self@.conns == old(self)@.conns.remove_keys(failed@.take(i as int).to_set()),
            decreases failed@.len() - i,
        {
            let ghost done = failed@.take(i as int);
            self.terminate_conn(failed[i]);
            i = i + 1;
            proof {
                let next = failed@.take(i as int);
                assert(next =~= done.push(failed@[i - 1]));
                assert forall|t: usize| next.contains(t) <==> done.contains(t) || t
                    == failed@[i - 1] by {
                    if done.contains(t) {
                        let k = choose|k: int| 0 <= k < done.len() && done[k] == t;
                        assert(next[k] == t);
                    }
                    if t == failed@[i - 1] {
                        assert(next[i - 1] == t);
                    }
                }
                assert(self@.conns =~= old(self)@.conns.remove_keys(next.to_set()));
            }
        }
        assert(failed@.take(i as int) =~= failed@);
    }

    /// The number of connections.
    pub fn conn_count(&self) -> (count: usize)
        ensures
            count == self.conns@.len(),
    {
        self.conns.len()
    }
}

/// Whether `next` is what an answer or a diagnostic leaves of `conn`.
pub open spec fn fed(conn: ConnState, next: ConnState) -> bool {
    ||| exists|bytes: Seq<u8>| #[trigger] answered(conn, bytes, next)
    ||| exists|line: Seq<u8>, diag_sub: Option<SubId>, at: WallTime| #[trigger]
        conn.dispatched(line, diag_sub, at, next)
}

/// No answer, no refusal and no diagnostic takes a queue beyond the hard
/// ceiling, however many of them come before it is written out, and none takes
/// it beyond the soft cap unless the connection is about to close.
pub proof fn law_no_queue_goes_beyond_the_hard_ceiling(states: Seq<ConnState>)
    requires
        states.len() > 0,
        states[0].bounded(),
        forall|i: int, j: int|
            0 <= i < states.len() - 1 && j == i + 1 ==> fed(
                #[trigger] states[i],
                #[trigger] states[j],
            ),
    ensures
        states.last().bounded(),
    decreases states.len(),
{
    let n = states.len() - 1;
    if n > 0 {
        let shorter = states.drop_last();
        assert forall|i: int, j: int| 0 <= i < shorter.len() - 1 && j == i + 1 implies fed(
            #[trigger] shorter[i],
            #[trigger] shorter[j],
        ) by {
            assert(fed(states[i], states[j]));
        }
        law_no_queue_goes_beyond_the_hard_ceiling(shorter);
        assert(shorter.last() == states[n - 1]);
        assert(fed(states[n - 1], states[n]));
    }
}

/// A connection that is to close does not linger: where nothing is queued it
/// is dropped as idle, else it is polled for writing, and once everything is
/// written it is dropped, whether or not it could be polled again.
pub proof fn law_a_closing_connection_does_not_linger(hub: Hub, token: usize)
    requires
        hub@.conns.contains_key(token),
        hub@.conns[token].close_after_flush,
    ensures
        hub.idle(token) <==> !hub.has_bytes(token),
        hub.has_bytes(token) <==> hub@.conns[token].write_queue@.len() > 0,
        hub.drain_verdict(token) == (if hub.has_bytes(token) {
            DrainVerdict::Continue
        } else {
            DrainVerdict::Terminate
        }),
{
}

/// A connection is polled for writing exactly where it has bytes to write, and
/// dropped as idle exactly where it has none and is to close; one that is not
/// to close goes on being read once everything is written.
pub proof fn law_a_queue_decides_what_is_polled(hub: Hub, token: usize)
    ensures
        hub.has_bytes(token) <==> hub@.conns.contains_key(token)
            && hub@.conns[token].write_queue@.len() > 0,
        hub.idle(token) <==> hub@.conns.contains_key(token)
            && hub@.conns[token].write_queue@.len() == 0 && hub@.conns[token].close_after_flush,
        hub.drain_verdict(token) is ConnGone <==> !hub@.conns.contains_key(token),
        hub.drain_verdict(token) is Continue <==> hub.has_bytes(token),
        hub.drain_verdict(token) is Terminate <==> hub.idle(token),
{
}

/// The next token names no connection, and neither does any after it: a token
/// is never used twice.
pub proof fn law_a_fresh_token_names_no_connection(hub: Hub, token: usize)
    requires
        hub.wf(),
        token >= hub.next_conn_token,
    ensures
        !hub@.conns.contains_key(token),
{
}

/// A connection that streams goes on streaming, through the same filter,
/// whatever it is given.
pub proof fn law_a_stream_stays_a_stream(conn: ConnState, next: ConnState)
    requires
        fed(conn, next),
    ensures
        next.role is Sub <==> conn.role is Sub,
        conn.role is Sub ==> next.role->filter == conn.role->filter,
{
}

/// Whether `states` are those of one connection while it is given `answers`
/// one after the other, none of which fits.
pub open spec fn refused_in_a_row(states: Seq<ConnState>, answers: Seq<Seq<u8>>) -> bool {
    &&& states.len() == answers.len() + 1
    &&& forall|i: int|
        #![trigger answers[i]]
        0 <= i < answers.len() ==> {
            &&& answers[i].len() <= u64::MAX
            &&& states[i].write_queue@.len() + answers[i].len() > conns::ACCEPT_CAP
            &&& answered(states[i], answers[i], states[i + 1])
        }
}

/// The lines that refuse the answers, in order.
pub open spec fn refusal_lines(answers: Seq<Seq<u8>>) -> Seq<u8>
    decreases answers.len(),
{
    if answers.len() == 0 {
        Seq::empty()
    } else {
        refusal_lines(answers.drop_last()) + too_big_line(answers.last().len())
    }
}

/// The reserve holds eight refusals: that many answers in a row that do not
/// fit are all reported before anything is written out.
pub proof fn law_the_reserve_holds_eight_refusals(states: Seq<ConnState>, answers: Seq<Seq<u8>>)
    requires
        refused_in_a_row(states, answers),
        answers.len() <= 8,
        states[0].write_queue@.len() <= conns::ACCEPT_CAP,
    ensures
        states.last().write_queue@ == states[0].write_queue@ + refusal_lines(answers),
        refusal_lines(answers).len() <= TOO_BIG_LINE_MAX * answers.len(),
    decreases answers.len(),
{
    if answers.len() > 0 {
        let shorter = states.drop_last();
        let fewer = answers.drop_last();
        let n = fewer.len() as int;
        assert forall|i: int| #![trigger fewer[i]] 0 <= i < fewer.len() implies {
            &&& fewer[i].len() <= u64::MAX
            &&& shorter[i].write_queue@.len() + fewer[i].len() > conns::ACCEPT_CAP
            &&& answered(shorter[i], fewer[i], shorter[i + 1])
        } by {
            assert(answers[i] == fewer[i]);
            assert(shorter[i] == states[i]);
            assert(shorter[i + 1] == states[i + 1]);
        }
        law_the_reserve_holds_eight_refusals(shorter, fewer);
        assert(shorter.last() == states[n]);
        assert(answers[n] == answers.last());
        lemma_too_big_line_is_short(answers[n].len());
        assert(states[n + 1].write_queue@ =~= states[0].write_queue@ + refusal_lines(answers));
    } else {
        assert(states.last().write_queue@ =~= states[0].write_queue@ + refusal_lines(answers));
    }
}

/// The first answer that a connection is given beyond the cap is always
/// reported: the client is told so behind everything already queued, the
/// connection will close, and it keeps the bytes queued before.
pub proof fn law_refused_answer_is_reported(conn: ConnState, bytes: Seq<u8>, next: ConnState)
    requires
        answered(conn, bytes, next),
        conn.write_queue@.len() + bytes.len() > conns::ACCEPT_CAP,
        conn.bounded(),
        !conn.close_after_flush,
        bytes.len() <= u64::MAX,
    ensures
        next.close_after_flush,
        conn.write_queue@.is_prefix_of(next.write_queue@),
        next.write_queue@.skip(conn.write_queue@.len() as int) == too_big_line(bytes.len()),
        next.write_queue@.len() > 0,
{
    reveal_strlit("}\n");
    lemma_too_big_line_is_short(bytes.len());
    let line = framing::plain_err_line(WireErrorCode::ResponseTooBig, too_big_text(bytes.len()));
    assert(next.write_queue@.take(conn.write_queue@.len() as int) =~= conn.write_queue@);
    assert(next.write_queue@.skip(conn.write_queue@.len() as int) =~= too_big_line(bytes.len()));
    assert(line.len() > 0);
    vstd::utf8::encode_utf8_first_scalar(line);
    assert(framing::bytes(line).len() > 0);
}

} // verus!
