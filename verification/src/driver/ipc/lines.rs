//! Cutting a byte stream into lines.

use vstd::prelude::*;
use vstd::utf8;
use crate::ipc::framing;
use crate::ipc::framing::MAX_LINE_BYTES;

verus! {

/// The byte that ends a line.
pub const LF: u8 = 10;

/// Whether `bytes` holds no line feed.
pub open spec fn no_lf(bytes: Seq<u8>) -> bool {
    forall|i: int| 0 <= i < bytes.len() ==> #[trigger] bytes[i] != LF
}

/// Whether `bytes` is one line: a line feed at its end and nowhere else.
pub open spec fn is_line(bytes: Seq<u8>) -> bool {
    bytes.len() > 0 && bytes.last() == LF && no_lf(bytes.drop_last())
}

/// The lines one after the other.
pub open spec fn joined(lines: Seq<Vec<u8>>) -> Seq<u8>
    decreases lines.len(),
{
    if lines.len() == 0 {
        Seq::empty()
    } else {
        joined(lines.drop_last()) + lines.last()@
    }
}

/// How `total` is cut: into `lines` within the length bound, then either a
/// remainder without a line feed, or, where `oversize`, one line beyond the
/// bound that is dropped and a remainder that is not looked at.
pub open spec fn cut(total: Seq<u8>, lines: Seq<Vec<u8>>, oversize: bool, rest: Seq<u8>) -> bool {
    let head = joined(lines);
    let dropped = total.subrange(head.len() as int, total.len() - rest.len());
    &&& head.len() + rest.len() <= total.len()
    &&& total == head + dropped + rest
    &&& forall|i: int|
        0 <= i < lines.len() ==> is_line((#[trigger] lines[i])@) && lines[i]@.len()
            <= MAX_LINE_BYTES
    &&& if oversize {
        is_line(dropped) && dropped.len() > MAX_LINE_BYTES
    } else {
        dropped.len() == 0 && no_lf(rest)
    }
}

/// The place of the first line feed.
fn find_lf(bytes: &Vec<u8>) -> (place: Option<usize>)
    ensures
        match place {
            Some(at) => at < bytes@.len() <= usize::MAX && bytes@[at as int] == LF && no_lf(
                bytes@.take(at as int),
            ),
            None => no_lf(bytes@),
        },
{
    let mut i: usize = 0;
    while i < bytes.len()
        invariant
            i <= bytes@.len(),
            no_lf(bytes@.take(i as int)),
        decreases bytes@.len() - i,
    {
        if bytes[i] == LF {
            return Some(i);
        }
        i = i + 1;
    }
    assert(bytes@.take(i as int) =~= bytes@);
    None
}

/// Cuts every complete line off the front of `buf` and appends it to `out`.
/// A line beyond the length bound is dropped and ends the pass.
pub fn cut_lines(buf: &mut Vec<u8>, out: &mut Vec<Vec<u8>>) -> (oversize: bool)
    ensures
        final(out)@.len() >= old(out)@.len(),
        final(out)@.take(old(out)@.len() as int) == old(out)@,
        cut(old(buf)@, final(out)@.skip(old(out)@.len() as int), oversize, final(buf)@),
{
    let ghost total = buf@;
    let ghost before = out@;
    let ghost mut lines: Seq<Vec<u8>> = Seq::empty();
    assert(out@ =~= before + lines);
    assert(total =~= joined(lines) + buf@);
    loop
        invariant
            out@ == before + lines,
            total == joined(lines) + buf@,
            forall|i: int|
                0 <= i < lines.len() ==> is_line((#[trigger] lines[i])@) && lines[i]@.len()
                    <= MAX_LINE_BYTES,
            before == old(out)@,
            total == old(buf)@,
        decreases buf@.len(),
    {
        match find_lf(buf) {
            None => {
                proof {
                    assert(out@.take(before.len() as int) =~= before);
                    assert(out@.skip(before.len() as int) =~= lines);
                    assert(total.subrange(joined(lines).len() as int, total.len() - buf@.len())
                        =~= Seq::empty());
                    assert(total =~= joined(lines) + Seq::<u8>::empty() + buf@);
                }
                return false;
            },
            Some(at) => {
                let ghost whole = buf@;
                let mut line: Vec<u8> = buf.split_off(at + 1);
                std::mem::swap(buf, &mut line);
                assert(line@ =~= whole.take(at + 1));
                assert(buf@ =~= whole.skip(at + 1));
                assert(line@.drop_last() =~= whole.take(at as int));
                assert(is_line(line@));
                if line.len() > MAX_LINE_BYTES {
                    proof {
                        assert(out@.take(before.len() as int) =~= before);
                        assert(out@.skip(before.len() as int) =~= lines);
                        assert(total.subrange(
                            joined(lines).len() as int,
                            total.len() - buf@.len(),
                        ) =~= line@);
                        assert(total =~= joined(lines) + line@ + buf@);
                    }
                    return true;
                }
                proof {
                    let next = lines.push(line);
                    assert(next.drop_last() =~= lines);
                    assert(joined(next) == joined(lines) + line@);
                    assert(total =~= joined(next) + buf@);
                    assert(before + next =~= (before + lines).push(line));
                    lines = next;
                }
                out.push(line);
            },
        }
    }
}

/// No byte is lost, repeated or reordered by cutting: where no line is beyond
/// the bound, the lines and the remainder put the input together again.
pub proof fn law_cut_keeps_every_byte(
    total: Seq<u8>,
    lines: Seq<Vec<u8>>,
    oversize: bool,
    rest: Seq<u8>,
)
    requires
        cut(total, lines, oversize, rest),
    ensures
        !oversize ==> joined(lines) + rest == total,
        joined(lines).is_prefix_of(total),
        rest.is_suffix_of(total),
{
    let dropped = total.subrange(joined(lines).len() as int, total.len() - rest.len());
    if !oversize {
        assert(joined(lines) + dropped + rest =~= joined(lines) + rest);
    }
    assert(total.take(joined(lines).len() as int) =~= joined(lines));
    assert(total.skip(total.len() - rest.len()) =~= rest);
}

/// Nothing up to the first line feed is passed over or run together with what
/// follows: where no line is beyond the bound, what stands there is the first
/// line.
pub proof fn law_every_line_feed_ends_a_line(
    total: Seq<u8>,
    lines: Seq<Vec<u8>>,
    rest: Seq<u8>,
    line: Seq<u8>,
)
    requires
        cut(total, lines, false, rest),
        is_line(line),
        line.is_prefix_of(total),
    ensures
        lines.len() > 0,
        lines[0]@ == line,
{
    if lines.len() == 0 {
        assert(lines =~= Seq::empty());
        lemma_cut_without_lines(total, false, rest, line);
    } else {
        lemma_cut_behind_first(total, lines, false, rest);
        lemma_first_line_is_unique(total, lines[0]@, line);
    }
}

/// Two lines at the front of one input are the same line.
proof fn lemma_first_line_is_unique(total: Seq<u8>, a: Seq<u8>, b: Seq<u8>)
    requires
        is_line(a),
        is_line(b),
        a.is_prefix_of(total),
        b.is_prefix_of(total),
    ensures
        a == b,
{
    if a.len() < b.len() {
        let i = a.len() - 1;
        assert(total[i] == a[i]);
        assert(b.drop_last()[i] == total[i]);
        assert(false);
    }
    if b.len() < a.len() {
        let i = b.len() - 1;
        assert(total[i] == b[i]);
        assert(a.drop_last()[i] == total[i]);
        assert(false);
    }
    assert(a =~= b);
}

/// Lines behind lines are joined behind them.
pub proof fn lemma_joined_concat(a: Seq<Vec<u8>>, b: Seq<Vec<u8>>)
    ensures
        joined(a + b) == joined(a) + joined(b),
    decreases b.len(),
{
    if b.len() > 0 {
        lemma_joined_concat(a, b.drop_last());
        assert((a + b).drop_last() =~= a + b.drop_last());
        assert(joined(a + b) =~= joined(a) + joined(b));
    } else {
        assert(a + b =~= a);
        assert(joined(a + b) =~= joined(a) + joined(b));
    }
}

/// The first line stands first.
proof fn lemma_joined_first(lines: Seq<Vec<u8>>)
    requires
        lines.len() > 0,
    ensures
        joined(lines) == lines[0]@ + joined(lines.drop_first()),
    decreases lines.len(),
{
    if lines.len() == 1 {
        assert(lines.drop_last() =~= Seq::empty());
        assert(lines.drop_first() =~= Seq::empty());
        assert(joined(lines) =~= lines[0]@ + joined(lines.drop_first()));
    } else {
        lemma_joined_first(lines.drop_last());
        assert(lines.drop_last().drop_first() =~= lines.drop_first().drop_last());
        assert(joined(lines) =~= lines[0]@ + joined(lines.drop_first()));
    }
}

/// Behind its first line, a cut input is cut in the same way.
proof fn lemma_cut_behind_first(
    total: Seq<u8>,
    lines: Seq<Vec<u8>>,
    oversize: bool,
    rest: Seq<u8>,
)
    requires
        cut(total, lines, oversize, rest),
        lines.len() > 0,
    ensures
        lines[0]@.is_prefix_of(total),
        cut(total.skip(lines[0]@.len() as int), lines.drop_first(), oversize, rest),
{
    lemma_joined_first(lines);
    let head = joined(lines);
    let dropped = total.subrange(head.len() as int, total.len() - rest.len());
    let tail = total.skip(lines[0]@.len() as int);
    let others = lines.drop_first();
    let tail_head = joined(others);
    let first = lines[0]@;
    assert(total == first + tail_head + dropped + rest);
    assert(total.take(first.len() as int) =~= first);
    assert(tail =~= tail_head + dropped + rest);
    let tail_dropped = tail.subrange(tail_head.len() as int, tail.len() - rest.len());
    assert(tail_dropped =~= dropped);
    assert forall|i: int| 0 <= i < others.len() implies is_line((#[trigger] others[i])@)
        && others[i]@.len() <= MAX_LINE_BYTES by {
        assert(others[i] == lines[i + 1]);
    }
}

/// An input without a single admissible line at its front has that front: a
/// line beyond the bound, or no line feed at all.
proof fn lemma_cut_without_lines(total: Seq<u8>, oversize: bool, rest: Seq<u8>, first: Seq<u8>)
    requires
        cut(total, Seq::empty(), oversize, rest),
        is_line(first),
        first.is_prefix_of(total),
    ensures
        oversize,
        first.len() > MAX_LINE_BYTES,
        rest == total.skip(first.len() as int),
{
    let dropped = total.subrange(0, total.len() - rest.len());
    if oversize {
        assert(total.take(dropped.len() as int) =~= dropped);
        lemma_first_line_is_unique(total, first, dropped);
        assert(rest =~= total.skip(first.len() as int));
    } else {
        assert(total =~= rest);
        assert(rest[first.len() - 1] == first.last());
        assert(false);
    }
}

/// Two cuts of one input without a single line agree.
proof fn lemma_lineless_cut_is_unique(
    total: Seq<u8>,
    oversize1: bool,
    rest1: Seq<u8>,
    oversize2: bool,
    rest2: Seq<u8>,
)
    requires
        cut(total, Seq::empty(), oversize1, rest1),
        cut(total, Seq::empty(), oversize2, rest2),
    ensures
        oversize1 == oversize2,
        rest1 == rest2,
{
    let dropped1 = total.subrange(0, total.len() - rest1.len());
    let dropped2 = total.subrange(0, total.len() - rest2.len());
    if oversize1 {
        assert(total.take(dropped1.len() as int) =~= dropped1);
        lemma_cut_without_lines(total, oversize2, rest2, dropped1);
        assert(rest1 =~= total.skip(dropped1.len() as int));
    } else if oversize2 {
        assert(total.take(dropped2.len() as int) =~= dropped2);
        lemma_cut_without_lines(total, oversize1, rest1, dropped2);
    } else {
        assert(rest1 =~= total);
        assert(rest2 =~= total);
    }
}

/// There is one way to cut an input: the same bytes always give the same
/// lines, the same verdict on the length bound and the same remainder.
pub proof fn law_cut_is_unique(
    total: Seq<u8>,
    lines1: Seq<Vec<u8>>,
    oversize1: bool,
    rest1: Seq<u8>,
    lines2: Seq<Vec<u8>>,
    oversize2: bool,
    rest2: Seq<u8>,
)
    requires
        cut(total, lines1, oversize1, rest1),
        cut(total, lines2, oversize2, rest2),
    ensures
        lines1.len() == lines2.len(),
        forall|i: int| 0 <= i < lines1.len() ==> (#[trigger] lines1[i])@ == lines2[i]@,
        oversize1 == oversize2,
        rest1 == rest2,
    decreases lines1.len(),
{
    if lines1.len() > 0 && lines2.len() > 0 {
        lemma_cut_behind_first(total, lines1, oversize1, rest1);
        lemma_cut_behind_first(total, lines2, oversize2, rest2);
        lemma_first_line_is_unique(total, lines1[0]@, lines2[0]@);
        let tail = total.skip(lines1[0]@.len() as int);
        law_cut_is_unique(
            tail,
            lines1.drop_first(),
            oversize1,
            rest1,
            lines2.drop_first(),
            oversize2,
            rest2,
        );
        assert forall|i: int| 0 <= i < lines1.len() implies (#[trigger] lines1[i])@
            == lines2[i]@ by {
            if i > 0 {
                assert(lines1.drop_first()[i - 1] == lines1[i]);
                assert(lines2.drop_first()[i - 1] == lines2[i]);
            }
        }
    } else if lines1.len() > 0 {
        lemma_cut_behind_first(total, lines1, oversize1, rest1);
        assert(lines2 =~= Seq::empty());
        lemma_cut_without_lines(total, oversize2, rest2, lines1[0]@);
        assert(false);
    } else if lines2.len() > 0 {
        lemma_cut_behind_first(total, lines2, oversize2, rest2);
        assert(lines1 =~= Seq::empty());
        lemma_cut_without_lines(total, oversize1, rest1, lines2[0]@);
        assert(false);
    } else {
        assert(lines1 =~= Seq::empty());
        assert(lines2 =~= Seq::empty());
        lemma_lineless_cut_is_unique(total, oversize1, rest1, oversize2, rest2);
    }
}

/// Only a line feed is encoded with the byte of one.
proof fn lemma_byte_of_a_line_feed(c: char)
    requires
        c != '\n',
    ensures
        no_lf(utf8::encode_scalar(c as u32)),
{
    let v = c as u32;
    assert(v != 10);
    assert(v < 0x80 && v != 10 ==> (v & 0x7F) as u8 != 10) by (bit_vector);
    assert(0xC0 | ((v >> 6) & 0x1F) as u8 != 10) by (bit_vector);
    assert(0xE0 | ((v >> 12) & 0x0F) as u8 != 10) by (bit_vector);
    assert(0xF0 | ((v >> 18) & 0x07) as u8 != 10) by (bit_vector);
    assert(0x80 | (v & 0x3F) as u8 != 10) by (bit_vector);
    assert(0x80 | ((v >> 6) & 0x3F) as u8 != 10) by (bit_vector);
    assert(0x80 | ((v >> 12) & 0x3F) as u8 != 10) by (bit_vector);
}

/// What is one line of text is one line of bytes: whoever cuts a stream at its
/// line feeds gets every line whole.
pub proof fn law_a_line_of_text_is_a_line_of_bytes(line: Seq<char>)
    requires
        framing::one_line(line),
    ensures
        is_line(framing::bytes(line)),
    decreases line.len(),
{
    let rest = line.drop_first();
    let head = utf8::encode_scalar(line[0] as u32);
    assert(framing::bytes(line) == head + utf8::encode_utf8(rest));
    if line.len() == 1 {
        assert(line[0] == line.last());
        assert(rest.len() == 0);
        assert((10u32 & 0x7F) as u8 == 10) by (bit_vector);
        assert(head =~= seq![LF]);
        assert(framing::bytes(line) =~= seq![LF]);
    } else {
        assert(line.drop_last()[0] == line[0]);
        assert(framing::one_line(rest)) by {
            assert forall|i: int| 0 <= i < rest.drop_last().len() implies #[trigger] rest.drop_last()[i]
                != '\n' by {
                assert(line.drop_last()[i + 1] == rest.drop_last()[i]);
            }
        }
        law_a_line_of_text_is_a_line_of_bytes(rest);
        lemma_byte_of_a_line_feed(line[0]);
        let tail = utf8::encode_utf8(rest);
        assert((head + tail).drop_last() =~= head + tail.drop_last());
        assert((head + tail).last() == tail.last());
    }
}

} // verus!
