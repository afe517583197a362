//! Text building blocks: decimal numbers and the formats that outside crates
//! define (JSON strings, timestamps, durations).

use vstd::prelude::*;
use vstd::string::StringExecFns;
use crate::time::{Span, WallTime};

verus! {

/// The character of a decimal digit.
pub open spec fn digit(d: nat) -> char {
    (48 + d) as char
}

/// The decimal writing of a number, without leading zeros.
pub open spec fn decimal(n: nat) -> Seq<char>
    decreases n,
{
    if n < 10 {
        seq![digit(n)]
    } else {
        decimal(n / 10).push(digit(n % 10))
    }
}

/// One digit as a string.
fn digit_str(d: u64) -> (s: &'static str)
    requires
        d < 10,
    ensures
        s@ == seq![digit(d as nat)],
{
    proof {
        reveal_strlit("0");
        reveal_strlit("1");
        reveal_strlit("2");
        reveal_strlit("3");
        reveal_strlit("4");
        reveal_strlit("5");
        reveal_strlit("6");
        reveal_strlit("7");
        reveal_strlit("8");
        reveal_strlit("9");
    }
    match d {
        0 => "0",
        1 => "1",
        2 => "2",
        3 => "3",
        4 => "4",
        5 => "5",
        6 => "6",
        7 => "7",
        8 => "8",
        _ => "9",
    }
}

/// Appends the decimal writing of `n`.
pub fn push_decimal(out: &mut String, n: u64)
    ensures
        final(out)@ == old(out)@ + decimal(n as nat),
    decreases n,
{
    if n >= 10 {
        push_decimal(out, n / 10);
    }
    out.append(digit_str(n % 10));
    assert(out@ =~= old(out)@ + decimal(n as nat));
}

/// A number of at most `digits` digits is written with at most that many
/// characters, every one of them a digit.
pub proof fn lemma_decimal_shape(n: nat, digits: nat)
    requires
        n < vstd::arithmetic::power::pow(10, digits),
        digits >= 1,
    ensures
        1 <= decimal(n).len() <= digits,
        forall|i: int|
            0 <= i < decimal(n).len() ==> '0' <= #[trigger] decimal(n)[i] <= '9',
    decreases digits,
{
    reveal(vstd::arithmetic::power::pow);
    if n >= 10 {
        if digits == 1 {
            assert(vstd::arithmetic::power::pow(10, 1) == 10 * vstd::arithmetic::power::pow(10, 0));
        }
        let rest: nat = (digits - 1) as nat;
        assert(vstd::arithmetic::power::pow(10, digits) == 10 * vstd::arithmetic::power::pow(10, rest));
        lemma_decimal_shape(n / 10, rest);
    }
}

/// The number that decimal digits stand for.
pub open spec fn value_of(digits: Seq<char>) -> int
    decreases digits.len(),
{
    if digits.len() == 0 {
        0
    } else {
        value_of(digits.drop_last()) * 10 + (digits.last() as int - '0' as int)
    }
}

/// What is written of a number stands for that number, in digits, and starts
/// with a zero only where it is nothing else: no two numbers are written alike.
pub proof fn law_a_number_is_written_as_itself(n: nat)
    ensures
        value_of(decimal(n)) == n,
        decimal(n).len() > 0,
        forall|i: int| 0 <= i < decimal(n).len() ==> '0' <= #[trigger] decimal(n)[i] <= '9',
        decimal(n)[0] == '0' ==> n == 0,
        n == 0 ==> decimal(n).len() == 1,
    decreases n,
{
    if n >= 10 {
        law_a_number_is_written_as_itself(n / 10);
        assert(decimal(n).drop_last() =~= decimal(n / 10));
        assert(decimal(n)[0] == decimal(n / 10)[0]);
        assert(value_of(decimal(n)) == n);
    } else {
        assert(decimal(n).drop_last() =~= Seq::empty());
        assert(value_of(decimal(n).drop_last()) == 0);
    }
}

/// The character of a hexadecimal digit, in lower case.
pub open spec fn hex_digit(d: nat) -> char {
    if d < 10 {
        digit(d)
    } else {
        (87 + d) as char
    }
}

/// A character inside a JSON string: the quotation mark, the backslash and the
/// control characters below the space are escaped, all others are copied.
pub open spec fn json_char(c: char) -> Seq<char> {
    if c == '"' || c == '\\' {
        seq!['\\', c]
    } else if c == '\u{8}' {
        seq!['\\', 'b']
    } else if c == '\t' {
        seq!['\\', 't']
    } else if c == '\n' {
        seq!['\\', 'n']
    } else if c == '\u{c}' {
        seq!['\\', 'f']
    } else if c == '\r' {
        seq!['\\', 'r']
    } else if ' ' > c {
        let code = c as nat;
        seq!['\\', 'u', '0', '0', hex_digit(code / 16), hex_digit(code % 16)]
    } else {
        seq![c]
    }
}

/// The characters of a JSON string between its quotation marks.
pub open spec fn json_escaped(text: Seq<char>) -> Seq<char>
    decreases text.len(),
{
    if text.len() == 0 {
        Seq::empty()
    } else {
        json_escaped(text.drop_last()) + json_char(text.last())
    }
}

/// A text as a JSON string, quotation marks included.
pub open spec fn json_string(text: Seq<char>) -> Seq<char> {
    quoted(json_escaped(text))
}

/// Printable ASCII without the two characters that JSON escapes.
pub open spec fn plain_json(text: Seq<char>) -> bool {
    forall|i: int|
        0 <= i < text.len() ==> ' ' <= #[trigger] text[i] <= '~' && text[i] != '"' && text[i]
            != '\\'
}

/// Text without a line feed.
pub open spec fn no_line_feed(text: Seq<char>) -> bool {
    forall|i: int| 0 <= i < text.len() ==> #[trigger] text[i] != '\n'
}

/// `text` between two quotation marks.
pub open spec fn quoted(text: Seq<char>) -> Seq<char> {
    seq!['"'] + text + seq!['"']
}

/// A JSON string holds no line feed.
pub proof fn law_a_json_string_is_on_one_line(text: Seq<char>)
    ensures
        no_line_feed(json_string(text)),
{
    lemma_escaped_holds_no_line_feed(text);
}

/// A character inside a JSON string takes no line feed.
proof fn lemma_json_char_holds_no_line_feed(c: char)
    ensures
        no_line_feed(json_char(c)),
{
}

/// What is escaped holds no line feed.
proof fn lemma_escaped_holds_no_line_feed(text: Seq<char>)
    ensures
        no_line_feed(json_escaped(text)),
    decreases text.len(),
{
    if text.len() > 0 {
        lemma_escaped_holds_no_line_feed(text.drop_last());
        lemma_json_char_holds_no_line_feed(text.last());
    }
}

/// A text that needs no escapes is copied between two quotation marks.
pub proof fn law_plain_text_is_copied(text: Seq<char>)
    requires
        plain_json(text),
    ensures
        json_string(text) == quoted(text),
{
    lemma_plain_is_not_escaped(text);
}

/// A text that needs no escapes is left as it is.
proof fn lemma_plain_is_not_escaped(text: Seq<char>)
    requires
        plain_json(text),
    ensures
        json_escaped(text) == text,
    decreases text.len(),
{
    if text.len() > 0 {
        let front = text.drop_last();
        assert forall|i: int| 0 <= i < front.len() implies ' ' <= #[trigger] front[i] <= '~'
            && front[i] != '"' && front[i] != '\\' by {
            assert(front[i] == text[i]);
        }
        lemma_plain_is_not_escaped(front);
        assert(' ' <= text[text.len() - 1] <= '~');
        assert(json_char(text.last()) =~= seq![text.last()]);
    }
    assert(json_escaped(text) =~= text);
}

/// Calls `serde_json::to_string` on a string slice.
///
/// Believed without proof: the text comes back as a JSON string by the escapes
/// of [`json_char`]. Writing a string into memory does not fail.
#[verifier::external_body]
pub(crate) fn to_json_string(text: &str) -> (json: String)
    ensures
        json@ == json_string(text@),
{
    serde_json::to_string(text).expect("a string serializes")
}

/// The text that `humantime` writes for a wall-clock second, in RFC 3339 with
/// whole seconds.
pub uninterp spec fn rfc3339_seconds(secs: u64) -> Seq<char>;

/// The first second that RFC 3339 timestamps cannot name: the start of the
/// year 10000.
pub const RFC3339_END: u64 = 253_402_300_800;

/// Calls `humantime::format_rfc3339_seconds` on the given second since the
/// Unix epoch and renders the result.
///
/// Believed without proof: the text depends on the second alone. Rendering
/// fails from the year 10000 on.
#[verifier::external_body]
fn format_rfc3339_seconds(secs: u64) -> (text: String)
    requires
        secs < RFC3339_END,
    ensures
        text@ == rfc3339_seconds(secs),
{
    let at = std::time::UNIX_EPOCH + std::time::Duration::from_secs(secs);
    humantime::format_rfc3339_seconds(at).to_string()
}

/// A reading of the wall clock in RFC 3339, with whole seconds.
pub fn stamp(at: WallTime) -> (text: String)
    ensures
        text@ == rfc3339_seconds(at.spec_secs()),
{
    format_rfc3339_seconds(at.secs())
}

/// The text that `humantime` writes for a duration.
pub uninterp spec fn duration_text(secs: u64, nanos: u32) -> Seq<char>;

/// Calls `humantime::format_duration` on the duration of `secs` seconds and
/// `nanos` nanoseconds and renders the result.
///
/// Believed without proof: the text depends on these two numbers alone. A
/// whole second in `nanos` would be carried into `secs`, which could overflow.
#[verifier::external_body]
fn format_duration(secs: u64, nanos: u32) -> (text: String)
    requires
        nanos < crate::time::NANOS_PER_SEC,
    ensures
        text@ == duration_text(secs, nanos),
{
    humantime::format_duration(std::time::Duration::new(secs, nanos)).to_string()
}

/// A span as text.
pub fn format_span(span: Span) -> (text: String)
    ensures
        text@ == duration_text(span.secs(), span.nanos()),
{
    let (secs, nanos): (u64, u32) = span.parts();
    format_duration(secs, nanos)
}

/// The texts one after the other, with `sep` between each two.
pub open spec fn joined(texts: Seq<Seq<char>>, sep: Seq<char>) -> Seq<char>
    decreases texts.len(),
{
    if texts.len() == 0 {
        Seq::empty()
    } else if texts.len() == 1 {
        texts[0]
    } else {
        joined(texts.drop_last(), sep) + sep + texts.last()
    }
}

/// A joined text grows by the separator and the next text, and by that text
/// alone where it is the first.
pub proof fn law_joined_texts_grow_one_by_one(
    texts: Seq<Seq<char>>,
    sep: Seq<char>,
    more: Seq<char>,
)
    ensures
        texts.len() == 0 ==> joined(texts.push(more), sep) == more,
        texts.len() > 0 ==> joined(texts.push(more), sep) == joined(texts, sep) + sep + more,
        texts.len() == 0 ==> joined(texts, sep).len() == 0,
{
    assert(texts.push(more).drop_last() =~= texts);
}

/// How a joined text grows by one.
pub proof fn lemma_joined_take(texts: Seq<Seq<char>>, sep: Seq<char>, n: int)
    requires
        0 < n <= texts.len(),
    ensures
        n == 1 ==> joined(texts.take(n), sep) == texts[0],
        n > 1 ==> joined(texts.take(n), sep) == joined(texts.take(n - 1), sep) + sep + texts[n - 1],
{
    assert(texts.take(n).drop_last() =~= texts.take(n - 1));
}

/// Whether two texts are the same.
pub fn same(a: &str, b: &str) -> (yes: bool)
    ensures
        yes == (a@ == b@),
{
    match crate::names::order_names(a, b) {
        crate::names::NameOrder::Same => true,
        _ => false,
    }
}

/// A text that may be missing.
pub open spec fn opt(text: Option<String>) -> Option<Seq<char>> {
    match text {
        None => None,
        Some(s) => Some(s@),
    }
}

/// A copy of a text that may be missing.
pub fn clone_opt(text: &Option<String>) -> (copy: Option<String>)
    ensures
        opt(copy) == opt(*text),
{
    match text {
        None => None,
        Some(s) => Some(s.clone()),
    }
}

} // verus!
