//! The lines of the operator socket: one JSON object each, ended by a line
//! feed.

use vstd::prelude::*;
use vstd::string::StringExecFns;
use vstd::utf8;
use crate::ipc::protocol::WireErrorCode;
use crate::text;
use crate::time::WallTime;

verus! {

/// Upper bound on one request line, its line feed included.
pub const MAX_LINE_BYTES: usize = 256 * 1024;

/// The line that refuses a request.
pub open spec fn err_line(code: WireErrorCode, error: Seq<char>) -> Seq<char> {
    "{\"kind\":\"err\",\"code\":\""@ + code.spec_token() + "\",\"error\":"@ + text::json_string(
        error,
    ) + "}\n"@
}

/// The line that reports `count` diagnostics dropped since `since`.
pub open spec fn missed_line(since: WallTime, count: u32) -> Seq<char> {
    "{\"diag\":\"_missed\",\"at\":"@ + text::json_string(text::rfc3339_seconds(since.spec_secs()))
        + ",\"count\":"@ + text::decimal(count as nat) + "}\n"@
}

/// The line that refuses a request, where the reason needs no escapes.
pub open spec fn plain_err_line(code: WireErrorCode, error: Seq<char>) -> Seq<char> {
    "{\"kind\":\"err\",\"code\":\""@ + code.spec_token() + "\",\"error\":"@ + text::quoted(error)
        + "}\n"@
}

/// Text with one line feed, at its end.
pub open spec fn one_line(line: Seq<char>) -> bool {
    line.len() > 0 && line.last() == '\n' && text::no_line_feed(line.drop_last())
}

/// The token of a class holds no line feed.
proof fn lemma_token_holds_no_line_feed(code: WireErrorCode)
    ensures
        text::no_line_feed(code.spec_token()),
{
    reveal_strlit("busy");
    reveal_strlit("malformed");
    reveal_strlit("shutting_down");
    reveal_strlit("unknown_sub");
    reveal_strlit("already_subscribed");
    reveal_strlit("dynamic_sub_no_op");
    reveal_strlit("not_disabled");
    reveal_strlit("toml_disabled");
    reveal_strlit("response_too_big");
}

/// Builds the line that refuses a request.
pub fn encode_err_line(code: WireErrorCode, error: &str) -> (line: String)
    ensures
        line@ == err_line(code, error@),
        one_line(line@),
        text::plain_json(error@) ==> line@ == plain_err_line(code, error@),
{
    let mut line: String = "{\"kind\":\"err\",\"code\":\"".to_owned();
    line.append(code.token());
    line.append("\",\"error\":");
    let message: String = text::to_json_string(error);
    line.append(message.as_str());
    line.append("}\n");
    proof {
        lemma_token_holds_no_line_feed(code);
        text::law_a_json_string_is_on_one_line(error@);
        if text::plain_json(error@) {
            text::law_plain_text_is_copied(error@);
        }
        reveal_strlit("{\"kind\":\"err\",\"code\":\"");
        reveal_strlit("\",\"error\":");
        reveal_strlit("}\n");
    }
    line
}

/// Builds the line that reports dropped diagnostics.
pub fn encode_missed_line(since: WallTime, count: u32) -> (line: String)
    ensures
        line@ == missed_line(since, count),
        one_line(line@),
{
    let stamp: String = text::stamp(since);
    let mut line: String = "{\"diag\":\"_missed\",\"at\":".to_owned();
    let at: String = text::to_json_string(stamp.as_str());
    line.append(at.as_str());
    line.append(",\"count\":");
    text::push_decimal(&mut line, count as u64);
    line.append("}\n");
    proof {
        assert(vstd::arithmetic::power::pow(10, 10) > u32::MAX) by {
            reveal(vstd::arithmetic::power::pow);
            reveal_with_fuel(vstd::arithmetic::power::pow, 11);
        }
        text::lemma_decimal_shape(count as nat, 10);
        text::law_a_json_string_is_on_one_line(stamp@);
        reveal_strlit("{\"diag\":\"_missed\",\"at\":");
        reveal_strlit(",\"count\":");
        reveal_strlit("}\n");
    }
    line
}

/// The line of the answer that all is well.
pub open spec fn ok_line() -> Seq<char> {
    "{\"kind\":\"ok\"}\n"@
}

/// Builds the line that grants a request.
pub fn encode_ok_line() -> (line: String)
    ensures
        line@ == ok_line(),
        one_line(line@),
{
    proof {
        reveal_strlit("{\"kind\":\"ok\"}\n");
    }
    "{\"kind\":\"ok\"}\n".to_owned()
}

/// The bytes of a text.
pub open spec fn bytes(text: Seq<char>) -> Seq<u8> {
    utf8::encode_utf8(text)
}

} // verus!
