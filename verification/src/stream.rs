//! Reading a streamed answer: the lines of a server-sent event stream, and
//! the text that each adds to the answer.

use vstd::prelude::*;
use vstd::string::StringExecFns;
use vstd::utf8::encode_utf8;
use crate::text::{chars_of, string_of_range};
use crate::rows::{skip_ws, trim_end, skip_ws_of};
use crate::shell::{occurs_at, occurs_at_of};
use crate::jwt::{json_text_at, json_text_in, json_text, json_text_nested};

verus! {

/// What one line of the stream means.
pub enum SseLine {
    /// Nothing to add.
    Skip,
    /// The stream is over.
    Done,
    /// Text to add to the answer.
    Delta(String),
}

/// The data of a line: what follows `data: `, where the line begins so.
pub open spec fn data_of(line: Seq<char>) -> Option<Seq<char>> {
    if occurs_at(line, "data: "@, 0) {
        Some(line.subrange("data: "@.len() as int, line.len() as int))
    } else {
        None
    }
}

/// The text that an event adds. An event of type
/// `response.output_text.delta` adds the string under `delta`. Any other
/// adds the string under `text` in `delta`, or failing that the string
/// under `delta`.
pub open spec fn event_delta(data: Seq<char>) -> Option<Seq<char>> {
    let doc = encode_utf8(data);
    if json_text_at(doc, "type"@) == Some("response.output_text.delta"@) {
        json_text_at(doc, "delta"@)
    } else if json_text_in(doc, "delta"@, "text"@) is Some {
        json_text_in(doc, "delta"@, "text"@)
    } else {
        json_text_at(doc, "delta"@)
    }
}

/// The text without the whitespace at its ends.
pub open spec fn trimmed(text: Seq<char>) -> Seq<char> {
    text.subrange(skip_ws(text, 0), trim_end(text, skip_ws(text, 0), text.len() as int))
}

/// Reads one line of the stream. A line that does not begin with `data: `
/// is skipped; the data `[DONE]` ends the stream; any other data is an
/// event, which adds its text or is skipped if it has none.
pub fn read_line(line: &str) -> (out: SseLine)
    ensures
        match out {
            SseLine::Skip => data_of(line@) is None || (data_of(line@) != Some("[DONE]"@)
                && event_delta(data_of(line@).unwrap()) is None),
            SseLine::Done => data_of(line@) == Some("[DONE]"@),
            SseLine::Delta(t) => data_of(line@) is Some && data_of(line@) != Some("[DONE]"@)
                && event_delta(data_of(line@).unwrap()) == Some(t@),
        },
{
    let chars = chars_of(line);
    let prefix = chars_of("data: ");
    if !occurs_at_of(&chars, &prefix, 0) {
        return SseLine::Skip;
    }
    let data = string_of_range(&chars, prefix.len(), chars.len());
    if data == String::from_str("[DONE]") {
        return SseLine::Done;
    }
    let doc = data.as_str().as_bytes();
    let kind = json_text(doc, "type");
    let is_delta = match kind {
        Some(k) => k == String::from_str("response.output_text.delta"),
        None => false,
    };
    let text = if is_delta {
        json_text(doc, "delta")
    } else {
        match json_text_nested(doc, "delta", "text") {
            Some(t) => Some(t),
            None => json_text(doc, "delta"),
        }
    };
    match text {
        Some(t) => SseLine::Delta(t),
        None => SseLine::Skip,
    }
}

/// The text without the whitespace at its ends.
pub fn trim(text: &str) -> (out: String)
    ensures
        out@ == trimmed(text@),
{
    let chars = chars_of(text);
    let s = skip_ws_of(&chars, 0);
    let mut e: usize = chars.len();
    while e > s && chars[e - 1].is_whitespace()
        invariant
            s <= e <= chars.len(),
            trim_end(chars@, s as int, e as int) == trim_end(chars@, s as int, chars.len() as int),
        decreases e,
    {
        e -= 1;
    }
    string_of_range(&chars, s, e)
}

} // verus!
