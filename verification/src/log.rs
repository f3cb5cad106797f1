//! Coloured console messages: the escape sequences and the text of each
//! kind of message.

use vstd::prelude::*;
use vstd::string::StringExecFns;

verus! {

pub const RESET: &'static str = "\x1b[0m";

pub const GREEN: &'static str = "\x1b[32m";

pub const YELLOW: &'static str = "\x1b[33m";

pub const RED: &'static str = "\x1b[31m";

pub const CYAN: &'static str = "\x1b[36m";

pub const BOLD: &'static str = "\x1b[1m";

pub const DIM: &'static str = "\x1b[2m";

/// The text in the colour, where colours are shown.
pub open spec fn colored(text: Seq<char>, color: Seq<char>, enabled: bool) -> Seq<char> {
    if enabled {
        color + text + RESET@
    } else {
        text
    }
}

/// Wraps `text` in the escape sequence `color` and a reset, if `enabled`.
pub fn colorize(text: &str, color: &str, enabled: bool) -> (out: String)
    ensures
        out@ == colored(text@, color@, enabled),
{
    if enabled {
        String::from_str(color).concat(text).concat(RESET)
    } else {
        String::from_str(text)
    }
}

/// A message behind its coloured tag.
pub fn tagged(tag: &str, color: &str, message: &str, enabled: bool) -> (out: String)
    ensures
        out@ == colored(tag@, color@, enabled) + seq![' '] + message@,
{
    let out = colorize(tag, color, enabled).concat(" ").concat(message);
    proof {
        reveal_strlit(" ");
        assert(" "@ =~= seq![' ']);
    }
    out
}

} // verus!
