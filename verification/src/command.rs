//! One-shot command generation: the instructions sent with a request, and
//! the reading of the reply as a command with alternatives.

use vstd::prelude::*;
use vstd::string::StringExecFns;
use crate::text::{
    rows_view, strs_view, lines_of, blank, is_blank, chars_of, string_of, slice_of, split_lines,
    lemma_strs_push,
};
use crate::shell::{ShellType, shell_name};

verus! {

/// The line without the carriage return that ends it, if one does.
pub open spec fn strip_cr(line: Seq<char>) -> Seq<char> {
    if line.len() > 0 && line.last() == '\r' {
        line.drop_last()
    } else {
        line
    }
}

/// The lines of a reply. Lines end at a newline, or at a carriage return
/// with a newline behind it; the last line needs no ending, and an empty
/// last line does not count.
pub open spec fn reply_lines(text: Seq<char>) -> Seq<Seq<char>> {
    let lines = lines_of(text);
    let ended = lines.drop_last().map_values(|l: Seq<char>| strip_cr(l));
    if lines.len() > 0 && lines.last().len() > 0 {
        ended.push(lines.last())
    } else {
        ended
    }
}

/// The lines that are not blank, in order.
pub open spec fn non_blank(lines: Seq<Seq<char>>) -> Seq<Seq<char>>
    decreases lines.len(),
{
    if lines.len() == 0 {
        Seq::empty()
    } else if blank(lines.last()) {
        non_blank(lines.drop_last())
    } else {
        non_blank(lines.drop_last()).push(lines.last())
    }
}

/// A reply read as commands.
pub struct CommandReply {
    /// The first line: the command.
    pub command: String,
    /// The other lines that are not blank.
    pub alternatives: Vec<String>,
}

/// The command of a reply: its first line, or nothing.
pub open spec fn reply_command(text: Seq<char>) -> Seq<char> {
    if reply_lines(text).len() > 0 {
        reply_lines(text)[0]
    } else {
        Seq::empty()
    }
}

/// The alternatives of a reply: the lines after the first that are not
/// blank.
pub open spec fn reply_alternatives(text: Seq<char>) -> Seq<Seq<char>> {
    if reply_lines(text).len() > 1 {
        non_blank(reply_lines(text).subrange(1, reply_lines(text).len() as int))
    } else {
        Seq::empty()
    }
}

/// The lines of a reply.
pub fn reply_lines_of(text: &Vec<char>) -> (out: Vec<Vec<char>>)
    ensures
        rows_view(out@) == reply_lines(text@),
{
    let lines = split_lines(text);
    let ghost lv = rows_view(lines@);
    let ghost ended = lv.drop_last().map_values(|l: Seq<char>| strip_cr(l));
    let mut out: Vec<Vec<char>> = Vec::new();
    let last = lines.len() - 1;
    let mut k: usize = 0;
    assert(rows_view(out@) =~= ended.take(0));
    while k < last
        invariant
            k <= last,
            last + 1 == lines.len(),
            lv == rows_view(lines@),
            ended == lv.drop_last().map_values(|l: Seq<char>| strip_cr(l)),
            out.len() == k,
            rows_view(out@) == ended.take(k as int),
        decreases last - k,
    {
        let line = &lines[k];
        let n = line.len();
        let keep: usize = if n > 0 && line[n - 1] == '\r' {
            n - 1
        } else {
            n
        };
        let piece = slice_of(line, 0, keep);
        proof {
            assert(lv[k as int] == line@);
            assert(piece@ =~= strip_cr(line@));
            assert(ended[k as int] == strip_cr(lv.drop_last()[k as int]));
            assert(rows_view(out@.push(piece)) =~= ended.take(k as int + 1));
        }
        out.push(piece);
        k += 1;
    }
    assert(ended.take(k as int) =~= ended);
    assert(lv.last() == lines@[last as int]@);
    if lines[last].len() > 0 {
        let piece = slice_of(&lines[last], 0, lines[last].len());
        proof {
            assert(piece@ =~= lv.last());
            assert(rows_view(out@.push(piece)) =~= ended.push(lv.last()));
        }
        out.push(piece);
    }
    out
}

/// Reads a reply as a command and its alternatives. An empty reply is none.
pub fn parse_reply(result: &str) -> (reply: Option<CommandReply>)
    ensures
        reply is None <==> result@.len() == 0,
        reply matches Some(r) ==> r.command@ == reply_command(result@) && strs_view(
            r.alternatives@,
        ) == reply_alternatives(result@),
{
    let chars = chars_of(result);
    if chars.len() == 0 {
        return None;
    }
    let lines = reply_lines_of(&chars);
    let ghost lv = rows_view(lines@);
    assert(lv.len() == lines@.len());
    let command = if lines.len() > 0 {
        assert(lv[0] == lines@[0]@);
        string_of(&lines[0])
    } else {
        String::new()
    };
    let mut alternatives: Vec<String> = Vec::new();
    if lines.len() > 1 {
        let ghost rest = lv.subrange(1, lv.len() as int);
        let mut k: usize = 1;
        assert(strs_view(alternatives@) =~= non_blank(rest.take(0)));
        while k < lines.len()
            invariant
                1 <= k <= lines.len(),
                lv == rows_view(lines@),
                rest == lv.subrange(1, lv.len() as int),
                strs_view(alternatives@) == non_blank(rest.take(k - 1)),
            decreases lines.len() - k,
        {
            proof {
                assert(rest.take(k as int).drop_last() =~= rest.take(k - 1));
                assert(rest.take(k as int).last() == lines@[k as int]@);
            }
            if !is_blank(&lines[k]) {
                let line = string_of(&lines[k]);
                proof {
                    lemma_strs_push(alternatives@, line);
                }
                alternatives.push(line);
            }
            k += 1;
        }
        assert(rest.take(k - 1) =~= rest);
    } else {
        assert(strs_view(alternatives@) =~= Seq::<Seq<char>>::empty());
    }
    Some(CommandReply { command, alternatives })
}

/// The instructions that ask for one shell command for the system `os` and
/// the shell `shell`.
pub open spec fn command_instructions(os: Seq<char>, shell: ShellType) -> Seq<char> {
    "You are an expert shell command generator for "@ + os + " using "@ + shell_name(shell)
        + ".\nRespond with ONLY the exact shell command. No explanation. No markdown. No backticks.\nIf there are alternatives, put them on separate lines."@
}

/// The instructions that ask for one shell command.
pub fn command_prompt(os: &str, shell: ShellType) -> (out: String)
    ensures
        out@ == command_instructions(os@, shell),
{
    let out = String::from_str("You are an expert shell command generator for ").concat(os).concat(
        " using ",
    ).concat(shell.name()).concat(
        ".\nRespond with ONLY the exact shell command. No explanation. No markdown. No backticks.\nIf there are alternatives, put them on separate lines.",
    );
    out
}

/// The instructions of the interactive chat.
pub fn chat_prompt() -> (out: &'static str)
    ensures
        out@
            == "You are Jose, a helpful technical assistant in an interactive terminal chat.\nAnswer naturally and directly.\nDo not force shell commands unless the user explicitly asks for one.\nUse short, practical explanations by default."@,
{
    "You are Jose, a helpful technical assistant in an interactive terminal chat.\nAnswer naturally and directly.\nDo not force shell commands unless the user explicitly asks for one.\nUse short, practical explanations by default."
}

/// The views of (role, content) pairs.
pub open spec fn pairs_view(v: Seq<(String, String)>) -> Seq<(Seq<char>, Seq<char>)> {
    v.map_values(|t: (String, String)| (t.0@, t.1@))
}

/// The conversation that a request carries: the history, then the prompt
/// as a turn of the user.
pub fn conversation(prompt: &str, history: &Vec<(String, String)>) -> (out: Vec<(String, String)>)
    ensures
        pairs_view(out@) == pairs_view(history@).push(("user"@, prompt@)),
{
    let mut out: Vec<(String, String)> = Vec::new();
    let mut k: usize = 0;
    assert(pairs_view(out@) =~= pairs_view(history@).take(0));
    while k < history.len()
        invariant
            k <= history.len(),
            out.len() == k,
            pairs_view(out@) == pairs_view(history@).take(k as int),
        decreases history.len() - k,
    {
        let turn = (history[k].0.clone(), history[k].1.clone());
        assert(pairs_view(out@.push(turn)) =~= pairs_view(history@).take(k as int + 1));
        out.push(turn);
        k += 1;
    }
    assert(pairs_view(history@).take(k as int) =~= pairs_view(history@));
    let last = (String::from_str("user"), String::from_str(prompt));
    assert(pairs_view(out@.push(last)) =~= pairs_view(history@).push(("user"@, prompt@)));
    out.push(last);
    out
}

} // verus!
