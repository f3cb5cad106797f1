//! The input engine: edits and cursor movement on the input buffer, all in
//! characters.

use vstd::prelude::*;
use crate::text::{whitespace, chars_of, string_of, slice_of, append_chars};
use crate::rows::{skip_ws, skip_ws_of};
use crate::selection::{word_start, word_end, at_most};
use crate::cursor::{cursor_row_col, offset_at, floor_width, row_col_of, offset_of_row_col};
use crate::wrap::{wrap_spec, wrap_chars};
use crate::state::ChatState;

verus! {

/// The modifier keys held with a key press.
#[derive(Clone, Copy, Debug, PartialEq, Eq, Structural)]
pub struct Modifiers {
    pub shift: bool,
    pub control: bool,
    pub alt: bool,
    pub super_key: bool,
    pub hyper: bool,
    pub meta: bool,
}

impl Modifiers {
    /// Whether the press asks for a word rather than a character to be
    /// deleted.
    pub open spec fn word_delete(&self) -> bool {
        self.alt || self.control || self.meta
    }
}

/// `text` with `text[from..to]` replaced by `ins`.
pub open spec fn spliced(text: Seq<char>, from: int, to: int, ins: Seq<char>) -> Seq<char> {
    text.subrange(0, from) + ins + text.subrange(to, text.len() as int)
}

/// The start of the run of whitespace that ends at `pos`.
pub open spec fn ws_start(text: Seq<char>, pos: int) -> int
    decreases pos,
{
    if pos <= 0 {
        0
    } else if pos > text.len() || !whitespace(text[pos - 1]) {
        pos
    } else {
        ws_start(text, pos - 1)
    }
}

/// Where a jump by one word to the left from `pos` lands: before the
/// whitespace that ends at `pos` and the word before that.
pub open spec fn prev_word(text: Seq<char>, pos: int) -> int {
    word_start(text, ws_start(text, pos))
}

/// Where a jump by one word to the right from `pos` lands: after the rest
/// of the word at `pos` and the whitespace that follows it.
pub open spec fn next_word(text: Seq<char>, pos: int) -> int {
    skip_ws(text, word_end(text, pos))
}

/// The text with every line ending turned into one newline: a carriage
/// return becomes a newline and swallows the newline that follows it.
pub open spec fn unix_newlines(text: Seq<char>, from: int) -> Seq<char>
    decreases text.len() - from,
{
    if from < 0 || from >= text.len() {
        Seq::empty()
    } else if text[from] == '\r' {
        if from + 1 < text.len() && text[from + 1] == '\n' {
            seq!['\n'] + unix_newlines(text, from + 2)
        } else {
            seq!['\n'] + unix_newlines(text, from + 1)
        }
    } else {
        seq![text[from]] + unix_newlines(text, from + 1)
    }
}

/// The cursor stands within the input.
pub open spec fn cursor_in_bounds(s: ChatState) -> bool {
    s.cursor_pos <= s.input@.len()
}

/// The state with another input and cursor.
pub open spec fn with_input(s: ChatState, input: String, cursor_pos: usize) -> ChatState {
    ChatState { input, cursor_pos, ..s }
}

/// The cursor of the state, clamped to its input.
pub open spec fn clamped_cursor(s: ChatState) -> int {
    at_most(s.cursor_pos as int, s.input@.len() as int)
}

/// `b` is `a` with `input[from..to]` replaced by `ins` and the cursor at
/// `cursor`; nothing else differs.
pub open spec fn edited(a: ChatState, b: ChatState, from: int, to: int, ins: Seq<char>, cursor: int) -> bool {
    &&& b.input@ == spliced(a.input@, from, to, ins)
    &&& b.cursor_pos as int == cursor
    &&& b == with_input(a, b.input, b.cursor_pos)
}

/// `b` is `a` with the cursor at `cursor`; nothing else differs.
pub open spec fn moved(a: ChatState, b: ChatState, cursor: int) -> bool {
    &&& b.cursor_pos as int == cursor
    &&& b == with_input(a, a.input, b.cursor_pos)
}

/// `b` is `a` with `ins` put in at the clamped cursor and the cursor behind
/// it.
pub open spec fn inserted(a: ChatState, b: ChatState, ins: Seq<char>) -> bool {
    edited(a, b, clamped_cursor(a), clamped_cursor(a), ins, clamped_cursor(a) + ins.len())
}

/// `b` is `a` without the word before the clamped cursor and the whitespace
/// between the two. A cursor at 0 leaves the state as it is.
pub open spec fn word_deleted(a: ChatState, b: ChatState) -> bool {
    if a.cursor_pos == 0 {
        b == a
    } else {
        edited(
            a,
            b,
            prev_word(a.input@, clamped_cursor(a)),
            clamped_cursor(a),
            Seq::empty(),
            prev_word(a.input@, clamped_cursor(a)),
        )
    }
}

/// `b` is `a` after Backspace: without the word before the cursor under a
/// word-delete modifier, else without the character before the clamped
/// cursor. With nothing before the cursor only the cursor moves, to 0.
pub open spec fn backspaced(a: ChatState, b: ChatState, modifiers: Modifiers) -> bool {
    if modifiers.word_delete() {
        word_deleted(a, b)
    } else if clamped_cursor(a) > 0 {
        edited(a, b, clamped_cursor(a) - 1, clamped_cursor(a), Seq::empty(), clamped_cursor(a) - 1)
    } else {
        moved(a, b, 0)
    }
}

/// `b` is `a` after Delete.
pub open spec fn deleted(a: ChatState, b: ChatState, modifiers: Modifiers) -> bool {
    if modifiers.word_delete() {
        word_deleted(a, b)
    } else if a.cursor_pos < a.input@.len() {
        edited(a, b, a.cursor_pos as int, a.cursor_pos + 1, Seq::empty(), a.cursor_pos as int)
    } else {
        b == a
    }
}

/// Where Left takes the cursor: one character back, or with Alt one word.
pub open spec fn left_target(a: ChatState, modifiers: Modifiers) -> int {
    if modifiers.alt {
        prev_word(a.input@, clamped_cursor(a))
    } else if a.cursor_pos > 0 {
        a.cursor_pos - 1
    } else {
        0
    }
}

/// Where Right takes the cursor: one character on, or with Alt one word,
/// and never past the end.
pub open spec fn right_target(a: ChatState, modifiers: Modifiers) -> int {
    if modifiers.alt {
        next_word(a.input@, clamped_cursor(a))
    } else {
        at_most(a.cursor_pos + 1, a.input@.len() as int)
    }
}

/// Where Up takes the cursor in an input pane `width` wide: to its column
/// in the visual row above, or nowhere from the first row.
pub open spec fn up_target(a: ChatState, width: int) -> int {
    let rc = cursor_row_col(a.input@, a.cursor_pos as int, width);
    if rc.0 > 0 {
        offset_at(a.input@, rc.0 - 1, rc.1, width)
    } else {
        a.cursor_pos as int
    }
}

/// Where Down takes the cursor in an input pane `width` wide: to its column
/// in the visual row below, or to the end of the input from the last row.
pub open spec fn down_target(a: ChatState, width: int) -> int {
    let rc = cursor_row_col(a.input@, a.cursor_pos as int, width);
    if rc.0 + 1 < wrap_spec(a.input@, floor_width(width)).len() {
        offset_at(a.input@, rc.0 + 1, rc.1, width)
    } else {
        a.input@.len() as int
    }
}

/// `chars` with `chars[from..to]` replaced by `ins`.
pub fn splice(chars: &Vec<char>, from: usize, to: usize, ins: &Vec<char>) -> (out: Vec<char>)
    requires
        from <= to <= chars.len(),
    ensures
        out@ == spliced(chars@, from as int, to as int, ins@),
{
    let mut out = slice_of(chars, 0, from);
    append_chars(&mut out, ins);
    let tail = slice_of(chars, to, chars.len());
    append_chars(&mut out, &tail);
    out
}

/// Where a jump by one word to the left from `pos` lands.
pub fn prev_word_of(chars: &Vec<char>, pos: usize) -> (start: usize)
    requires
        pos <= chars.len(),
    ensures
        start as int == prev_word(chars@, pos as int),
        start <= pos,
{
    let mut start: usize = pos;
    while start > 0 && chars[start - 1].is_whitespace()
        invariant
            start <= pos <= chars.len(),
            ws_start(chars@, start as int) == ws_start(chars@, pos as int),
        decreases start,
    {
        start -= 1;
    }
    let ghost mid = start;
    while start > 0 && !chars[start - 1].is_whitespace()
        invariant
            start <= mid <= pos,
            pos <= chars.len(),
            mid as int == ws_start(chars@, pos as int),
            word_start(chars@, start as int) == word_start(chars@, mid as int),
        decreases start,
    {
        start -= 1;
    }
    start
}

/// Where a jump by one word to the right from `pos` lands.
pub fn next_word_of(chars: &Vec<char>, pos: usize) -> (end: usize)
    requires
        pos <= chars.len(),
    ensures
        end as int == next_word(chars@, pos as int),
        pos <= end <= chars.len(),
{
    let mut end: usize = pos;
    while end < chars.len() && !chars[end].is_whitespace()
        invariant
            pos <= end <= chars.len(),
            word_end(chars@, end as int) == word_end(chars@, pos as int),
        decreases chars.len() - end,
    {
        end += 1;
    }
    skip_ws_of(chars, end)
}

/// Deletes the word before the cursor, with the whitespace between the two.
/// A cursor at 0 changes nothing; one past the end counts as the end.
pub fn delete_prev_word(input: &mut String, cursor_pos: &mut usize)
    ensures
        *old(cursor_pos) == 0 ==> *final(input) == *old(input) && *final(cursor_pos) == 0,
        *old(cursor_pos) > 0 ==> {
            let p = at_most(*old(cursor_pos) as int, old(input)@.len() as int);
            &&& *final(cursor_pos) as int == prev_word(old(input)@, p)
            &&& final(input)@ == spliced(old(input)@, prev_word(old(input)@, p), p, Seq::empty())
        },
        *final(cursor_pos) <= final(input)@.len(),
{
    if *cursor_pos == 0 {
        return ;
    }
    let chars = chars_of(input.as_str());
    let pos: usize = if *cursor_pos > chars.len() {
        chars.len()
    } else {
        *cursor_pos
    };
    let start = prev_word_of(&chars, pos);
    let nothing: Vec<char> = Vec::new();
    let rest = splice(&chars, start, pos, &nothing);
    *input = string_of(&rest);
    *cursor_pos = start;
}

/// Puts `ins` into the input at the cursor and the cursor behind it.
pub fn insert_chars(state: &mut ChatState, ins: &Vec<char>)
    ensures
        inserted(*old(state), *final(state), ins@),
        cursor_in_bounds(*final(state)),
{
    let chars = chars_of(state.input.as_str());
    let pos: usize = if state.cursor_pos > chars.len() {
        chars.len()
    } else {
        state.cursor_pos
    };
    let next = splice(&chars, pos, pos, ins);
    let total = next.len();
    assert(total == chars.len() + ins.len());
    state.input = string_of(&next);
    state.cursor_pos = pos + ins.len();
}

/// Inserts `ch` at the cursor and moves the cursor behind it.
pub fn insert_char(state: &mut ChatState, ch: char)
    ensures
        inserted(*old(state), *final(state), seq![ch]),
        cursor_in_bounds(*final(state)),
{
    let mut ins: Vec<char> = Vec::new();
    ins.push(ch);
    assert(ins@ =~= seq![ch]);
    insert_chars(state, &ins);
}

/// Inserts a newline at the cursor and moves the cursor behind it.
pub fn insert_newline(state: &mut ChatState)
    ensures
        inserted(*old(state), *final(state), seq!['\n']),
        cursor_in_bounds(*final(state)),
{
    insert_char(state, '\n');
}

/// The text with its line endings turned into newlines.
pub fn unix_newlines_of(text: &Vec<char>) -> (out: Vec<char>)
    ensures
        out@ == unix_newlines(text@, 0),
{
    let mut out: Vec<char> = Vec::new();
    let n = text.len();
    let mut i: usize = 0;
    assert(out@ + unix_newlines(text@, 0) =~= unix_newlines(text@, 0));
    while i < n
        invariant
            n == text.len(),
            i <= n,
            out@ + unix_newlines(text@, i as int) == unix_newlines(text@, 0),
        decreases n - i,
    {
        let ghost before = out@;
        let ghost rest = unix_newlines(text@, i as int);
        if text[i] == '\r' {
            out.push('\n');
            if n - i > 1 && text[i + 1] == '\n' {
                i += 2;
            } else {
                i += 1;
            }
        } else {
            out.push(text[i]);
            i += 1;
        }
        assert(out@ + unix_newlines(text@, i as int) =~= before + rest);
    }
    assert(out@ + unix_newlines(text@, i as int) =~= out@);
    out
}

/// Inserts pasted text at the cursor, its line endings turned into
/// newlines, and moves the cursor behind it.
pub fn paste(state: &mut ChatState, text: &str)
    ensures
        inserted(*old(state), *final(state), unix_newlines(text@, 0)),
        cursor_in_bounds(*final(state)),
{
    let chars = chars_of(text);
    let ins = unix_newlines_of(&chars);
    insert_chars(state, &ins);
}

/// Moves the cursor one character to the left, or with Alt one word.
pub fn move_left(state: &mut ChatState, modifiers: Modifiers)
    ensures
        moved(*old(state), *final(state), left_target(*old(state), modifiers)),
        cursor_in_bounds(*old(state)) ==> cursor_in_bounds(*final(state)),
{
    if modifiers.alt {
        let chars = chars_of(state.input.as_str());
        let pos: usize = if state.cursor_pos > chars.len() {
            chars.len()
        } else {
            state.cursor_pos
        };
        state.cursor_pos = prev_word_of(&chars, pos);
    } else if state.cursor_pos > 0 {
        state.cursor_pos = state.cursor_pos - 1;
    }
}

/// Moves the cursor one character to the right, or with Alt one word; never
/// past the end of the input.
pub fn move_right(state: &mut ChatState, modifiers: Modifiers)
    ensures
        moved(*old(state), *final(state), right_target(*old(state), modifiers)),
        cursor_in_bounds(*final(state)),
{
    let chars = chars_of(state.input.as_str());
    if modifiers.alt {
        let pos: usize = if state.cursor_pos > chars.len() {
            chars.len()
        } else {
            state.cursor_pos
        };
        state.cursor_pos = next_word_of(&chars, pos);
    } else if state.cursor_pos >= chars.len() {
        state.cursor_pos = chars.len();
    } else {
        state.cursor_pos = state.cursor_pos + 1;
    }
}

/// Moves the cursor up one visual row of the input wrapped at
/// `input_width`, keeping its column where the row above is long enough. On
/// the first row nothing changes.
pub fn move_up(state: &mut ChatState, input_width: usize)
    ensures
        moved(*old(state), *final(state), up_target(*old(state), input_width as int)),
        cursor_in_bounds(*old(state)) ==> cursor_in_bounds(*final(state)),
{
    let chars = chars_of(state.input.as_str());
    let (row, col) = row_col_of(&chars, state.cursor_pos, input_width);
    if row > 0 {
        state.cursor_pos = offset_of_row_col(&chars, row - 1, col, input_width);
    }
}

/// Moves the cursor down one visual row of the input wrapped at
/// `input_width`, keeping its column where the row below is long enough. On
/// the last row it goes to the end of the input.
pub fn move_down(state: &mut ChatState, input_width: usize)
    ensures
        moved(*old(state), *final(state), down_target(*old(state), input_width as int)),
        cursor_in_bounds(*final(state)),
{
    let chars = chars_of(state.input.as_str());
    let w: usize = if input_width < 1 {
        1
    } else {
        input_width
    };
    let wrapped = wrap_chars(&chars, w);
    assert(wrapped@.len() == wrap_spec(chars@, w as int).len());
    let (row, col) = row_col_of(&chars, state.cursor_pos, input_width);
    if wrapped.len() > 0 && row < wrapped.len() - 1 {
        state.cursor_pos = offset_of_row_col(&chars, row + 1, col, input_width);
    } else {
        state.cursor_pos = chars.len();
    }
}

/// Deletes the character before the cursor, or with a word-delete modifier
/// the word before it. A cursor past the end counts as the end.
pub fn backspace(state: &mut ChatState, modifiers: Modifiers)
    ensures
        backspaced(*old(state), *final(state), modifiers),
        cursor_in_bounds(*final(state)),
{
    if modifiers.alt || modifiers.control || modifiers.meta {
        delete_prev_word(&mut state.input, &mut state.cursor_pos);
    } else {
        let chars = chars_of(state.input.as_str());
        let pos: usize = if state.cursor_pos > chars.len() {
            chars.len()
        } else {
            state.cursor_pos
        };
        if pos > 0 {
            let nothing: Vec<char> = Vec::new();
            let rest = splice(&chars, pos - 1, pos, &nothing);
            state.input = string_of(&rest);
            state.cursor_pos = pos - 1;
        } else {
            state.cursor_pos = 0;
        }
    }
}

/// Deletes the character at the cursor, or with a word-delete modifier the
/// word before the cursor. At the end of the input a plain delete changes
/// nothing.
pub fn delete(state: &mut ChatState, modifiers: Modifiers)
    ensures
        deleted(*old(state), *final(state), modifiers),
        cursor_in_bounds(*old(state)) ==> cursor_in_bounds(*final(state)),
{
    if modifiers.alt || modifiers.control || modifiers.meta {
        delete_prev_word(&mut state.input, &mut state.cursor_pos);
    } else {
        let chars = chars_of(state.input.as_str());
        let pos = state.cursor_pos;
        if pos < chars.len() {
            let nothing: Vec<char> = Vec::new();
            let rest = splice(&chars, pos, pos + 1, &nothing);
            state.input = string_of(&rest);
        }
    }
}

} // verus!
