//! Mouse selection over the plain-text mirror of the chat: from a screen
//! cell to an offset into the flat text, word bounds, and the gestures that
//! set the selection.

use vstd::prelude::*;
use vstd::string::StrSliceExecFns;
use crate::text::{strs_view, joined, total_len, whitespace, chars_of, append_chars, string_of_range};
use crate::area::Area;
use crate::state::{ChatState, CopyButton, buttons_view};

verus! {

/// The kinds of mouse event that the chat pane reacts to.
#[derive(Clone, Copy, Debug, PartialEq, Eq, Structural)]
pub enum MouseKind {
    ScrollUp,
    ScrollDown,
    LeftDown,
    LeftDrag,
    LeftUp,
    Other,
}

/// The width of a copy button's glyph, in columns.
pub const BUTTON_WIDTH: usize = 2;

/// The longest time between the two clicks of a double click, in
/// milliseconds.
pub const DOUBLE_CLICK_MS: u64 = 400;

/// The number of lines that one turn of the mouse wheel scrolls.
pub const WHEEL_STEP: usize = 3;

/// The plain lines are short enough for every offset into their flat text
/// to be a `usize`.
pub open spec fn plain_fits(lines: Seq<Seq<char>>) -> bool {
    total_len(lines) <= usize::MAX
}

/// Whether the cell lies inside the border of the area.
pub open spec fn inside(row: int, col: int, area: Area) -> bool {
    &&& area.y + 1 <= row
    &&& row < area.y + 1 + (area.height - 2)
    &&& area.x + 1 <= col
    &&& col < area.x + 1 + (area.width - 2)
}

/// The offset into the flat text of column `vcol` of the visual line
/// `vrow`: the lines before it, each with its newline, and the column,
/// which is clamped to the line. A line past the last gives the end of the
/// flat text.
pub open spec fn offset_in(lines: Seq<Seq<char>>, vrow: int, vcol: int) -> int {
    if 0 <= vrow < lines.len() {
        total_len(lines.take(vrow)) + if vcol < lines[vrow].len() {
            vcol
        } else {
            lines[vrow].len() as int
        }
    } else if total_len(lines) > 0 {
        total_len(lines) - 1
    } else {
        0
    }
}

/// The offset that a screen cell selects, if the cell lies inside the chat
/// pane scrolled by `scroll` lines.
pub open spec fn screen_offset(row: int, col: int, area: Area, scroll: int, lines: Seq<Seq<char>>) -> Option<
    int,
> {
    if inside(row, col, area) {
        Some(offset_in(lines, row - (area.y + 1) + scroll, col - (area.x + 1)))
    } else {
        None
    }
}

/// The start of the run of non-whitespace that ends at `pos`.
pub open spec fn word_start(flat: Seq<char>, pos: int) -> int
    decreases pos,
{
    if pos <= 0 {
        0
    } else if pos > flat.len() || whitespace(flat[pos - 1]) {
        pos
    } else {
        word_start(flat, pos - 1)
    }
}

/// The end of the run of non-whitespace that starts at `pos`.
pub open spec fn word_end(flat: Seq<char>, pos: int) -> int
    decreases flat.len() - pos,
{
    if pos >= flat.len() {
        flat.len() as int
    } else if pos < 0 || whitespace(flat[pos]) {
        pos
    } else {
        word_end(flat, pos + 1)
    }
}

/// `x` clamped to `len`.
pub open spec fn at_most(x: int, len: int) -> int {
    if x > len {
        len
    } else {
        x
    }
}

/// The part of the flat text between the two ends of a selection, whichever
/// comes first, both clamped to the text.
pub open spec fn selected_text(lines: Seq<Seq<char>>, sel: (int, int)) -> Seq<char> {
    let flat = joined(lines);
    let lo = at_most(if sel.0 <= sel.1 { sel.0 } else { sel.1 }, flat.len() as int);
    let hi = at_most(if sel.0 <= sel.1 { sel.1 } else { sel.0 }, flat.len() as int);
    flat.subrange(lo, hi)
}

/// The selection lies within the flat text of the plain lines, counted with
/// one newline after every line.
pub open spec fn selection_in_bounds(sel: Option<(usize, usize)>, lines: Seq<Seq<char>>) -> bool {
    sel matches Some(p) ==> p.0 <= total_len(lines) && p.1 <= total_len(lines)
}

/// The selection and the anchor of a drag lie within the flat text of the
/// state's plain lines.
pub open spec fn gesture_in_bounds(s: ChatState) -> bool {
    &&& selection_in_bounds(s.selection, strs_view(s.plain_lines@))
    &&& s.drag_anchor matches Some(a) ==> a <= total_len(strs_view(s.plain_lines@))
}

/// The first `k` lines take up no more than all of them, and leave room
/// for line `k` with its newline.
pub proof fn lemma_total_len_take(lines: Seq<Seq<char>>, k: int)
    requires
        0 <= k <= lines.len(),
    ensures
        total_len(lines.take(k)) <= total_len(lines),
        k < lines.len() ==> total_len(lines.take(k)) + lines[k].len() + 1 <= total_len(lines),
    decreases lines.len(),
{
    if k == lines.len() {
        assert(lines.take(k) =~= lines);
    } else {
        let front = lines.drop_last();
        if k == lines.len() - 1 {
            assert(lines.take(k) =~= front);
        } else {
            lemma_total_len_take(front, k);
            assert(front.take(k) =~= lines.take(k));
        }
    }
}

/// The flat text is one character shorter than the sum of the lines'
/// lengths each counted with a newline: the last line has none.
pub proof fn lemma_joined_len(lines: Seq<Seq<char>>)
    ensures
        lines.len() > 0 ==> joined(lines).len() + 1 == total_len(lines),
        lines.len() == 0 ==> joined(lines).len() == 0 && total_len(lines) == 0,
    decreases lines.len(),
{
    if lines.len() == 1 {
        assert(total_len(lines.drop_last()) == 0);
    } else if lines.len() > 1 {
        lemma_joined_len(lines.drop_last());
    }
}

/// The offset of a cell lies within the flat text.
pub proof fn lemma_offset_in_bounds(lines: Seq<Seq<char>>, vrow: int, vcol: int)
    requires
        0 <= vcol,
    ensures
        0 <= offset_in(lines, vrow, vcol) <= joined(lines).len(),
        offset_in(lines, vrow, vcol) <= total_len(lines),
{
    lemma_joined_len(lines);
    if 0 <= vrow < lines.len() {
        lemma_total_len_take(lines, vrow);
    }
}

/// The bounds of a word enclose the offset and lie within the text.
pub proof fn lemma_word_bounds(flat: Seq<char>, pos: int)
    requires
        0 <= pos <= flat.len(),
    ensures
        0 <= word_start(flat, pos) <= pos <= word_end(flat, pos) <= flat.len(),
{
    lemma_word_start_bounds(flat, pos);
    lemma_word_end_bounds(flat, pos);
}

/// The start of a word lies between 0 and the offset.
pub proof fn lemma_word_start_bounds(flat: Seq<char>, pos: int)
    requires
        0 <= pos <= flat.len(),
    ensures
        0 <= word_start(flat, pos) <= pos,
    decreases pos,
{
    if pos > 0 && !whitespace(flat[pos - 1]) {
        lemma_word_start_bounds(flat, pos - 1);
    }
}

/// The end of a word lies between the offset and the end of the text.
pub proof fn lemma_word_end_bounds(flat: Seq<char>, pos: int)
    requires
        0 <= pos <= flat.len(),
    ensures
        pos <= word_end(flat, pos) <= flat.len(),
    decreases flat.len() - pos,
{
    if pos < flat.len() && !whitespace(flat[pos]) {
        lemma_word_end_bounds(flat, pos + 1);
    }
}

/// Whether the total length of the lines, each counted with a newline,
/// fits a `usize`.
pub fn plain_len_fits(plain_lines: &Vec<String>) -> (b: bool)
    ensures
        b == plain_fits(strs_view(plain_lines@)),
{
    let ghost lv = strs_view(plain_lines@);
    let mut total: usize = 0;
    let mut k: usize = 0;
    assert(lv.take(0) =~= Seq::<Seq<char>>::empty());
    while k < plain_lines.len()
        invariant
            k <= plain_lines.len(),
            lv == strs_view(plain_lines@),
            total as int == total_len(lv.take(k as int)),
        decreases plain_lines.len() - k,
    {
        let n = plain_lines[k].as_str().unicode_len();
        proof {
            assert(lv.take(k as int + 1).drop_last() =~= lv.take(k as int));
            assert(lv.take(k as int + 1).last() == plain_lines@[k as int]@);
            lemma_total_len_take(lv, k as int + 1);
        }
        if n == usize::MAX || total > usize::MAX - n - 1 {
            return false;
        }
        total = total + n + 1;
        k += 1;
    }
    assert(lv.take(k as int) =~= lv);
    true
}

/// Maps the screen cell (`row`, `col`) to an offset into the flat text of
/// `plain_lines`. A cell outside the inner rectangle of `chat_area` gives
/// `None`. Otherwise `scroll` is added to the row, the column is clamped to
/// its line, and the lines before it count with one newline each.
pub fn screen_to_chat_offset(
    row: u16,
    col: u16,
    chat_area: Area,
    scroll: u16,
    plain_lines: &Vec<String>,
) -> (r: Option<usize>)
    requires
        plain_fits(strs_view(plain_lines@)),
    ensures
        match r {
            Some(off) => screen_offset(
                row as int,
                col as int,
                chat_area,
                scroll as int,
                strs_view(plain_lines@),
            ) == Some(off as int),
            None => screen_offset(
                row as int,
                col as int,
                chat_area,
                scroll as int,
                strs_view(plain_lines@),
            ) is None,
        },
{
    let ghost lv = strs_view(plain_lines@);
    let inner_y: u32 = chat_area.y as u32 + 1;
    let inner_x: u32 = chat_area.x as u32 + 1;
    let inner_h: u32 = if chat_area.height < 2 {
        0
    } else {
        (chat_area.height - 2) as u32
    };
    let inner_w: u32 = if chat_area.width < 2 {
        0
    } else {
        (chat_area.width - 2) as u32
    };
    if (row as u32) < inner_y || row as u32 >= inner_y + inner_h || (col as u32) < inner_x
        || col as u32 >= inner_x + inner_w {
        return None;
    }
    let visual_row: usize = ((row as u32 - inner_y) + scroll as u32) as usize;
    let visual_col: usize = (col as u32 - inner_x) as usize;
    let mut offset: usize = 0;
    let mut k: usize = 0;
    assert(lv.take(0) =~= Seq::<Seq<char>>::empty());
    while k < plain_lines.len()
        invariant
            k <= plain_lines.len(),
            k <= visual_row,
            inside(row as int, col as int, chat_area),
            visual_row as int == row - (chat_area.y + 1) + scroll,
            visual_col as int == col - (chat_area.x + 1),
            lv == strs_view(plain_lines@),
            plain_fits(lv),
            offset as int == total_len(lv.take(k as int)),
        decreases plain_lines.len() - k,
    {
        let n = plain_lines[k].as_str().unicode_len();
        proof {
            assert(lv.take(k as int + 1).drop_last() =~= lv.take(k as int));
            assert(lv.take(k as int + 1).last() == plain_lines@[k as int]@);
            assert(lv[k as int] == plain_lines@[k as int]@);
            lemma_total_len_take(lv, k as int);
        }
        if k == visual_row {
            let clamped: usize = if visual_col < n {
                visual_col
            } else {
                n
            };
            return Some(offset + clamped);
        }
        offset = offset + n + 1;
        k += 1;
    }
    assert(lv.take(k as int) =~= lv);
    if offset > 0 {
        Some(offset - 1)
    } else {
        Some(0)
    }
}

/// The plain lines joined by newlines, as characters.
pub fn flat_chars(plain_lines: &Vec<String>) -> (out: Vec<char>)
    ensures
        out@ == joined(strs_view(plain_lines@)),
{
    let ghost lv = strs_view(plain_lines@);
    let mut out: Vec<char> = Vec::new();
    let mut k: usize = 0;
    assert(out@ =~= joined(lv.take(0)));
    while k < plain_lines.len()
        invariant
            k <= plain_lines.len(),
            lv == strs_view(plain_lines@),
            out@ == joined(lv.take(k as int)),
        decreases plain_lines.len() - k,
    {
        proof {
            assert(lv.take(k as int + 1).drop_last() =~= lv.take(k as int));
            assert(lv.take(k as int + 1).last() == plain_lines@[k as int]@);
            if k == 0 {
                assert(lv.take(1)[0] == plain_lines@[0]@);
            }
        }
        if k > 0 {
            out.push('\n');
        }
        let line = chars_of(plain_lines[k].as_str());
        append_chars(&mut out, &line);
        k += 1;
        assert(out@ =~= joined(lv.take(k as int)));
    }
    assert(lv.take(k as int) =~= lv);
    out
}

/// The text that the selection `sel` covers in the flat text of
/// `plain_lines`. The two ends may come in either order and are clamped to
/// the text.
pub fn extract_selection(plain_lines: &Vec<String>, sel: (usize, usize)) -> (out: String)
    ensures
        out@ == selected_text(strs_view(plain_lines@), (sel.0 as int, sel.1 as int)),
{
    let flat = flat_chars(plain_lines);
    let n = flat.len();
    let first: usize = if sel.0 <= sel.1 {
        sel.0
    } else {
        sel.1
    };
    let second: usize = if sel.0 <= sel.1 {
        sel.1
    } else {
        sel.0
    };
    let lo: usize = if first > n {
        n
    } else {
        first
    };
    let hi: usize = if second > n {
        n
    } else {
        second
    };
    string_of_range(&flat, lo, hi)
}

/// The bounds of the word at offset `pos` of the flat text of
/// `plain_lines`: the run of non-whitespace around `pos`, which is clamped
/// to the text. On whitespace or between two of them the run is empty.
pub fn word_bounds_at(plain_lines: &Vec<String>, pos: usize) -> (r: (usize, usize))
    ensures
        r.0 as int == word_start(
            joined(strs_view(plain_lines@)),
            at_most(pos as int, joined(strs_view(plain_lines@)).len() as int),
        ),
        r.1 as int == word_end(
            joined(strs_view(plain_lines@)),
            at_most(pos as int, joined(strs_view(plain_lines@)).len() as int),
        ),
        r.0 <= r.1 <= joined(strs_view(plain_lines@)).len(),
{
    let flat = flat_chars(plain_lines);
    let n = flat.len();
    let p: usize = if pos > n {
        n
    } else {
        pos
    };
    let mut start: usize = p;
    while start > 0 && !flat[start - 1].is_whitespace()
        invariant
            start <= p <= n,
            n == flat.len(),
            word_start(flat@, start as int) == word_start(flat@, p as int),
        decreases start,
    {
        start -= 1;
    }
    let mut end: usize = p;
    while end < n && !flat[end].is_whitespace()
        invariant
            p <= end <= n,
            n == flat.len(),
            word_end(flat@, end as int) == word_end(flat@, p as int),
        decreases n - end,
    {
        end += 1;
    }
    (start, end)
}

/// Whether a button is hit by a click on column `col` of the visual line
/// `line`.
pub open spec fn hits(button: (int, int, Seq<char>), line: int, col: int) -> bool {
    button.0 == line && button.1 <= col < button.1 + BUTTON_WIDTH
}

/// The text of the first button from index `k` on that the click hits.
pub open spec fn first_hit(buttons: Seq<(int, int, Seq<char>)>, k: int, line: int, col: int) -> Option<
    Seq<char>,
>
    decreases buttons.len() - k,
{
    if k < 0 || k >= buttons.len() {
        None
    } else if hits(buttons[k], line, col) {
        Some(buttons[k].2)
    } else {
        first_hit(buttons, k + 1, line, col)
    }
}

/// `a - b`, or 0 where `b` is the larger.
pub open spec fn less(a: int, b: int) -> int {
    if a > b {
        a - b
    } else {
        0
    }
}

/// The text that a left click on the cell copies: that of the first copy
/// button under the cell, if there is one.
pub open spec fn clicked_button(s: ChatState, row: u16, col: u16, area: Area, scroll: u16) -> Option<
    Seq<char>,
> {
    first_hit(
        buttons_view(s.copy_buttons@),
        0,
        less(row as int, area.y + 1) + scroll,
        less(col as int, area.x + 1),
    )
}

/// Whether a click at `now` on the cell is the second of a double click.
pub open spec fn is_double_click(last: Option<(u64, u16, u16)>, now: u64, row: u16, col: u16) -> bool {
    last matches Some(c) && less(now as int, c.0 as int) < DOUBLE_CLICK_MS && c.1 == row && c.2
        == col
}

/// The word around `off` in the flat text of the lines.
pub open spec fn word_at(lines: Seq<Seq<char>>, off: int) -> (usize, usize) {
    let flat = joined(lines);
    let p = at_most(off, flat.len() as int);
    (word_start(flat, p) as usize, word_end(flat, p) as usize)
}

/// The state scrolled back by `step` lines, out of auto-follow.
pub open spec fn scrolled_back(s: ChatState, max: int, step: int) -> ChatState {
    ChatState {
        auto_follow: false,
        chat_scroll: less(
            if s.auto_follow {
                max
            } else {
                s.chat_scroll as int
            },
            step,
        ) as usize,
        ..s
    }
}

/// The state scrolled on by `step` lines, into auto-follow at the end.
pub open spec fn scrolled_on(s: ChatState, max: int, step: int) -> ChatState {
    if s.auto_follow {
        s
    } else {
        ChatState {
            chat_scroll: at_most(s.chat_scroll + step, max) as usize,
            auto_follow: s.chat_scroll + step >= max,
            ..s
        }
    }
}

/// The state after a mouse event.
///
/// The wheel scrolls by `WHEEL_STEP` lines: upwards it leaves auto-follow,
/// starting from `max_scroll`; downwards it stops at `max_scroll` and takes
/// auto-follow up again there. A left click on a copy button changes
/// nothing. Any other left click inside the pane starts a new empty
/// selection at its offset and anchors a drag there, unless it is the second
/// click of a double click, which selects the word around it. A drag with an
/// anchor selects from the anchor to the cell. Releasing the button drops
/// the anchor and keeps the selection.
pub open spec fn after_mouse(
    s: ChatState,
    kind: MouseKind,
    row: u16,
    col: u16,
    area: Area,
    scroll: u16,
    max_scroll: usize,
    now: u64,
) -> ChatState {
    let lines = strs_view(s.plain_lines@);
    let cell = screen_offset(row as int, col as int, area, scroll as int, lines);
    match kind {
        MouseKind::ScrollUp => scrolled_back(s, max_scroll as int, WHEEL_STEP as int),
        MouseKind::ScrollDown => scrolled_on(s, max_scroll as int, WHEEL_STEP as int),
        MouseKind::LeftDown => if clicked_button(s, row, col, area, scroll) is Some {
            s
        } else {
            match cell {
                None => s,
                Some(off) => if is_double_click(s.last_click, now, row, col) {
                    ChatState {
                        selection: Some(word_at(lines, off)),
                        drag_anchor: None,
                        last_click: None,
                        ..s
                    }
                } else {
                    ChatState {
                        selection: Some((off as usize, off as usize)),
                        drag_anchor: Some(off as usize),
                        last_click: Some((now, row, col)),
                        ..s
                    }
                },
            }
        },
        MouseKind::LeftDrag => match (s.drag_anchor, cell) {
            (Some(anchor), Some(off)) => ChatState {
                selection: Some((anchor, off as usize)),
                ..s
            },
            _ => s,
        },
        MouseKind::LeftUp => ChatState { drag_anchor: None, ..s },
        MouseKind::Other => s,
    }
}

/// The text that the event asks to put on the clipboard.
pub open spec fn mouse_copy(s: ChatState, kind: MouseKind, row: u16, col: u16, area: Area, scroll: u16) -> Option<
    Seq<char>,
> {
    if kind == MouseKind::LeftDown {
        clicked_button(s, row, col, area, scroll)
    } else {
        None
    }
}

/// A selection in bounds, its ends put in order, is a range of the flat
/// text: it starts at or after 0, ends at or after its start, and ends
/// within the text.
pub proof fn lemma_selection_is_range(sel: (usize, usize), lines: Seq<Seq<char>>)
    requires
        selection_in_bounds(Some(sel), lines),
    ensures
        ({
            let lo = if sel.0 <= sel.1 {
                sel.0
            } else {
                sel.1
            };
            let hi = if sel.0 <= sel.1 {
                sel.1
            } else {
                sel.0
            };
            0 <= lo <= hi <= total_len(lines)
        }),
{
}

/// Whatever the selection, the text that it covers is a part of the flat
/// text, no longer than the distance between its ends.
pub proof fn lemma_selected_text_len(lines: Seq<Seq<char>>, sel: (int, int))
    requires
        0 <= sel.0,
        0 <= sel.1,
    ensures
        selected_text(lines, sel).len() <= joined(lines).len(),
        selected_text(lines, sel).len() <= if sel.0 <= sel.1 {
            sel.1 - sel.0
        } else {
            sel.0 - sel.1
        },
{
}

/// The text of the first copy button that a click on column `col` of the
/// visual line `line` hits.
pub fn button_at(buttons: &Vec<CopyButton>, line: usize, col: usize) -> (r: Option<String>)
    ensures
        match r {
            Some(t) => first_hit(buttons_view(buttons@), 0, line as int, col as int) == Some(t@),
            None => first_hit(buttons_view(buttons@), 0, line as int, col as int) is None,
        },
{
    let ghost bv = buttons_view(buttons@);
    let mut k: usize = 0;
    while k < buttons.len()
        invariant
            k <= buttons.len(),
            bv == buttons_view(buttons@),
            first_hit(bv, k as int, line as int, col as int) == first_hit(
                bv,
                0,
                line as int,
                col as int,
            ),
        decreases buttons.len() - k,
    {
        let b = &buttons[k];
        assert(bv[k as int] == b@);
        if b.line == line && col >= b.col_start && col - b.col_start < BUTTON_WIDTH {
            return Some(b.content.clone());
        }
        k += 1;
    }
    None
}

/// Scrolls the chat back by `step` lines, out of auto-follow.
pub fn scroll_back(state: &mut ChatState, max: usize, step: usize)
    ensures
        *final(state) == scrolled_back(*old(state), max as int, step as int),
{
    let base: usize = if state.auto_follow {
        max
    } else {
        state.chat_scroll
    };
    state.auto_follow = false;
    state.chat_scroll = if base > step {
        base - step
    } else {
        0
    };
}

/// Scrolls the chat on by `step` lines, into auto-follow at the end.
pub fn scroll_on(state: &mut ChatState, max: usize, step: usize)
    ensures
        *final(state) == scrolled_on(*old(state), max as int, step as int),
{
    if !state.auto_follow {
        if state.chat_scroll >= max || max - state.chat_scroll <= step {
            state.chat_scroll = max;
            state.auto_follow = true;
        } else {
            state.chat_scroll = state.chat_scroll + step;
        }
    }
}

/// Applies one mouse event to the state. `scroll` is the scroll position
/// that the pane shows, `max_scroll` the largest there is, and `now_ms` the
/// time of the event in milliseconds. The result is the text to put on the
/// clipboard, if the event is a click on a copy button.
pub fn handle_mouse(
    state: &mut ChatState,
    kind: MouseKind,
    row: u16,
    column: u16,
    chat_area: Area,
    scroll: u16,
    max_scroll: usize,
    now_ms: u64,
) -> (copied: Option<String>)
    requires
        plain_fits(strs_view(old(state).plain_lines@)),
    ensures
        *final(state) == after_mouse(
            *old(state),
            kind,
            row,
            column,
            chat_area,
            scroll,
            max_scroll,
            now_ms,
        ),
        match copied {
            Some(t) => mouse_copy(*old(state), kind, row, column, chat_area, scroll) == Some(t@),
            None => mouse_copy(*old(state), kind, row, column, chat_area, scroll) is None,
        },
        gesture_in_bounds(*old(state)) ==> gesture_in_bounds(*final(state)),
{
    let ghost lines = strs_view(state.plain_lines@);
    match kind {
        MouseKind::ScrollUp => {
            scroll_back(state, max_scroll, WHEEL_STEP);
            None
        },
        MouseKind::ScrollDown => {
            scroll_on(state, max_scroll, WHEEL_STEP);
            None
        },
        MouseKind::LeftDown => {
            let inner_y: u32 = chat_area.y as u32 + 1;
            let inner_x: u32 = chat_area.x as u32 + 1;
            let above: u32 = if row as u32 > inner_y {
                row as u32 - inner_y
            } else {
                0
            };
            let visual_line: usize = (above + scroll as u32) as usize;
            let visual_col: usize = if column as u32 > inner_x {
                (column as u32 - inner_x) as usize
            } else {
                0
            };
            let hit = button_at(&state.copy_buttons, visual_line, visual_col);
            if hit.is_some() {
                return hit;
            }
            match screen_to_chat_offset(row, column, chat_area, scroll, &state.plain_lines) {
                Some(off) => {
                    proof {
                        lemma_offset_in_bounds(
                            lines,
                            row - (chat_area.y + 1) + scroll,
                            column - (chat_area.x + 1),
                        );
                        lemma_joined_len(lines);
                    }
                    let is_double = match state.last_click {
                        Some((t, r, c)) => (now_ms < t || now_ms - t < DOUBLE_CLICK_MS) && r
                            == row && c == column,
                        None => false,
                    };
                    if is_double {
                        let bounds = word_bounds_at(&state.plain_lines, off);
                        state.selection = Some(bounds);
                        state.drag_anchor = None;
                        state.last_click = None;
                    } else {
                        state.drag_anchor = Some(off);
                        state.selection = Some((off, off));
                        state.last_click = Some((now_ms, row, column));
                    }
                },
                None => {},
            }
            None
        },
        MouseKind::LeftDrag => {
            match state.drag_anchor {
                Some(anchor) => {
                    match screen_to_chat_offset(
                        row,
                        column,
                        chat_area,
                        scroll,
                        &state.plain_lines,
                    ) {
                        Some(off) => {
                            proof {
                                lemma_offset_in_bounds(
                                    lines,
                                    row - (chat_area.y + 1) + scroll,
                                    column - (chat_area.x + 1),
                                );
                            }
                            state.selection = Some((anchor, off));
                        },
                        None => {},
                    }
                },
                None => {},
            }
            None
        },
        MouseKind::LeftUp => {
            state.drag_anchor = None;
            None
        },
        MouseKind::Other => None,
    }
}

} // verus!
