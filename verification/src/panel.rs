//! What the two panes show: how far the chat can scroll and where it
//! stands, and the window of the wrapped input that keeps the cursor in
//! view.

use vstd::prelude::*;
use crate::text::{strs_view, rows_view, chars_of, string_of, lemma_strs_push};
use crate::area::Area;
use crate::state::{ChatState, messages_view};
use crate::render::{layout, layout_rows};
use crate::rows::row_specs;
use crate::selection::{less, at_most};
use crate::cursor::{cursor_row_col, floor_width, row_col_of};
use crate::wrap::{wrap_spec, wrap_chars, lemma_wrap_fits, fits_row};

verus! {

/// The number of lines that a pane shows inside its border, at least one.
pub open spec fn visible_lines(area: Area) -> int {
    if area.height - 2 < 1 {
        1
    } else {
        area.height - 2
    }
}

/// The number of visual lines of the chat in the pane.
pub open spec fn chat_line_count(s: ChatState, chat_area: Area) -> int {
    layout(messages_view(s.messages@), less(chat_area.width as int, 2)).len() as int
}

/// The farthest that the chat can scroll: the lines that do not fit the
/// pane.
pub open spec fn max_scroll(s: ChatState, chat_area: Area) -> int {
    less(chat_line_count(s, chat_area), visible_lines(chat_area))
}

/// The scroll position that the pane shows, as the 16-bit number that the
/// terminal takes: the farthest when the view follows the newest line, else
/// the state's own, held to the farthest.
pub open spec fn scroll_shown(s: ChatState, max: int) -> int {
    (if s.auto_follow {
        max
    } else {
        at_most(s.chat_scroll as int, max)
    }) % 0x10000
}

/// The farthest that the chat of `state` can scroll in `chat_area`.
pub fn chat_max_scroll(state: &ChatState, chat_area: Area) -> (r: usize)
    ensures
        r as int == max_scroll(*state, chat_area),
{
    let width: usize = if chat_area.width < 2 {
        0
    } else {
        (chat_area.width - 2) as usize
    };
    let rows = layout_rows(&state.messages, width);
    assert(row_specs(rows@).len() == rows@.len());
    let visible: usize = if chat_area.height < 3 {
        1
    } else {
        (chat_area.height - 2) as usize
    };
    if rows.len() > visible {
        rows.len() - visible
    } else {
        0
    }
}

/// The scroll position that the chat pane shows.
pub fn shown_scroll(state: &ChatState, max: usize) -> (r: u16)
    ensures
        r as int == scroll_shown(*state, max as int),
{
    let at: usize = if state.auto_follow || state.chat_scroll > max {
        max
    } else {
        state.chat_scroll
    };
    (at % 0x10000) as u16
}

/// What the input pane shows.
pub struct InputPanel {
    /// The visible window of the wrapped input.
    pub lines: Vec<String>,
    /// The index of the first visible line.
    pub start: usize,
    /// The number of lines of the wrapped input.
    pub total: usize,
    /// The screen cell (x, y) of the cursor, if its line is visible.
    pub cursor: Option<(u16, u16)>,
}

/// The width at which the input is wrapped in its pane.
pub open spec fn input_width(area: Area) -> int {
    floor_width(area.width - 2)
}

/// The first visible line of the wrapped input: as far down as the cursor's
/// row needs to be the last visible one, and no farther than the end
/// allows.
pub open spec fn window_start(total: int, cursor_row: int, visible: int) -> int {
    at_most(
        if cursor_row >= visible {
            cursor_row - (visible - 1)
        } else {
            0
        },
        less(total, visible),
    )
}

/// The line after the last visible one.
pub open spec fn window_end(total: int, cursor_row: int, visible: int) -> int {
    at_most(window_start(total, cursor_row, visible) + visible, total)
}

/// The screen cell of the cursor: its column, held to its line, and its row
/// in the window, inside the border of the pane. None where the cursor's
/// row is not in the window.
pub open spec fn cursor_cell(input: Seq<char>, cursor_pos: int, area: Area) -> Option<(int, int)> {
    let w = input_width(area);
    let wrapped = wrap_spec(input, w);
    let rc = cursor_row_col(input, cursor_pos, w);
    let start = window_start(wrapped.len() as int, rc.0, visible_lines(area));
    let end = window_end(wrapped.len() as int, rc.0, visible_lines(area));
    if start <= rc.0 < end {
        Some((area.x + 1 + at_most(rc.1, wrapped[rc.0].len() as int), area.y + 1 + rc.0 - start))
    } else {
        None
    }
}

/// The cells of the pane, with the one line and the two columns that the
/// smallest pane still shows, lie within the grid that 16-bit coordinates
/// address.
pub open spec fn holds_text(area: Area) -> bool {
    area.fits() && area.x + 2 <= u16::MAX && area.y + 1 <= u16::MAX
}

/// Lays the input out in its pane: wraps it at the pane's inner width and
/// picks the window of lines that keeps the cursor's row in view. A pane
/// too small for a border and a line still shows one line, one column
/// wide.
pub fn input_panel(input: &str, cursor_pos: usize, area: Area) -> (panel: InputPanel)
    requires
        holds_text(area),
    ensures
        panel.total == wrap_spec(input@, input_width(area)).len(),
        panel.start as int == window_start(
            panel.total as int,
            cursor_row_col(input@, cursor_pos as int, input_width(area)).0,
            visible_lines(area),
        ),
        strs_view(panel.lines@) == wrap_spec(input@, input_width(area)).subrange(
            panel.start as int,
            window_end(
                panel.total as int,
                cursor_row_col(input@, cursor_pos as int, input_width(area)).0,
                visible_lines(area),
            ),
        ),
        match panel.cursor {
            Some(cell) => cursor_cell(input@, cursor_pos as int, area) == Some(
                (cell.0 as int, cell.1 as int),
            ),
            None => cursor_cell(input@, cursor_pos as int, area) is None,
        },
{
    let chars = chars_of(input);
    let w: usize = if area.width < 3 {
        1
    } else {
        (area.width - 2) as usize
    };
    let visible: usize = if area.height < 3 {
        1
    } else {
        (area.height - 2) as usize
    };
    let wrapped = wrap_chars(&chars, w);
    let ghost segs = wrap_spec(input@, w as int);
    proof {
        lemma_wrap_fits(input@, w as int);
        assert(rows_view(wrapped@).len() == wrapped@.len());
    }
    let total = wrapped.len();
    let (row, col) = row_col_of(&chars, cursor_pos, w);
    let scroll: usize = if row >= visible {
        row - (visible - 1)
    } else {
        0
    };
    let last_start: usize = if total > visible {
        total - visible
    } else {
        0
    };
    let start: usize = if scroll > last_start {
        last_start
    } else {
        scroll
    };
    let end: usize = if total - start > visible {
        start + visible
    } else {
        total
    };
    let mut lines: Vec<String> = Vec::new();
    let mut k: usize = start;
    assert(strs_view(lines@) =~= segs.subrange(start as int, start as int));
    while k < end
        invariant
            start <= k <= end <= wrapped.len(),
            segs == rows_view(wrapped@),
            strs_view(lines@) == segs.subrange(start as int, k as int),
        decreases end - k,
    {
        let line = string_of(&wrapped[k]);
        proof {
            lemma_strs_push(lines@, line);
            assert(segs[k as int] == wrapped@[k as int]@);
            assert(strs_view(lines@).push(line@) =~= segs.subrange(start as int, k as int + 1));
        }
        lines.push(line);
        k += 1;
    }
    let cursor: Option<(u16, u16)> = if row >= start && row < end {
        let len = wrapped[row].len();
        assert(fits_row(segs[row as int], w as int));
        let shown: usize = if col > len {
            len
        } else {
            col
        };
        Some((area.x + 1 + shown as u16, area.y + 1 + (row - start) as u16))
    } else {
        None
    };
    InputPanel { lines, start, total, cursor }
}

/// The length of one phase of the cursor's blinking, in milliseconds.
pub const BLINK_MS: u64 = 500;

/// Whether a blinking cursor shows at `millis` milliseconds: it is on for
/// half a second, then off for half a second.
pub fn cursor_blink_on(millis: u64) -> (on: bool)
    ensures
        on == ((millis / BLINK_MS) % 2 == 0),
{
    (millis / BLINK_MS) % 2 == 0
}

} // verus!
