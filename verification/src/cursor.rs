//! The mapping between an offset into a text and the visual row and column
//! that the offset has once the text is wrapped, and back.

use vstd::prelude::*;
use vstd::arithmetic::div_mod::{
    lemma_fundamental_div_mod, lemma_fundamental_div_mod_converse, lemma_small_mod,
};
use crate::text::{line_end, lines_from, lemma_line_end_bounds, chars_of};
use crate::wrap::{wrap_spec, wrap_all, wrap_paragraph, chunks_from};

verus! {

/// The start of the logical line that holds position `pos`: the index after
/// the last newline before `pos`, or 0.
pub open spec fn line_start(text: Seq<char>, pos: int) -> int
    decreases pos,
{
    if pos <= 0 {
        0
    } else if text[pos - 1] == '\n' {
        pos
    } else {
        line_start(text, pos - 1)
    }
}

/// Whether stepping over the character at `i` enters a new visual row: it is
/// a newline, or it stands a positive multiple of `w` after its line's start.
pub open spec fn row_break_at(text: Seq<char>, i: int, w: int) -> bool {
    text[i] == '\n' || (i - line_start(text, i) > 0 && (i - line_start(text, i)) % w == 0)
}

/// The number of row breaks among the first `pos` characters.
pub open spec fn breaks_before(text: Seq<char>, pos: int, w: int) -> int
    decreases pos,
{
    if pos <= 0 {
        0
    } else {
        breaks_before(text, pos - 1, w) + if row_break_at(text, pos - 1, w) {
            1int
        } else {
            0int
        }
    }
}

/// The width used for wrapping: at least one column.
pub open spec fn floor_width(width: int) -> int {
    if width < 1 {
        1
    } else {
        width
    }
}

/// The offset clamped to the text.
pub open spec fn clamp_pos(text: Seq<char>, cursor: int) -> int {
    if cursor > text.len() {
        text.len() as int
    } else {
        cursor
    }
}

/// The visual row and column of the offset `cursor` in `text` wrapped at
/// `width`. The row counts the breaks before the offset, and the column is
/// the distance from the row's start. An offset on a wrap boundary inside a
/// line stands at column 0 of the next row; one behind a full row that ends
/// its line or the text stays on that row, at the column of the row's
/// length.
pub open spec fn cursor_row_col(text: Seq<char>, cursor: int, width: int) -> (int, int) {
    let pos = clamp_pos(text, cursor);
    let w = floor_width(width);
    (visual_row(text, pos, w), visual_col(text, pos, w))
}

/// The visual row of the offset `pos <= text.len()` at width `w >= 1`.
pub open spec fn visual_row(text: Seq<char>, pos: int, w: int) -> int {
    let lp = pos - line_start(text, pos);
    breaks_before(text, pos, w) + if lp > 0 && lp % w == 0 && pos < text.len() && text[pos]
        != '\n' {
        1int
    } else {
        0int
    }
}

/// The visual column of the offset `pos` at width `w >= 1`.
pub open spec fn visual_col(text: Seq<char>, pos: int, w: int) -> int {
    if at_full_row_end(text, pos, w) {
        w
    } else {
        (pos - line_start(text, pos)) % w
    }
}

/// Whether `pos` stands behind the last character of a visual row that is
/// exactly `w` wide and ends its line or the text.
pub open spec fn at_full_row_end(text: Seq<char>, pos: int, w: int) -> bool {
    let lp = pos - line_start(text, pos);
    lp > 0 && lp % w == 0 && (pos >= text.len() || text[pos] == '\n')
}

/// Whether a visual row starts at `s`: at the start of a line, or a
/// multiple of `w` into a line that goes on.
pub open spec fn starts_row(text: Seq<char>, s: int, w: int) -> bool {
    let lp = s - line_start(text, s);
    lp % w == 0 && (lp == 0 || (s < text.len() && text[s] != '\n'))
}

/// The end of the visual row that starts at `s`: the line's end, or `w`
/// characters on, whichever comes first.
pub open spec fn row_end(text: Seq<char>, s: int, w: int) -> int {
    let e = line_end(text, s);
    if e - s > w {
        s + w
    } else {
        e
    }
}

/// The offset of column `col` in the visual row `row`, counted from the row
/// that starts at `s`. A column past the row's end gives the row's end; a
/// row past the last gives the end of the text.
pub open spec fn locate(text: Seq<char>, s: int, row: int, col: int, w: int) -> int
    decreases row,
{
    let e = row_end(text, s, w);
    if row <= 0 {
        if col < e - s {
            s + col
        } else {
            e
        }
    } else if e >= text.len() {
        text.len() as int
    } else if text[e] == '\n' {
        locate(text, e + 1, row - 1, col, w)
    } else {
        locate(text, e, row - 1, col, w)
    }
}

/// The offset in `text`, wrapped at `width`, of the given visual row and
/// column.
pub open spec fn offset_at(text: Seq<char>, row: int, col: int, width: int) -> int {
    locate(text, 0, row, col, floor_width(width))
}

/// A line's start lies between 0 and the position.
pub proof fn lemma_line_start_bounds(text: Seq<char>, pos: int)
    requires
        0 <= pos,
    ensures
        0 <= line_start(text, pos) <= pos,
    decreases pos,
{
    if pos > 0 && text[pos - 1] != '\n' {
        lemma_line_start_bounds(text, pos - 1);
    }
}

/// The visual row and column of `cursor_pos` in `text`.
pub fn row_col_of(text: &Vec<char>, cursor_pos: usize, width: usize) -> (rc: (usize, usize))
    ensures
        (rc.0 as int, rc.1 as int) == cursor_row_col(text@, cursor_pos as int, width as int),
{
    let n = text.len();
    let pos: usize = if cursor_pos > n {
        n
    } else {
        cursor_pos
    };
    let w: usize = if width < 1 {
        1
    } else {
        width
    };
    let mut row: usize = 0;
    let mut start: usize = 0;
    let mut i: usize = 0;
    while i < pos
        invariant
            n == text.len(),
            i <= pos <= n,
            w >= 1,
            start <= i,
            start as int == line_start(text@, i as int),
            row as int == breaks_before(text@, i as int, w as int),
            row <= i,
        decreases pos - i,
    {
        if text[i] == '\n' {
            row += 1;
            start = i + 1;
        } else {
            let line_pos: usize = i - start;
            if line_pos > 0 && line_pos % w == 0 {
                row += 1;
            }
        }
        i += 1;
    }
    let line_pos: usize = pos - start;
    let mut col: usize = line_pos % w;
    if line_pos > 0 && col == 0 {
        if pos < n && text[pos] != '\n' {
            row += 1;
        } else {
            col = w;
        }
    }
    (row, col)
}

/// The offset in `text` of the visual row `target_row` and the column
/// `target_col`.
pub fn offset_of_row_col(text: &Vec<char>, target_row: usize, target_col: usize, width: usize) -> (off: usize)
    ensures
        off as int == offset_at(text@, target_row as int, target_col as int, width as int),
        off <= text.len(),
{
    let n = text.len();
    let w: usize = if width < 1 {
        1
    } else {
        width
    };
    let mut s: usize = 0;
    let mut r: usize = target_row;
    loop
        invariant
            n == text.len(),
            w >= 1,
            s <= n,
            r <= target_row,
            locate(text@, s as int, r as int, target_col as int, w as int) == offset_at(
                text@,
                target_row as int,
                target_col as int,
                width as int,
            ),
        decreases r,
    {
        let mut e: usize = s;
        while e < n && text[e] != '\n' && e - s < w
            invariant
                n == text.len(),
                s <= e <= n,
                e - s <= w,
                line_end(text@, s as int) == line_end(text@, e as int),
            decreases n - e,
        {
            e += 1;
        }
        proof {
            lemma_line_end_bounds(text@, e as int);
            assert(e as int == row_end(text@, s as int, w as int));
        }
        if r == 0 {
            if target_col < e - s {
                return s + target_col;
            } else {
                return e;
            }
        }
        if e >= n {
            return n;
        }
        if text[e] == '\n' {
            s = e + 1;
        } else {
            s = e;
        }
        r -= 1;
    }
}

/// The visual row and column of the offset `cursor_pos` in `text` wrapped at
/// `width` (a width of 0 counts as 1). An offset past the end counts as the
/// end.
pub fn cursor_to_row_col(text: &str, cursor_pos: usize, width: usize) -> (rc: (usize, usize))
    ensures
        (rc.0 as int, rc.1 as int) == cursor_row_col(text@, cursor_pos as int, width as int),
{
    let chars = chars_of(text);
    row_col_of(&chars, cursor_pos, width)
}

/// The offset in `text`, wrapped at `width`, of a visual row and column. A
/// column past the row's end gives the row's end, a row past the last row
/// the end of the text.
pub fn row_col_to_cursor(text: &str, target_row: usize, target_col: usize, width: usize) -> (off: usize)
    ensures
        off as int == offset_at(text@, target_row as int, target_col as int, width as int),
        off <= text@.len(),
{
    let chars = chars_of(text);
    offset_of_row_col(&chars, target_row, target_col, width)
}

proof fn lemma_mod_step(a: int, d: int, w: int)
    requires
        w >= 1,
        a >= 0,
        a % w == 0,
        0 <= d <= w,
    ensures
        d < w ==> (a + d) % w == d,
        d == w ==> (a + d) % w == 0,
{
    lemma_fundamental_div_mod(a, w);
    assert(a == (a / w) * w) by (nonlinear_arith)
        requires
            a == w * (a / w) + a % w,
            a % w == 0,
    ;
    if d < w {
        lemma_fundamental_div_mod_converse(a + d, w, a / w, d);
    } else {
        assert(a + d == (a / w + 1) * w) by (nonlinear_arith)
            requires
                a == (a / w) * w,
                d == w,
        ;
        lemma_fundamental_div_mod_converse(a + d, w, a / w + 1, 0);
    }
}

proof fn lemma_same_line(text: Seq<char>, s: int, q: int)
    requires
        0 <= s <= q <= text.len(),
        forall|i: int| s <= i < q ==> text[i] != '\n',
    ensures
        line_start(text, q) == line_start(text, s),
    decreases q - s,
{
    if q > s {
        lemma_same_line(text, s, q - 1);
    }
}

proof fn lemma_breaks_in_row(text: Seq<char>, s: int, q: int, w: int)
    requires
        w >= 1,
        0 <= s <= q <= text.len(),
        q - s <= w,
        forall|i: int| s <= i < q ==> text[i] != '\n',
        (s - line_start(text, s)) % w == 0,
    ensures
        breaks_before(text, q, w) == breaks_before(text, s, w) + if q > s && s - line_start(
            text,
            s,
        ) > 0 {
            1int
        } else {
            0int
        },
    decreases q - s,
{
    if q > s {
        lemma_breaks_in_row(text, s, q - 1, w);
        lemma_same_line(text, s, q - 1);
        lemma_line_start_bounds(text, s);
        if q - 1 > s {
            lemma_mod_step(s - line_start(text, s), q - 1 - s, w);
        }
    }
}

proof fn lemma_locate_from(text: Seq<char>, s: int, p: int, w: int)
    requires
        w >= 1,
        0 <= s <= p <= text.len(),
        starts_row(text, s, w),
    ensures
        visual_row(text, p, w) >= visual_row(text, s, w),
        locate(text, s, visual_row(text, p, w) - visual_row(text, s, w), visual_col(text, p, w), w)
            == p,
    decreases p - s,
{
    let n = text.len() as int;
    let e = row_end(text, s, w);
    let a = s - line_start(text, s);
    let rows = visual_row(text, p, w) - visual_row(text, s, w);
    let col = visual_col(text, p, w);
    lemma_line_end_bounds(text, s);
    lemma_line_start_bounds(text, s);
    assert(s <= e <= n && e - s <= w);
    assert(forall|i: int| s <= i < e ==> text[i] != '\n');
    if p < e || (p == e && e - s < w) {
        lemma_same_line(text, s, p);
        lemma_breaks_in_row(text, s, p, w);
        lemma_mod_step(a, p - s, w);
        assert(p - line_start(text, p) == a + (p - s));
        assert(col == p - s);
        if p > s {
            assert(s < n);
            assert(visual_row(text, p, w) == breaks_before(text, p, w));
            assert(visual_row(text, s, w) == breaks_before(text, s, w) + if a > 0 {
                1int
            } else {
                0int
            });
        }
        assert(rows == 0);
        assert(locate(text, s, 0, col, w) == p);
    } else if p == e {
        lemma_same_line(text, s, p);
        lemma_breaks_in_row(text, s, p, w);
        lemma_mod_step(a, w, w);
        lemma_line_end_bounds(text, e);
        assert(e - s == w);
        assert(s < n);
        assert(p - line_start(text, p) == a + w);
        assert(visual_row(text, s, w) == breaks_before(text, s, w) + if a > 0 {
            1int
        } else {
            0int
        });
        if p < n && text[p] != '\n' {
            assert(col == 0);
            assert(visual_row(text, p, w) == breaks_before(text, p, w) + 1);
            assert(rows == 1);
            assert(row_end(text, e, w) >= e);
            assert(locate(text, e, 0, 0, w) == e);
            assert(locate(text, s, 1, 0, w) == locate(text, e, 0, 0, w));
        } else {
            assert(at_full_row_end(text, p, w));
            assert(col == w);
            assert(visual_row(text, p, w) == breaks_before(text, p, w));
            assert(rows == 0);
            assert(locate(text, s, 0, w, w) == e);
        }
    } else {
        lemma_same_line(text, s, e);
        lemma_breaks_in_row(text, s, e, w);
        assert(e < n);
        assert(visual_row(text, s, w) == breaks_before(text, s, w) + if a > 0 {
            1int
        } else {
            0int
        });
        if text[e] == '\n' {
            assert(line_start(text, e + 1) == e + 1);
            assert(row_break_at(text, e, w));
            assert(breaks_before(text, e + 1, w) == breaks_before(text, e, w) + 1);
            if e == s {
                assert(a == 0);
            }
            assert(visual_row(text, e + 1, w) == visual_row(text, s, w) + 1);
            lemma_small_mod(0, w as nat);
            assert(starts_row(text, e + 1, w));
            lemma_locate_from(text, e + 1, p, w);
            assert(rows >= 1);
            assert(locate(text, s, rows, col, w) == locate(text, e + 1, rows - 1, col, w));
        } else {
            lemma_mod_step(a, w, w);
            assert(e - s == w);
            assert(e - line_start(text, e) == a + w);
            assert(visual_row(text, e, w) == breaks_before(text, e, w) + 1);
            assert(visual_row(text, e, w) == visual_row(text, s, w) + 1);
            assert(starts_row(text, e, w));
            lemma_locate_from(text, e, p, w);
            assert(rows >= 1);
            assert(locate(text, s, rows, col, w) == locate(text, e, rows - 1, col, w));
        }
    }
}

/// From an offset to its row and column and back gives the offset again,
/// for every offset of the text, its end included.
pub proof fn lemma_round_trip(text: Seq<char>, offset: int, width: int)
    requires
        0 <= offset <= text.len(),
    ensures
        offset_at(
            text,
            cursor_row_col(text, offset, width).0,
            cursor_row_col(text, offset, width).1,
            width,
        ) == offset,
{
    lemma_small_mod(0, floor_width(width) as nat);
    lemma_locate_from(text, 0, offset, floor_width(width));
}

/// The visual rows of the text from the row that starts at `s` on: each
/// runs from its start to its end, and the next starts behind the newline
/// that ends it, or where it was cut.
pub open spec fn rows_from(text: Seq<char>, s: int, w: int) -> Seq<Seq<char>>
    decreases text.len() - s,
{
    let e = row_end(text, s, w);
    if s < 0 || e < s || e >= text.len() {
        seq![text.subrange(s, text.len() as int)]
    } else if text[e] == '\n' {
        seq![text.subrange(s, e)] + rows_from(text, e + 1, w)
    } else if e > s {
        seq![text.subrange(s, e)] + rows_from(text, e, w)
    } else {
        seq![text.subrange(s, e)]
    }
}

proof fn lemma_line_end_same(text: Seq<char>, s0: int, s: int)
    requires
        0 <= s0 <= s <= line_end(text, s0),
        s0 <= text.len(),
    ensures
        line_end(text, s) == line_end(text, s0),
    decreases s - s0,
{
    if s0 < s {
        lemma_line_end_same(text, s0 + 1, s);
    }
}

proof fn lemma_wrap_all_concat(a: Seq<Seq<char>>, b: Seq<Seq<char>>, w: int)
    ensures
        wrap_all(a + b, w) == wrap_all(a, w) + wrap_all(b, w),
    decreases b.len(),
{
    if b.len() == 0 {
        assert(a + b =~= a);
        assert(wrap_all(a, w) + wrap_all(b, w) =~= wrap_all(a, w));
    } else {
        lemma_wrap_all_concat(a, b.drop_last(), w);
        assert((a + b).drop_last() =~= a + b.drop_last());
        assert((a + b).last() == b.last());
        assert(wrap_all(a + b, w) =~= wrap_all(a, w) + wrap_all(b, w));
    }
}

proof fn lemma_rows_in_line(text: Seq<char>, s0: int, s: int, w: int)
    requires
        w >= 1,
        0 <= s0 <= s <= line_end(text, s0),
        s0 <= text.len(),
        s < line_end(text, s0) || s == s0,
    ensures
        rows_from(text, s, w) == (if line_end(text, s0) == s0 {
            seq![Seq::<char>::empty()]
        } else {
            chunks_from(text.subrange(s0, line_end(text, s0)), s - s0, w)
        }) + (if line_end(text, s0) < text.len() {
            rows_from(text, line_end(text, s0) + 1, w)
        } else {
            Seq::<Seq<char>>::empty()
        }),
    decreases line_end(text, s0) - s,
{
    let le = line_end(text, s0);
    let line = text.subrange(s0, le);
    let rest = if le < text.len() {
        rows_from(text, le + 1, w)
    } else {
        Seq::<Seq<char>>::empty()
    };
    lemma_line_end_bounds(text, s0);
    lemma_line_end_same(text, s0, s);
    let e = row_end(text, s, w);
    if le == s0 {
        assert(e == s);
        assert(text.subrange(s, e) =~= Seq::<char>::empty());
        assert(text.subrange(s, text.len() as int) =~= Seq::<char>::empty() || le < text.len());
        assert(rows_from(text, s, w) =~= seq![Seq::<char>::empty()] + rest);
    } else if s + w >= le {
        assert(e == le);
        assert(line.subrange(s - s0, line.len() as int) =~= text.subrange(s, le));
        assert(chunks_from(line, s - s0, w) =~= seq![text.subrange(s, le)]);
        assert(rows_from(text, s, w) =~= seq![text.subrange(s, le)] + rest);
    } else {
        assert(e == s + w);
        assert(text[e] != '\n');
        lemma_rows_in_line(text, s0, s + w, w);
        assert(line.subrange(s - s0, s - s0 + w) =~= text.subrange(s, e));
        assert(chunks_from(line, s - s0, w) =~= seq![text.subrange(s, e)] + chunks_from(
            line,
            s - s0 + w,
            w,
        ));
        assert(rows_from(text, s, w) =~= chunks_from(line, s - s0, w) + rest);
    }
}

proof fn lemma_rows_are_wrapped_from(text: Seq<char>, s0: int, w: int)
    requires
        w >= 1,
        0 <= s0 <= text.len(),
    ensures
        rows_from(text, s0, w) == wrap_all(lines_from(text, s0), w),
    decreases text.len() - s0,
{
    let le = line_end(text, s0);
    let line = text.subrange(s0, le);
    let none = Seq::<Seq<char>>::empty();
    lemma_line_end_bounds(text, s0);
    lemma_rows_in_line(text, s0, s0, w);
    assert(seq![line].drop_last() =~= none);
    assert(seq![line].last() == line);
    assert(wrap_all(none, w) =~= none);
    assert(wrap_all(seq![line], w) == wrap_all(none, w) + wrap_paragraph(line, w));
    assert(wrap_all(seq![line], w) =~= wrap_paragraph(line, w));
    if le < text.len() {
        lemma_rows_are_wrapped_from(text, le + 1, w);
        lemma_wrap_all_concat(seq![line], lines_from(text, le + 1), w);
    } else {
        assert(rows_from(text, s0, w) =~= wrap_paragraph(line, w));
    }
}

/// The visual rows that the cursor mapping walks are the lines that
/// wrapping gives: row by row the same text.
pub proof fn lemma_rows_are_wrapped(text: Seq<char>, width: int)
    requires
        width >= 1,
    ensures
        rows_from(text, 0, width) == wrap_spec(text, width),
{
    lemma_rows_are_wrapped_from(text, 0, width);
}

proof fn lemma_row_exists_from(text: Seq<char>, s: int, p: int, w: int)
    requires
        w >= 1,
        0 <= s <= p <= text.len(),
        starts_row(text, s, w),
    ensures
        visual_row(text, p, w) >= visual_row(text, s, w),
        visual_row(text, p, w) - visual_row(text, s, w) < rows_from(text, s, w).len(),
        0 <= visual_col(text, p, w) <= rows_from(text, s, w)[visual_row(text, p, w) - visual_row(
            text,
            s,
            w,
        )].len(),
    decreases p - s,
{
    let n = text.len() as int;
    let e = row_end(text, s, w);
    let a = s - line_start(text, s);
    let rows = rows_from(text, s, w);
    lemma_line_end_bounds(text, s);
    lemma_line_start_bounds(text, s);
    assert(s <= e <= n && e - s <= w);
    assert(forall|i: int| s <= i < e ==> text[i] != '\n');
    assert(rows.len() >= 1);
    assert(rows[0] =~= text.subrange(s, e));
    let from_s = breaks_before(text, s, w) + if a > 0 {
        1int
    } else {
        0int
    };
    if s < n {
        assert(visual_row(text, s, w) == from_s);
    }
    if p < e || (p == e && e - s < w) {
        lemma_same_line(text, s, p);
        lemma_breaks_in_row(text, s, p, w);
        lemma_mod_step(a, p - s, w);
        assert(p - line_start(text, p) == a + (p - s));
        if p > s {
            assert(visual_row(text, p, w) == breaks_before(text, p, w));
        }
        assert(visual_col(text, p, w) == p - s);
        assert(rows[0].len() == e - s);
    } else if p == e {
        lemma_same_line(text, s, p);
        lemma_breaks_in_row(text, s, p, w);
        lemma_mod_step(a, w, w);
        assert(p - line_start(text, p) == a + w);
        if p < n && text[p] != '\n' {
            assert(visual_row(text, p, w) == from_s + 1);
            assert(rows_from(text, e, w).len() >= 1);
            assert(rows_from(text, s, w).len() >= 2);
            assert(visual_col(text, p, w) == 0);
        } else {
            assert(visual_row(text, p, w) == from_s);
            assert(visual_col(text, p, w) == w);
            assert(rows[0].len() == e - s);
        }
    } else {
        lemma_same_line(text, s, e);
        lemma_breaks_in_row(text, s, e, w);
        assert(e < n);
        if text[e] == '\n' {
            assert(line_start(text, e + 1) == e + 1);
            assert(row_break_at(text, e, w));
            assert(breaks_before(text, e + 1, w) == breaks_before(text, e, w) + 1);
            if e == s {
                assert(a == 0);
            }
            lemma_small_mod(0, w as nat);
            assert(starts_row(text, e + 1, w));
            if e + 1 < n {
                assert(visual_row(text, e + 1, w) == from_s + 1);
            } else {
                assert(visual_row(text, e + 1, w) == from_s + 1);
            }
            lemma_row_exists_from(text, e + 1, p, w);
            let tail = rows_from(text, e + 1, w);
            assert(rows.len() == 1 + tail.len());
            assert(rows[visual_row(text, p, w) - from_s] == tail[visual_row(text, p, w) - from_s
                - 1]);
        } else {
            lemma_mod_step(a, w, w);
            assert(e - s == w);
            assert(e - line_start(text, e) == a + w);
            assert(visual_row(text, e, w) == from_s + 1);
            assert(starts_row(text, e, w));
            lemma_row_exists_from(text, e, p, w);
            let tail = rows_from(text, e, w);
            assert(rows.len() == 1 + tail.len());
            assert(rows[visual_row(text, p, w) - from_s] == tail[visual_row(text, p, w) - from_s
                - 1]);
        }
    }
}

/// The cursor's row is one of the wrapped lines, and its column lies
/// within that line or just behind it: the cursor can always be shown in
/// the wrapped text.
pub proof fn lemma_cursor_on_wrapped_line(text: Seq<char>, cursor: int, width: int)
    requires
        0 <= cursor,
    ensures
        0 <= cursor_row_col(text, cursor, width).0 < wrap_spec(text, floor_width(width)).len(),
        0 <= cursor_row_col(text, cursor, width).1 <= wrap_spec(
            text,
            floor_width(width),
        )[cursor_row_col(text, cursor, width).0].len(),
{
    let w = floor_width(width);
    let p = clamp_pos(text, cursor);
    lemma_small_mod(0, w as nat);
    lemma_row_exists_from(text, 0, p, w);
    lemma_rows_are_wrapped(text, w);
    lemma_line_start_bounds(text, p);
}

/// An offset found by row and column lies in that row: the row's text
/// begins at the offset of its column 0, and the column is held to the
/// row's length. A row past the last gives the end of the text.
pub proof fn lemma_locate_in_row(text: Seq<char>, s: int, row: int, col: int, w: int)
    requires
        w >= 1,
        0 <= s <= text.len(),
        0 <= row,
        0 <= col,
    ensures
        row < rows_from(text, s, w).len() ==> {
            let start = locate(text, s, row, 0, w);
            let line = rows_from(text, s, w)[row];
            &&& s <= start
            &&& start + line.len() <= text.len()
            &&& text.subrange(start, start + line.len()) == line
            &&& locate(text, s, row, col, w) == start + if col < line.len() {
                col
            } else {
                line.len() as int
            }
        },
        row >= rows_from(text, s, w).len() ==> locate(text, s, row, col, w) == text.len(),
    decreases row,
{
    let e = row_end(text, s, w);
    let rows = rows_from(text, s, w);
    lemma_line_end_bounds(text, s);
    assert(s <= e <= text.len());
    if e < text.len() && text[e] != '\n' {
        assert(e == s + w);
    }
    if row == 0 {
        assert(rows[0] =~= text.subrange(s, e));
        assert(locate(text, s, 0, 0, w) == s);
    } else if e >= text.len() {
        assert(rows.len() == 1);
    } else if text[e] == '\n' {
        lemma_locate_in_row(text, e + 1, row - 1, col, w);
        lemma_locate_in_row(text, e + 1, row - 1, 0, w);
        let tail = rows_from(text, e + 1, w);
        assert(rows.len() == 1 + tail.len());
        if row < rows.len() {
            assert(rows[row] == tail[row - 1]);
        }
    } else {
        lemma_locate_in_row(text, e, row - 1, col, w);
        lemma_locate_in_row(text, e, row - 1, 0, w);
        let tail = rows_from(text, e, w);
        assert(rows.len() == 1 + tail.len());
        if row < rows.len() {
            assert(rows[row] == tail[row - 1]);
        }
    }
}

proof fn lemma_cell_from(text: Seq<char>, s: int, row: int, col: int, w: int)
    requires
        w >= 1,
        0 <= s <= text.len(),
        starts_row(text, s, w),
        0 <= row < rows_from(text, s, w).len(),
        0 <= col <= rows_from(text, s, w)[row].len(),
        col < rows_from(text, s, w)[row].len() || locate(text, s, row, col, w) >= text.len()
            || text[locate(text, s, row, col, w)] == '\n',
    ensures
        visual_row(text, locate(text, s, row, col, w), w) == visual_row(text, s, w) + row,
        visual_col(text, locate(text, s, row, col, w), w) == col,
    decreases row,
{
    let n = text.len() as int;
    let e = row_end(text, s, w);
    let a = s - line_start(text, s);
    let rows = rows_from(text, s, w);
    let p = locate(text, s, row, col, w);
    lemma_line_end_bounds(text, s);
    lemma_line_start_bounds(text, s);
    assert(s <= e <= n && e - s <= w);
    assert(forall|i: int| s <= i < e ==> text[i] != '\n');
    if e < n && text[e] != '\n' {
        assert(e == s + w);
    }
    let from_s = breaks_before(text, s, w) + if a > 0 {
        1int
    } else {
        0int
    };
    if s < n {
        assert(visual_row(text, s, w) == from_s);
    }
    if row == 0 {
        assert(rows[0] =~= text.subrange(s, e));
        assert(p == s + col);
        lemma_same_line(text, s, p);
        lemma_breaks_in_row(text, s, p, w);
        assert(p - line_start(text, p) == a + col);
        if col < w {
            lemma_mod_step(a, col, w);
            if col > 0 {
                assert(!at_full_row_end(text, p, w));
                assert(visual_row(text, p, w) == breaks_before(text, p, w));
            }
        } else {
            lemma_mod_step(a, w, w);
            assert(at_full_row_end(text, p, w));
            assert(visual_row(text, p, w) == breaks_before(text, p, w));
        }
    } else {
        assert(e < n);
        lemma_same_line(text, s, e);
        lemma_breaks_in_row(text, s, e, w);
        if text[e] == '\n' {
            assert(line_start(text, e + 1) == e + 1);
            assert(row_break_at(text, e, w));
            assert(breaks_before(text, e + 1, w) == breaks_before(text, e, w) + 1);
            if e == s {
                assert(a == 0);
            }
            lemma_small_mod(0, w as nat);
            assert(starts_row(text, e + 1, w));
            assert(visual_row(text, e + 1, w) == from_s + 1);
            let tail = rows_from(text, e + 1, w);
            assert(rows.len() == 1 + tail.len());
            assert(rows[row] == tail[row - 1]);
            assert(p == locate(text, e + 1, row - 1, col, w));
            lemma_cell_from(text, e + 1, row - 1, col, w);
        } else {
            lemma_mod_step(a, w, w);
            assert(e - line_start(text, e) == a + w);
            assert(starts_row(text, e, w));
            assert(visual_row(text, e, w) == from_s + 1);
            let tail = rows_from(text, e, w);
            assert(rows.len() == 1 + tail.len());
            assert(rows[row] == tail[row - 1]);
            assert(p == locate(text, e, row - 1, col, w));
            lemma_cell_from(text, e, row - 1, col, w);
        }
    }
}

/// From a cell of the wrapped text to its offset and back gives the cell
/// again: for every wrapped line and every column inside it, and for the
/// column behind its last character where the line ends its paragraph or
/// the text. (Behind a line that was cut, the offset is the start of the
/// next line.) So no two wrapped lines share an offset.
pub proof fn lemma_cell_round_trip(text: Seq<char>, row: int, col: int, width: int)
    requires
        0 <= row < wrap_spec(text, floor_width(width)).len(),
        0 <= col <= wrap_spec(text, floor_width(width))[row].len(),
        col < wrap_spec(text, floor_width(width))[row].len() || offset_at(text, row, col, width)
            >= text.len() || text[offset_at(text, row, col, width)] == '\n',
    ensures
        0 <= offset_at(text, row, col, width) <= text.len(),
        cursor_row_col(text, offset_at(text, row, col, width), width) == (row, col),
{
    let w = floor_width(width);
    lemma_rows_are_wrapped(text, w);
    lemma_small_mod(0, w as nat);
    lemma_cell_from(text, 0, row, col, w);
    lemma_locate_in_row(text, 0, row, col, w);
    lemma_locate_in_row(text, 0, row, 0, w);
}

} // verus!
