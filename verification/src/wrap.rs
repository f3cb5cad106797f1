//! Fixed-width wrapping: a text becomes the sequence of visual lines that a
//! pane of a given width shows.

use vstd::prelude::*;
use crate::text::{rows_view, strs_view, lines_of, lines_from, line_end, joined, lemma_line_end_bounds, lemma_rows_push, lemma_strs_push, slice_of, split_lines, string_of, chars_of};

verus! {

/// The pieces of `p[from..]`, each `w` characters long but for the last.
pub open spec fn chunks_from(p: Seq<char>, from: int, w: int) -> Seq<Seq<char>>
    decreases p.len() - from,
{
    if from < 0 || from >= p.len() || w <= 0 {
        Seq::empty()
    } else if from + w >= p.len() {
        seq![p.subrange(from, p.len() as int)]
    } else {
        seq![p.subrange(from, from + w)] + chunks_from(p, from + w, w)
    }
}

/// One paragraph (a text without newlines) wrapped at `w >= 1`: an empty
/// paragraph is one empty line, any other is cut every `w` characters.
pub open spec fn wrap_paragraph(p: Seq<char>, w: int) -> Seq<Seq<char>> {
    if p.len() == 0 {
        seq![Seq::empty()]
    } else {
        chunks_from(p, 0, w)
    }
}

/// The paragraphs wrapped one after another.
pub open spec fn wrap_all(paragraphs: Seq<Seq<char>>, w: int) -> Seq<Seq<char>>
    decreases paragraphs.len(),
{
    if paragraphs.len() == 0 {
        Seq::empty()
    } else {
        wrap_all(paragraphs.drop_last(), w) + wrap_paragraph(paragraphs.last(), w)
    }
}

/// The visual lines of `text` at width `w`. Width 0 leaves the text whole.
pub open spec fn wrap_spec(text: Seq<char>, w: int) -> Seq<Seq<char>> {
    if w <= 0 {
        seq![text]
    } else {
        wrap_all(lines_of(text), w)
    }
}

/// Appends the wrapped paragraph `p` to `out`.
pub fn wrap_paragraph_into(p: &Vec<char>, width: usize, out: &mut Vec<Vec<char>>)
    requires
        width >= 1,
    ensures
        rows_view(final(out)@) == rows_view(old(out)@) + wrap_paragraph(p@, width as int),
{
    let n = p.len();
    if n == 0 {
        let empty: Vec<char> = Vec::new();
        proof {
            lemma_rows_push(out@, empty);
            assert(rows_view(out@).push(empty@) =~= rows_view(out@) + wrap_paragraph(
                p@,
                width as int,
            ));
        }
        out.push(empty);
        return ;
    }
    let mut start: usize = 0;
    while start < n
        invariant
            n == p.len(),
            width >= 1,
            start <= n,
            rows_view(out@) + chunks_from(p@, start as int, width as int) == rows_view(old(out)@)
                + chunks_from(p@, 0, width as int),
        decreases n - start,
    {
        let end: usize = if n - start <= width {
            n
        } else {
            start + width
        };
        let seg = slice_of(p, start, end);
        proof {
            lemma_rows_push(out@, seg);
            assert(rows_view(out@).push(seg@) + chunks_from(p@, end as int, width as int)
                =~= rows_view(out@) + chunks_from(p@, start as int, width as int));
        }
        out.push(seg);
        start = end;
    }
}

/// The visual lines of `text` at `width`, as character vectors.
pub fn wrap_chars(text: &Vec<char>, width: usize) -> (out: Vec<Vec<char>>)
    ensures
        rows_view(out@) == wrap_spec(text@, width as int),
{
    let mut out: Vec<Vec<char>> = Vec::new();
    if width == 0 {
        let whole = slice_of(text, 0, text.len());
        proof {
            assert(text@.subrange(0, text.len() as int) =~= text@);
            lemma_rows_push(out@, whole);
            assert(rows_view(out@).push(whole@) =~= seq![text@]);
        }
        out.push(whole);
        return out;
    }
    let paragraphs = split_lines(text);
    let ghost ps = rows_view(paragraphs@);
    let mut k: usize = 0;
    assert(rows_view(out@) =~= wrap_all(ps.take(0), width as int));
    while k < paragraphs.len()
        invariant
            width >= 1,
            k <= paragraphs.len(),
            ps == rows_view(paragraphs@),
            rows_view(out@) == wrap_all(ps.take(k as int), width as int),
        decreases paragraphs.len() - k,
    {
        proof {
            assert(ps.take(k as int + 1).drop_last() =~= ps.take(k as int));
            assert(ps.take(k as int + 1).last() == paragraphs@[k as int]@);
        }
        wrap_paragraph_into(&paragraphs[k], width, &mut out);
        k += 1;
    }
    assert(ps.take(k as int) =~= ps);
    out
}

/// Each row as a string.
pub fn strings_of(rows: &Vec<Vec<char>>) -> (out: Vec<String>)
    ensures
        strs_view(out@) == rows_view(rows@),
{
    let mut out: Vec<String> = Vec::new();
    let mut k: usize = 0;
    assert(strs_view(out@) =~= rows_view(rows@).take(0));
    while k < rows.len()
        invariant
            k <= rows.len(),
            strs_view(out@) == rows_view(rows@).take(k as int),
        decreases rows.len() - k,
    {
        let s = string_of(&rows[k]);
        proof {
            lemma_strs_push(out@, s);
            assert(strs_view(out@).push(s@) =~= rows_view(rows@).take(k as int + 1));
        }
        out.push(s);
        k += 1;
    }
    assert(rows_view(rows@).take(k as int) =~= rows_view(rows@));
    out
}

/// Wraps `text` at `width` columns. The text is split at newlines, and each
/// paragraph is cut every `width` characters, with no regard for words; an
/// empty paragraph gives one empty line. Width 0 gives the text back whole.
pub fn wrap_text(text: &str, width: usize) -> (out: Vec<String>)
    ensures
        strs_view(out@) == wrap_spec(text@, width as int),
{
    let chars = chars_of(text);
    let rows = wrap_chars(&chars, width);
    strings_of(&rows)
}

/// The text holds no newline.
pub open spec fn no_newline(s: Seq<char>) -> bool {
    forall|i: int| 0 <= i < s.len() ==> s[i] != '\n'
}

/// The text fits one visual row of width `w`.
pub open spec fn fits_row(s: Seq<char>, w: int) -> bool {
    s.len() <= w && no_newline(s)
}

proof fn lemma_line_end_prefix(a: Seq<char>, t: Seq<char>, from: int)
    requires
        0 <= from <= a.len() < t.len(),
        forall|i: int| 0 <= i < a.len() ==> t[i] == a[i],
        t[a.len() as int] == '\n',
    ensures
        line_end(t, from) == line_end(a, from),
    decreases a.len() - from,
{
    if from < a.len() && a[from] != '\n' {
        lemma_line_end_prefix(a, t, from + 1);
    }
}

proof fn lemma_line_end_none(t: Seq<char>, from: int)
    requires
        0 <= from <= t.len(),
        forall|i: int| from <= i < t.len() ==> t[i] != '\n',
    ensures
        line_end(t, from) == t.len(),
    decreases t.len() - from,
{
    if from < t.len() {
        lemma_line_end_none(t, from + 1);
    }
}

proof fn lemma_lines_append(a: Seq<char>, b: Seq<char>, from: int)
    requires
        no_newline(b),
        0 <= from <= a.len(),
    ensures
        lines_from(a.push('\n') + b, from) == lines_from(a, from).push(b),
    decreases a.len() - from,
{
    let t = a.push('\n') + b;
    let e = line_end(a, from);
    lemma_line_end_prefix(a, t, from);
    lemma_line_end_bounds(a, from);
    if e < a.len() {
        lemma_lines_append(a, b, e + 1);
        assert(t.subrange(from, e) =~= a.subrange(from, e));
        assert(lines_from(t, from) =~= lines_from(a, from).push(b));
    } else {
        let m = a.len() as int + 1;
        assert forall|i: int| m <= i < t.len() implies t[i] != '\n' by {
            assert(t[i] == b[i - m]);
        }
        lemma_line_end_none(t, m);
        assert(t.subrange(m, t.len() as int) =~= b);
        assert(t.subrange(from, e) =~= a.subrange(from, a.len() as int));
        assert(lines_from(t, m) =~= seq![b]);
        assert(lines_from(t, from) =~= lines_from(a, from).push(b));
    }
}

/// Splitting what was joined gives the lines back, where none of them holds
/// a newline.
pub proof fn lemma_lines_of_joined(lines: Seq<Seq<char>>)
    requires
        lines.len() >= 1,
        forall|i: int| 0 <= i < lines.len() ==> no_newline(#[trigger] lines[i]),
    ensures
        lines_of(joined(lines)) == lines,
    decreases lines.len(),
{
    if lines.len() == 1 {
        assert(no_newline(lines[0]));
        lemma_line_end_none(lines[0], 0);
        assert(lines[0].subrange(0, lines[0].len() as int) =~= lines[0]);
        assert(lines_of(joined(lines)) =~= lines);
    } else {
        let front = lines.drop_last();
        assert forall|i: int| 0 <= i < front.len() implies no_newline(#[trigger] front[i]) by {
            assert(front[i] == lines[i]);
        }
        lemma_lines_of_joined(front);
        assert(no_newline(lines[lines.len() - 1]));
        lemma_lines_append(joined(front), lines.last(), 0);
        assert(front.push(lines.last()) =~= lines);
    }
}

proof fn lemma_wrap_all_short(lines: Seq<Seq<char>>, w: int)
    requires
        w >= 1,
        forall|i: int| 0 <= i < lines.len() ==> (#[trigger] lines[i]).len() <= w,
    ensures
        wrap_all(lines, w) == lines,
    decreases lines.len(),
{
    if lines.len() > 0 {
        let front = lines.drop_last();
        assert forall|i: int| 0 <= i < front.len() implies (#[trigger] front[i]).len() <= w by {
            assert(front[i] == lines[i]);
        }
        lemma_wrap_all_short(front, w);
        let last = lines.last();
        assert(lines[lines.len() - 1].len() <= w);
        assert(last.subrange(0, last.len() as int) =~= last);
        if last.len() == 0 {
            assert(last =~= Seq::<char>::empty());
        } else {
            assert(chunks_from(last, 0, w) == seq![last.subrange(0, last.len() as int)]);
        }
        assert(wrap_paragraph(last, w) =~= seq![last]);
        assert(wrap_all(lines, w) =~= lines);
    } else {
        assert(wrap_all(lines, w) =~= lines);
    }
}

proof fn lemma_chunks_fit(p: Seq<char>, from: int, w: int)
    requires
        w >= 1,
        no_newline(p),
        0 <= from,
    ensures
        forall|i: int|
            0 <= i < chunks_from(p, from, w).len() ==> fits_row(
                #[trigger] chunks_from(p, from, w)[i],
                w,
            ),
        from < p.len() ==> chunks_from(p, from, w).len() >= 1,
    decreases p.len() - from,
{
    if from < p.len() && from + w < p.len() {
        lemma_chunks_fit(p, from + w, w);
    }
}

proof fn lemma_lines_no_newline(text: Seq<char>, from: int)
    requires
        0 <= from <= text.len(),
    ensures
        forall|i: int|
            0 <= i < lines_from(text, from).len() ==> no_newline(
                #[trigger] lines_from(text, from)[i],
            ),
        lines_from(text, from).len() >= 1,
    decreases text.len() - from,
{
    lemma_line_end_bounds(text, from);
    let e = line_end(text, from);
    if e < text.len() {
        lemma_lines_no_newline(text, e + 1);
    }
}

proof fn lemma_wrap_all_fit(lines: Seq<Seq<char>>, w: int)
    requires
        w >= 1,
        forall|i: int| 0 <= i < lines.len() ==> no_newline(#[trigger] lines[i]),
    ensures
        forall|i: int|
            0 <= i < wrap_all(lines, w).len() ==> fits_row(#[trigger] wrap_all(lines, w)[i], w),
        lines.len() >= 1 ==> wrap_all(lines, w).len() >= 1,
    decreases lines.len(),
{
    if lines.len() > 0 {
        let front = lines.drop_last();
        assert forall|i: int| 0 <= i < front.len() implies no_newline(#[trigger] front[i]) by {
            assert(front[i] == lines[i]);
        }
        lemma_wrap_all_fit(front, w);
        assert(no_newline(lines[lines.len() - 1]));
        lemma_chunks_fit(lines.last(), 0, w);
        let head = wrap_all(front, w);
        let tail = wrap_paragraph(lines.last(), w);
        assert forall|i: int| 0 <= i < wrap_all(lines, w).len() implies fits_row(
            #[trigger] wrap_all(lines, w)[i],
            w,
        ) by {
            if i < head.len() {
                assert(wrap_all(lines, w)[i] == head[i]);
            } else {
                assert(wrap_all(lines, w)[i] == tail[i - head.len()]);
            }
        }
    }
}

/// Every visual line fits its row: at a width of at least 1 it is no longer
/// than the width and holds no newline, and there is at least one line.
pub proof fn lemma_wrap_fits(text: Seq<char>, w: int)
    requires
        w >= 1,
    ensures
        wrap_spec(text, w).len() >= 1,
        forall|i: int|
            0 <= i < wrap_spec(text, w).len() ==> fits_row(#[trigger] wrap_spec(text, w)[i], w),
{
    lemma_lines_no_newline(text, 0);
    lemma_wrap_all_fit(lines_of(text), w);
}

/// Wrapping is idempotent: the visual lines of a text, joined by newlines
/// and wrapped again at the same width, are the same visual lines.
pub proof fn lemma_wrap_idempotent(text: Seq<char>, w: int)
    ensures
        wrap_spec(joined(wrap_spec(text, w)), w) == wrap_spec(text, w),
{
    if w >= 1 {
        let segs = wrap_spec(text, w);
        lemma_wrap_fits(text, w);
        assert forall|i: int| 0 <= i < segs.len() implies no_newline(#[trigger] segs[i]) by {
            assert(fits_row(segs[i], w));
        }
        assert forall|i: int| 0 <= i < segs.len() implies (#[trigger] segs[i]).len() <= w by {
            assert(fits_row(segs[i], w));
        }
        lemma_lines_of_joined(segs);
        lemma_wrap_all_short(segs, w);
    } else {
        assert(joined(seq![text]) == text);
    }
}

} // verus!
