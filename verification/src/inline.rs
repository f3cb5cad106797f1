//! Inline code: the spans of a line that single backticks delimit, and the
//! row that shows them with a copy button each.

use vstd::prelude::*;
use crate::text::{slice_of, append_chars, chars_of, string_of};
use crate::wrap::wrap_spec;
use crate::rows::{
    SpanStyle, StyledSpan, RowSpec, Row, spans_view, span_text, row_buttons_view, row_specs,
    prefixed_rows, lemma_row_push, lemma_span_push, span_of, fixed_row_of, push_wrapped,
};

verus! {

/// The index of the first backtick at or after `from`, or the length of the
/// text.
pub open spec fn next_tick(text: Seq<char>, from: int) -> int
    decreases text.len() - from,
{
    if from >= text.len() {
        text.len() as int
    } else if from < 0 || text[from] == '`' {
        from
    } else {
        next_tick(text, from + 1)
    }
}

/// The segments of `text[from..]`, where `from` follows a backtick or is 0
/// and `in_code` says whether a code span is open there. Backticks split the
/// text into pieces that are by turns prose and code. A closed code span is
/// kept even when empty, an empty piece of prose is dropped, and what follows
/// the last backtick is kept if it is not empty, as code if its span was
/// never closed.
pub open spec fn inline_from(text: Seq<char>, from: int, in_code: bool) -> Seq<(Seq<char>, bool)>
    decreases text.len() - from,
{
    let e = next_tick(text, from);
    if from < 0 || from > text.len() || e < from {
        Seq::empty()
    } else if e >= text.len() {
        if from < text.len() {
            seq![(text.subrange(from, text.len() as int), in_code)]
        } else {
            Seq::empty()
        }
    } else if in_code {
        seq![(text.subrange(from, e), true)] + inline_from(text, e + 1, false)
    } else if from < e {
        seq![(text.subrange(from, e), false)] + inline_from(text, e + 1, true)
    } else {
        inline_from(text, e + 1, true)
    }
}

/// The segments of a line, each with whether it is code.
pub open spec fn inline_segments(text: Seq<char>) -> Seq<(Seq<char>, bool)> {
    inline_from(text, 0, false)
}

/// The views of segments held as character vectors.
pub open spec fn segs_view(v: Seq<(Vec<char>, bool)>) -> Seq<(Seq<char>, bool)> {
    v.map_values(|s: (Vec<char>, bool)| (s.0@, s.1))
}

/// The views of segments held as strings.
pub open spec fn seg_strs_view(v: Seq<(String, bool)>) -> Seq<(Seq<char>, bool)> {
    v.map_values(|s: (String, bool)| (s.0@, s.1))
}

/// Whether any segment is code.
pub open spec fn has_code(segs: Seq<(Seq<char>, bool)>) -> bool {
    exists|i: int| 0 <= i < segs.len() && (#[trigger] segs[i]).1
}

/// The spans of a row of segments: two spaces of margin, then each segment;
/// a code segment stands between backticks and is followed by a button.
pub open spec fn inline_spans(segs: Seq<(Seq<char>, bool)>) -> Seq<(Seq<char>, SpanStyle)>
    decreases segs.len(),
{
    if segs.len() == 0 {
        seq![("  "@, SpanStyle::Plain)]
    } else {
        let prev = inline_spans(segs.drop_last());
        if segs.last().1 {
            prev.push((seq!['`'] + segs.last().0 + seq!['`'], SpanStyle::Code)).push(
                (" ⎘"@, SpanStyle::Button),
            )
        } else {
            prev.push((segs.last().0, SpanStyle::Plain))
        }
    }
}

/// The buttons of a row of segments: one per code segment, at the column
/// that follows its closing backtick.
pub open spec fn inline_buttons(segs: Seq<(Seq<char>, bool)>) -> Seq<(int, Seq<char>)>
    decreases segs.len(),
{
    if segs.len() == 0 {
        Seq::empty()
    } else {
        let prev = inline_buttons(segs.drop_last());
        if segs.last().1 {
            prev.push(
                (
                    (span_text(inline_spans(segs.drop_last())).len() + segs.last().0.len() + 2) as int,
                    segs.last().0,
                ),
            )
        } else {
            prev
        }
    }
}

/// The row that shows the segments.
pub open spec fn inline_row(segs: Seq<(Seq<char>, bool)>) -> RowSpec {
    RowSpec { spans: inline_spans(segs), selectable: false, buttons: inline_buttons(segs) }
}

/// The width of the text inside the margin: two columns less than the pane,
/// and at least one.
pub open spec fn content_width(width: int) -> int {
    if width - 2 < 1 {
        1
    } else {
        width - 2
    }
}

/// The rows of one line of an assistant message outside a code block: a
/// single unwrapped row if the line holds inline code, else the line wrapped
/// behind the margin.
pub open spec fn inline_rows(line: Seq<char>, width: int) -> Seq<RowSpec> {
    let segs = inline_segments(line);
    if has_code(segs) {
        seq![inline_row(segs)]
    } else {
        prefixed_rows(wrap_spec(line, content_width(width)), "  "@, SpanStyle::Plain)
    }
}

/// The views of segments with one more segment are the views with one
/// more view.
pub proof fn lemma_segs_push(v: Seq<(Vec<char>, bool)>, s: (Vec<char>, bool))
    ensures
        segs_view(v.push(s)) == segs_view(v).push((s.0@, s.1)),
{
    assert(segs_view(v.push(s)) =~= segs_view(v).push((s.0@, s.1)));
}

/// The segments of `text`.
pub fn inline_segments_of(text: &Vec<char>) -> (out: Vec<(Vec<char>, bool)>)
    ensures
        segs_view(out@) == inline_segments(text@),
{
    let mut out: Vec<(Vec<char>, bool)> = Vec::new();
    let n = text.len();
    let mut start: usize = 0;
    let mut i: usize = 0;
    let mut in_code = false;
    while i < n
        invariant
            n == text.len(),
            start <= i <= n,
            next_tick(text@, start as int) == next_tick(text@, i as int),
            segs_view(out@) + inline_from(text@, start as int, in_code) == inline_segments(text@),
        decreases n - i,
    {
        if text[i] == '`' {
            assert(next_tick(text@, i as int) == i);
            if in_code || i > start {
                let seg = (slice_of(text, start, i), in_code);
                proof {
                    lemma_segs_push(out@, seg);
                    assert(segs_view(out@).push((seg.0@, seg.1)) + inline_from(
                        text@,
                        i as int + 1,
                        !in_code,
                    ) =~= segs_view(out@) + inline_from(text@, start as int, in_code));
                }
                out.push(seg);
            }
            in_code = !in_code;
            start = i + 1;
        }
        i += 1;
    }
    if n > start {
        let seg = (slice_of(text, start, n), in_code);
        proof {
            lemma_segs_push(out@, seg);
            assert(segs_view(out@).push((seg.0@, seg.1)) =~= segs_view(out@) + inline_from(
                text@,
                start as int,
                in_code,
            ));
        }
        out.push(seg);
    } else {
        assert(segs_view(out@) =~= segs_view(out@) + inline_from(text@, start as int, in_code));
    }
    out
}

/// Splits `text` at single backticks into segments of prose and of code.
pub fn parse_inline_code(text: &str) -> (out: Vec<(String, bool)>)
    ensures
        seg_strs_view(out@) == inline_segments(text@),
{
    let chars = chars_of(text);
    let segs = inline_segments_of(&chars);
    let mut out: Vec<(String, bool)> = Vec::new();
    let mut k: usize = 0;
    assert(seg_strs_view(out@) =~= segs_view(segs@).take(0));
    while k < segs.len()
        invariant
            k <= segs.len(),
            out.len() == k,
            seg_strs_view(out@) == segs_view(segs@).take(k as int),
        decreases segs.len() - k,
    {
        let s = (string_of(&segs[k].0), segs[k].1);
        proof {
            let a = seg_strs_view(out@.push(s));
            let b = segs_view(segs@).take(k as int + 1);
            assert(a.len() == b.len());
            assert forall|i: int| 0 <= i < a.len() implies a[i] == b[i] by {
                if i < k {
                    assert(a[i] == seg_strs_view(out@)[i]);
                    assert(b[i] == segs_view(segs@).take(k as int)[i]);
                } else {
                    assert(a[i] == (s.0@, s.1));
                }
            }
            assert(a =~= b);
        }
        out.push(s);
        k += 1;
    }
    assert(segs_view(segs@).take(k as int) =~= segs_view(segs@));
    out
}

/// Whether any segment is code.
pub fn any_code(segs: &Vec<(Vec<char>, bool)>) -> (b: bool)
    ensures
        b == has_code(segs_view(segs@)),
{
    let mut k: usize = 0;
    while k < segs.len()
        invariant
            k <= segs.len(),
            forall|i: int| 0 <= i < k ==> !(#[trigger] segs_view(segs@)[i]).1,
        decreases segs.len() - k,
    {
        if segs[k].1 {
            assert(segs_view(segs@)[k as int].1);
            return true;
        }
        k += 1;
    }
    false
}

/// The row that shows the segments.
pub fn inline_row_of(segs: &Vec<(Vec<char>, bool)>) -> (r: Row)
    ensures
        r@ == inline_row(segs_view(segs@)),
{
    let ghost sv = segs_view(segs@);
    let margin = chars_of("  ");
    let button = chars_of(" ⎘");
    let mut spans: Vec<StyledSpan> = Vec::new();
    let mut buttons: Vec<(usize, String)> = Vec::new();
    let mut plain: Vec<char> = Vec::new();
    let first = span_of(&margin, SpanStyle::Plain);
    proof {
        lemma_span_push(spans@, first);
        assert(spans_view(spans@.push(first)) =~= inline_spans(sv.take(0)));
        assert(span_text(spans_view(spans@)) =~= Seq::<char>::empty());
    }
    spans.push(first);
    append_chars(&mut plain, &margin);
    assert(plain@ =~= span_text(spans_view(spans@)));
    assert(row_buttons_view(buttons@) =~= inline_buttons(sv.take(0)));
    let mut k: usize = 0;
    while k < segs.len()
        invariant
            k <= segs.len(),
            sv == segs_view(segs@),
            button@ == " ⎘"@,
            spans_view(spans@) == inline_spans(sv.take(k as int)),
            row_buttons_view(buttons@) == inline_buttons(sv.take(k as int)),
            plain@ == span_text(spans_view(spans@)),
        decreases segs.len() - k,
    {
        proof {
            assert(sv.take(k as int + 1).drop_last() =~= sv.take(k as int));
            assert(sv.take(k as int + 1).last() == (segs@[k as int].0@, segs@[k as int].1));
        }
        let text = &segs[k].0;
        if segs[k].1 {
            let mut code: Vec<char> = Vec::new();
            code.push('`');
            append_chars(&mut code, text);
            code.push('`');
            assert(code@ =~= seq!['`'] + text@ + seq!['`']);
            let ghost before = plain@.len();
            let s1 = span_of(&code, SpanStyle::Code);
            proof {
                lemma_span_push(spans@, s1);
            }
            spans.push(s1);
            append_chars(&mut plain, &code);
            let b = (plain.len(), string_of(text));
            assert(b.0 == before + text@.len() + 2);
            assert(row_buttons_view(buttons@.push(b)) =~= row_buttons_view(buttons@).push(
                (b.0 as int, b.1@),
            ));
            buttons.push(b);
            let s2 = span_of(&button, SpanStyle::Button);
            proof {
                lemma_span_push(spans@, s2);
            }
            spans.push(s2);
            append_chars(&mut plain, &button);
        } else {
            let s = span_of(text, SpanStyle::Plain);
            proof {
                lemma_span_push(spans@, s);
            }
            spans.push(s);
            append_chars(&mut plain, text);
        }
        k += 1;
    }
    assert(sv.take(k as int) =~= sv);
    fixed_row_of(spans, buttons)
}

/// Appends to `rows` the rows of one line of an assistant message that
/// stands outside a code block.
pub fn push_inline(line: &Vec<char>, width: usize, rows: &mut Vec<Row>)
    ensures
        row_specs(final(rows)@) == row_specs(old(rows)@) + inline_rows(line@, width as int),
{
    let segs = inline_segments_of(line);
    if any_code(&segs) {
        let row = inline_row_of(&segs);
        proof {
            lemma_row_push(rows@, row);
            assert(row_specs(rows@).push(row@) =~= row_specs(rows@) + inline_rows(
                line@,
                width as int,
            ));
        }
        rows.push(row);
    } else {
        let w: usize = if width < 3 {
            1
        } else {
            width - 2
        };
        let margin = chars_of("  ");
        push_wrapped(line, w, &margin, SpanStyle::Plain, rows);
    }
}

} // verus!
