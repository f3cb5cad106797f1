//! The rows of the rendered chat before a selection is painted on them: each
//! row is a sequence of styled spans, and may carry copy buttons.

use vstd::prelude::*;
use crate::text::{rows_view, slice_of, append_chars, chars_of, string_of, whitespace};
use crate::wrap::{wrap_spec, wrap_chars};

verus! {

/// How a span is painted.
#[derive(Clone, Copy, Debug, PartialEq, Eq, Structural)]
pub enum SpanStyle {
    Plain,
    SystemHeader,
    UserHeader,
    AssistantHeader,
    Code,
    Border,
    Button,
    Lang,
    Highlight,
}

/// A run of text in one style.
pub struct StyledSpan {
    pub text: String,
    pub style: SpanStyle,
}

impl View for StyledSpan {
    type V = (Seq<char>, SpanStyle);

    open spec fn view(&self) -> (Seq<char>, SpanStyle) {
        (self.text@, self.style)
    }
}

/// The views of the spans.
pub open spec fn spans_view(v: Seq<StyledSpan>) -> Seq<(Seq<char>, SpanStyle)> {
    v.map_values(|s: StyledSpan| s@)
}

/// The text of a line: its spans' texts, one after another.
pub open spec fn span_text(spans: Seq<(Seq<char>, SpanStyle)>) -> Seq<char>
    decreases spans.len(),
{
    if spans.len() == 0 {
        Seq::empty()
    } else {
        span_text(spans.drop_last()) + spans.last().0
    }
}

/// A row as contracts see it: its spans, whether a selection is painted on
/// it, and its copy buttons as (column, text to copy).
pub struct RowSpec {
    pub spans: Seq<(Seq<char>, SpanStyle)>,
    pub selectable: bool,
    pub buttons: Seq<(int, Seq<char>)>,
}

/// A row of the chat.
pub struct Row {
    pub spans: Vec<StyledSpan>,
    pub selectable: bool,
    pub buttons: Vec<(usize, String)>,
}

/// The views of a row's buttons.
pub open spec fn row_buttons_view(v: Seq<(usize, String)>) -> Seq<(int, Seq<char>)> {
    v.map_values(|b: (usize, String)| (b.0 as int, b.1@))
}

impl View for Row {
    type V = RowSpec;

    open spec fn view(&self) -> RowSpec {
        RowSpec {
            spans: spans_view(self.spans@),
            selectable: self.selectable,
            buttons: row_buttons_view(self.buttons@),
        }
    }
}

/// The views of the rows.
pub open spec fn row_specs(v: Seq<Row>) -> Seq<RowSpec> {
    v.map_values(|r: Row| r@)
}

/// A row of one span, on which a selection shows.
pub open spec fn text_row(text: Seq<char>, style: SpanStyle) -> RowSpec {
    RowSpec { spans: seq![(text, style)], selectable: true, buttons: Seq::empty() }
}

/// The empty row that closes a message.
pub open spec fn separator_row() -> RowSpec {
    RowSpec {
        spans: seq![(Seq::empty(), SpanStyle::Plain)],
        selectable: false,
        buttons: Seq::empty(),
    }
}

/// One text row per segment, each behind `prefix`.
pub open spec fn prefixed_rows(segs: Seq<Seq<char>>, prefix: Seq<char>, style: SpanStyle) -> Seq<
    RowSpec,
> {
    segs.map_values(|s: Seq<char>| text_row(prefix + s, style))
}

/// The rows of the lines, each wrapped at `w` and put behind `prefix`.
pub open spec fn wrapped_all(lines: Seq<Seq<char>>, w: int, prefix: Seq<char>, style: SpanStyle) -> Seq<
    RowSpec,
>
    decreases lines.len(),
{
    if lines.len() == 0 {
        Seq::empty()
    } else {
        wrapped_all(lines.drop_last(), w, prefix, style) + prefixed_rows(
            wrap_spec(lines.last(), w),
            prefix,
            style,
        )
    }
}

/// `n` horizontal bars.
pub open spec fn dashes(n: int) -> Seq<char> {
    if n <= 0 {
        Seq::empty()
    } else {
        Seq::new(n as nat, |i: int| '─')
    }
}

/// The index of the first character at or after `from` that is no
/// whitespace, or the length of the line.
pub open spec fn skip_ws(line: Seq<char>, from: int) -> int
    decreases line.len() - from,
{
    if from >= line.len() {
        line.len() as int
    } else if from < 0 || !whitespace(line[from]) {
        from
    } else {
        skip_ws(line, from + 1)
    }
}

/// The index of the first character at or after `from` that is no backtick,
/// or the length of the line.
pub open spec fn skip_ticks(line: Seq<char>, from: int) -> int
    decreases line.len() - from,
{
    if from >= line.len() {
        line.len() as int
    } else if from < 0 || line[from] != '`' {
        from
    } else {
        skip_ticks(line, from + 1)
    }
}

/// The end of `line[lo..hi]` once trailing whitespace is cut.
pub open spec fn trim_end(line: Seq<char>, lo: int, hi: int) -> int
    decreases hi - lo,
{
    if hi <= lo {
        lo
    } else if lo < 0 || hi > line.len() || !whitespace(line[hi - 1]) {
        hi
    } else {
        trim_end(line, lo, hi - 1)
    }
}

/// Whether the line opens or closes a fenced code block: after leading
/// whitespace it begins with three backticks.
pub open spec fn is_fence(line: Seq<char>) -> bool {
    let k = skip_ws(line, 0);
    k + 3 <= line.len() && line[k] == '`' && line[k + 1] == '`' && line[k + 2] == '`'
}

/// The language tag of a fence line: what follows the backticks, trimmed.
pub open spec fn fence_lang(line: Seq<char>) -> Seq<char> {
    let s = skip_ws(line, skip_ticks(line, skip_ws(line, 0)));
    line.subrange(s, trim_end(line, s, line.len() as int))
}

/// The tag as the top border shows it: padded with a space on either side,
/// or nothing for no tag.
pub open spec fn lang_display(lang: Seq<char>) -> Seq<char> {
    if lang.len() == 0 {
        Seq::empty()
    } else {
        seq![' '] + lang + seq![' ']
    }
}

/// The number of bars that fill the top border up to `width`: what is left
/// of the width after the corner, the tag, one space and the button.
pub open spec fn border_fill(lang: Seq<char>, width: int) -> int {
    let need = 4 + lang_display(lang).len() + 1 + 2;
    if width > need {
        width - need
    } else {
        0
    }
}

/// The top border of a code block, up to the button.
pub open spec fn top_border(lang: Seq<char>, width: int) -> Seq<char> {
    "  ──"@ + lang_display(lang) + dashes(border_fill(lang, width)) + seq![' ']
}

/// The row above a code block: border, tag and a button that copies `code`.
pub open spec fn top_row(lang: Seq<char>, code: Seq<char>, width: int) -> RowSpec {
    RowSpec {
        spans: if lang.len() == 0 {
            seq![(top_border(lang, width), SpanStyle::Border), (" ⎘"@, SpanStyle::Button)]
        } else {
            seq![
                ("  ──"@, SpanStyle::Border),
                (lang_display(lang), SpanStyle::Lang),
                (dashes(border_fill(lang, width)) + seq![' '], SpanStyle::Border),
                (" ⎘"@, SpanStyle::Button),
            ]
        },
        selectable: false,
        buttons: seq![(top_border(lang, width).len() as int, code)],
    }
}

/// The row below a code block.
pub open spec fn bottom_row(width: int) -> RowSpec {
    RowSpec {
        spans: seq![("  └"@ + dashes(width - 3), SpanStyle::Border)],
        selectable: false,
        buttons: Seq::empty(),
    }
}

/// The views of rows with one more row are the views with one more view.
pub proof fn lemma_row_push(v: Seq<Row>, r: Row)
    ensures
        row_specs(v.push(r)) == row_specs(v).push(r@),
{
    assert(row_specs(v.push(r)) =~= row_specs(v).push(r@));
}

/// One more span adds its view to the views and its text to the line's
/// text.
pub proof fn lemma_span_push(v: Seq<StyledSpan>, s: StyledSpan)
    ensures
        spans_view(v.push(s)) == spans_view(v).push(s@),
        span_text(spans_view(v.push(s))) == span_text(spans_view(v)) + s.text@,
{
    assert(spans_view(v.push(s)) =~= spans_view(v).push(s@));
    assert(spans_view(v).push(s@).drop_last() =~= spans_view(v));
}

/// A span of the characters `text` in `style`.
pub fn span_of(text: &Vec<char>, style: SpanStyle) -> (s: StyledSpan)
    ensures
        s@ == (text@, style),
{
    StyledSpan { text: string_of(text), style }
}

/// A row of one span, on which a selection shows.
pub fn text_row_of(text: &Vec<char>, style: SpanStyle) -> (r: Row)
    ensures
        r@ == text_row(text@, style),
{
    let mut spans: Vec<StyledSpan> = Vec::new();
    spans.push(span_of(text, style));
    let buttons: Vec<(usize, String)> = Vec::new();
    let r = Row { spans, selectable: true, buttons };
    assert(r@.spans =~= seq![(text@, style)]);
    assert(r@.buttons =~= Seq::empty());
    r
}

/// A row of the given spans, on which no selection shows.
pub fn fixed_row_of(spans: Vec<StyledSpan>, buttons: Vec<(usize, String)>) -> (r: Row)
    ensures
        r@ == (RowSpec {
            spans: spans_view(spans@),
            selectable: false,
            buttons: row_buttons_view(buttons@),
        }),
{
    Row { spans, selectable: false, buttons }
}

/// Appends to `rows` the rows of `line`, wrapped at `w` and put behind
/// `prefix`.
pub fn push_wrapped(
    line: &Vec<char>,
    w: usize,
    prefix: &Vec<char>,
    style: SpanStyle,
    rows: &mut Vec<Row>,
)
    ensures
        row_specs(final(rows)@) == row_specs(old(rows)@) + prefixed_rows(
            wrap_spec(line@, w as int),
            prefix@,
            style,
        ),
{
    let segs = wrap_chars(line, w);
    let ghost target = prefixed_rows(wrap_spec(line@, w as int), prefix@, style);
    let mut k: usize = 0;
    assert(row_specs(rows@) =~= row_specs(old(rows)@) + target.take(0));
    while k < segs.len()
        invariant
            k <= segs.len(),
            rows_view(segs@) == wrap_spec(line@, w as int),
            target == prefixed_rows(wrap_spec(line@, w as int), prefix@, style),
            row_specs(rows@) == row_specs(old(rows)@) + target.take(k as int),
        decreases segs.len() - k,
    {
        let mut text: Vec<char> = Vec::new();
        append_chars(&mut text, prefix);
        append_chars(&mut text, &segs[k]);
        let row = text_row_of(&text, style);
        proof {
            lemma_row_push(rows@, row);
            assert(text@ =~= prefix@ + rows_view(segs@)[k as int]);
            assert(row_specs(rows@).push(row@) =~= row_specs(old(rows)@) + target.take(
                k as int + 1,
            ));
        }
        rows.push(row);
        k += 1;
    }
    assert(target.take(k as int) =~= target);
}

/// Appends `n` horizontal bars to `out`.
pub fn push_dashes(out: &mut Vec<char>, n: usize)
    ensures
        final(out)@ == old(out)@ + dashes(n as int),
{
    let mut k: usize = 0;
    assert(out@ =~= old(out)@ + dashes(0));
    while k < n
        invariant
            k <= n,
            out@ == old(out)@ + dashes(k as int),
        decreases n - k,
    {
        out.push('─');
        k += 1;
        assert(out@ =~= old(out)@ + dashes(k as int));
    }
}

/// The index of the first character at or after `from` that is no
/// whitespace.
pub fn skip_ws_of(line: &Vec<char>, from: usize) -> (k: usize)
    requires
        from <= line.len(),
    ensures
        k as int == skip_ws(line@, from as int),
        from <= k <= line.len(),
{
    let mut k: usize = from;
    while k < line.len() && line[k].is_whitespace()
        invariant
            from <= k <= line.len(),
            skip_ws(line@, k as int) == skip_ws(line@, from as int),
        decreases line.len() - k,
    {
        k += 1;
    }
    k
}

/// Whether the line opens or closes a fenced code block.
pub fn is_fence_line(line: &Vec<char>) -> (b: bool)
    ensures
        b == is_fence(line@),
{
    let k = skip_ws_of(line, 0);
    line.len() - k >= 3 && line[k] == '`' && line[k + 1] == '`' && line[k + 2] == '`'
}

/// The language tag of a fence line.
pub fn fence_lang_of(line: &Vec<char>) -> (lang: Vec<char>)
    ensures
        lang@ == fence_lang(line@),
{
    let a = skip_ws_of(line, 0);
    let mut b: usize = a;
    while b < line.len() && line[b] == '`'
        invariant
            a <= b <= line.len(),
            skip_ticks(line@, b as int) == skip_ticks(line@, a as int),
        decreases line.len() - b,
    {
        b += 1;
    }
    let s = skip_ws_of(line, b);
    let mut e: usize = line.len();
    while e > s && line[e - 1].is_whitespace()
        invariant
            s <= e <= line.len(),
            trim_end(line@, s as int, e as int) == trim_end(line@, s as int, line.len() as int),
        decreases e,
    {
        e -= 1;
    }
    slice_of(line, s, e)
}

/// The row above a code block in a pane of `width` columns.
pub fn top_row_of(lang: &Vec<char>, code: &Vec<char>, width: usize) -> (r: Row)
    ensures
        r@ == top_row(lang@, code@, width as int),
{
    let corner = chars_of("  ──");
    let button = chars_of(" ⎘");
    let mut display: Vec<char> = Vec::new();
    if lang.len() > 0 {
        display.push(' ');
        append_chars(&mut display, lang);
        display.push(' ');
    }
    assert(display@ =~= lang_display(lang@));
    proof {
        reveal_strlit("  ──");
        reveal_strlit(" ⎘");
    }
    let shown: usize = display.len();
    let fill: usize = if width > shown && width - shown > 7 {
        width - shown - 7
    } else {
        0
    };
    assert(fill as int == border_fill(lang@, width as int));
    let mut tail: Vec<char> = Vec::new();
    push_dashes(&mut tail, fill);
    tail.push(' ');
    let mut border: Vec<char> = Vec::new();
    append_chars(&mut border, &corner);
    append_chars(&mut border, &display);
    append_chars(&mut border, &tail);
    assert(tail@ =~= dashes(fill as int) + seq![' ']);
    assert(border@ =~= top_border(lang@, width as int));
    let mut spans: Vec<StyledSpan> = Vec::new();
    if lang.len() == 0 {
        spans.push(span_of(&border, SpanStyle::Border));
        spans.push(span_of(&button, SpanStyle::Button));
    } else {
        spans.push(span_of(&corner, SpanStyle::Border));
        spans.push(span_of(&display, SpanStyle::Lang));
        spans.push(span_of(&tail, SpanStyle::Border));
        spans.push(span_of(&button, SpanStyle::Button));
    }
    let mut buttons: Vec<(usize, String)> = Vec::new();
    buttons.push((border.len(), string_of(code)));
    let r = fixed_row_of(spans, buttons);
    assert(r@.spans =~= top_row(lang@, code@, width as int).spans);
    assert(r@.buttons =~= top_row(lang@, code@, width as int).buttons);
    r
}

/// The row below a code block in a pane of `width` columns.
pub fn bottom_row_of(width: usize) -> (r: Row)
    ensures
        r@ == bottom_row(width as int),
{
    let mut text = chars_of("  └");
    let n: usize = if width > 3 {
        width - 3
    } else {
        0
    };
    assert(dashes(n as int) == dashes(width as int - 3));
    push_dashes(&mut text, n);
    let mut spans: Vec<StyledSpan> = Vec::new();
    spans.push(span_of(&text, SpanStyle::Border));
    let buttons: Vec<(usize, String)> = Vec::new();
    let r = fixed_row_of(spans, buttons);
    assert(r@.spans =~= bottom_row(width as int).spans);
    assert(r@.buttons =~= bottom_row(width as int).buttons);
    r
}

/// The empty row that closes a message.
pub fn separator_row_of() -> (r: Row)
    ensures
        r@ == separator_row(),
{
    let empty: Vec<char> = Vec::new();
    let mut spans: Vec<StyledSpan> = Vec::new();
    spans.push(span_of(&empty, SpanStyle::Plain));
    let buttons: Vec<(usize, String)> = Vec::new();
    let r = fixed_row_of(spans, buttons);
    assert(r@.spans =~= separator_row().spans);
    assert(r@.buttons =~= separator_row().buttons);
    r
}

} // verus!
