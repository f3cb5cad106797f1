//! The renderer: from the transcript to the rows of the chat pane, then to
//! styled lines with the selection painted on them, their plain-text mirror
//! and the copy buttons.

use vstd::prelude::*;
use crate::text::{
    rows_view, strs_view, joined, total_len, lines_of, lemma_strs_push, chars_of, string_of,
    slice_of, append_chars, split_lines,
};
use crate::rows::{
    SpanStyle, StyledSpan, RowSpec, Row, spans_view, span_text, row_specs, text_row,
    separator_row, wrapped_all, fence_lang, is_fence, top_row, bottom_row,
    lemma_row_push, lemma_span_push, span_of, text_row_of, push_wrapped, is_fence_line,
    fence_lang_of, top_row_of, bottom_row_of, separator_row_of,
};
use crate::inline::{content_width, inline_rows, push_inline};
use crate::state::{MessageRole, ChatMessage, CopyButton, ChatState, messages_view, buttons_view};

verus! {

/// The number of lines from `from` up to the next fence line or the end.
pub open spec fn code_len(lines: Seq<Seq<char>>, from: int) -> nat
    decreases lines.len() - from,
{
    if from < 0 || from >= lines.len() || is_fence(lines[from]) {
        0
    } else {
        1 + code_len(lines, from + 1)
    }
}

/// The width at which the body of a code block is wrapped: four columns
/// less than the content, and 0 (no wrapping) where that leaves nothing.
pub open spec fn code_wrap_width(width: int) -> int {
    if content_width(width) > 4 {
        content_width(width) - 4
    } else {
        0
    }
}

/// The rows of a fenced code block: the top border with the language tag
/// and a button that copies the whole block, the wrapped body behind a left
/// border, and the bottom border.
pub open spec fn code_block_rows(fence: Seq<char>, content: Seq<Seq<char>>, width: int) -> Seq<
    RowSpec,
> {
    seq![top_row(fence_lang(fence), joined(content), width)] + wrapped_all(
        content,
        code_wrap_width(width),
        "  │ "@,
        SpanStyle::Code,
    ) + seq![bottom_row(width)]
}

/// The rows of the lines of an assistant message from line `i` on, where
/// `i` stands outside a code block. A fence line opens a block that runs to
/// the next fence line or to the end.
pub open spec fn assistant_rows(lines: Seq<Seq<char>>, i: int, width: int) -> Seq<RowSpec>
    decreases lines.len() - i,
{
    if i < 0 || i >= lines.len() {
        Seq::empty()
    } else if is_fence(lines[i]) {
        let n = code_len(lines, i + 1) as int;
        code_block_rows(lines[i], lines.subrange(i + 1, i + 1 + n), width) + (if i + 1 + n
            < lines.len() {
            assistant_rows(lines, i + 2 + n, width)
        } else {
            Seq::empty()
        })
    } else {
        inline_rows(lines[i], width) + assistant_rows(lines, i + 1, width)
    }
}

/// The header line of a message.
pub open spec fn header_text(role: MessageRole) -> Seq<char> {
    match role {
        MessageRole::System => "● System"@,
        MessageRole::User => "● You"@,
        MessageRole::Assistant => "● Jose"@,
    }
}

/// The style of a message's header line.
pub open spec fn header_style(role: MessageRole) -> SpanStyle {
    match role {
        MessageRole::System => SpanStyle::SystemHeader,
        MessageRole::User => SpanStyle::UserHeader,
        MessageRole::Assistant => SpanStyle::AssistantHeader,
    }
}

/// The rows of one message: header, body, separator.
pub open spec fn message_rows(m: (MessageRole, Seq<char>), width: int) -> Seq<RowSpec> {
    seq![text_row(header_text(m.0), header_style(m.0))] + (if m.0 == MessageRole::Assistant {
        assistant_rows(lines_of(m.1), 0, width)
    } else {
        wrapped_all(lines_of(m.1), content_width(width), "  "@, SpanStyle::Plain)
    }) + seq![separator_row()]
}

/// The rows of the transcript in a pane of `width` columns.
pub open spec fn layout(msgs: Seq<(MessageRole, Seq<char>)>, width: int) -> Seq<RowSpec>
    decreases msgs.len(),
{
    if msgs.len() == 0 {
        Seq::empty()
    } else {
        layout(msgs.drop_last(), width) + message_rows(msgs.last(), width)
    }
}

/// The spans of a line of text that begins at offset `off` of the flat
/// text, under the selection `sel` (start, end): the whole line in `normal`
/// where the selection misses it, else up to three spans, the part inside
/// the selection in `highlight`.
pub open spec fn selected_spans(
    text: Seq<char>,
    off: int,
    sel: Option<(int, int)>,
    normal: SpanStyle,
    highlight: SpanStyle,
) -> Seq<(Seq<char>, SpanStyle)> {
    match sel {
        None => seq![(text, normal)],
        Some((s, e)) => if e <= off || s >= off + text.len() {
            seq![(text, normal)]
        } else {
            let a = local(s, off, text.len() as int);
            let b = local(e, off, text.len() as int);
            (if a > 0 {
                seq![(text.subrange(0, a), normal)]
            } else {
                Seq::empty()
            }) + seq![(text.subrange(a, b), highlight)] + (if b < text.len() {
                seq![(text.subrange(b, text.len() as int), normal)]
            } else {
                Seq::empty()
            })
        },
    }
}

/// The offset `x` of the flat text as a column of a line of `len`
/// characters that begins at `off`.
pub open spec fn local(x: int, off: int, len: int) -> int {
    if x <= off {
        0
    } else if x - off >= len {
        len
    } else {
        x - off
    }
}

/// A selection with its ends in order.
pub open spec fn normalized(sel: Option<(usize, usize)>) -> Option<(int, int)> {
    match sel {
        None => None,
        Some((a, b)) => if a <= b {
            Some((a as int, b as int))
        } else {
            Some((b as int, a as int))
        },
    }
}

/// The spans of a row that begins at offset `off`, under the selection.
pub open spec fn style_row(row: RowSpec, off: int, sel: Option<(int, int)>) -> Seq<
    (Seq<char>, SpanStyle),
> {
    if row.selectable && row.spans.len() > 0 {
        selected_spans(span_text(row.spans), off, sel, row.spans[0].1, SpanStyle::Highlight)
    } else {
        row.spans
    }
}

/// The plain text of each row.
pub open spec fn plain_of(rows: Seq<RowSpec>) -> Seq<Seq<char>> {
    rows.map_values(|r: RowSpec| span_text(r.spans))
}

/// The styled lines of the rows under the selection: row `i` begins at the
/// offset that the rows before it take up, each with its newline.
pub open spec fn styled(rows: Seq<RowSpec>, sel: Option<(int, int)>) -> Seq<
    Seq<(Seq<char>, SpanStyle)>,
>
    decreases rows.len(),
{
    if rows.len() == 0 {
        Seq::empty()
    } else {
        styled(rows.drop_last(), sel).push(
            style_row(rows.last(), total_len(plain_of(rows.drop_last())) as int, sel),
        )
    }
}

/// The buttons of one row, as (line, column, text to copy).
pub open spec fn placed(buttons: Seq<(int, Seq<char>)>, line: int) -> Seq<(int, int, Seq<char>)> {
    buttons.map_values(|b: (int, Seq<char>)| (line, b.0, b.1))
}

/// The copy buttons of the rows, each with the index of its row.
pub open spec fn buttons_of(rows: Seq<RowSpec>) -> Seq<(int, int, Seq<char>)>
    decreases rows.len(),
{
    if rows.len() == 0 {
        Seq::empty()
    } else {
        buttons_of(rows.drop_last()) + placed(rows.last().buttons, rows.len() - 1)
    }
}

/// The views of styled lines.
pub open spec fn lines_view(v: Seq<Vec<StyledSpan>>) -> Seq<Seq<(Seq<char>, SpanStyle)>> {
    v.map_values(|l: Vec<StyledSpan>| spans_view(l@))
}

/// What one render pass yields.
pub struct RenderedChat {
    /// The styled visual lines.
    pub lines: Vec<Vec<StyledSpan>>,
    /// The text of each visual line.
    pub plain_lines: Vec<String>,
    /// The clickable copy regions.
    pub copy_buttons: Vec<CopyButton>,
}

/// The lines `lines[from..to]` joined by newlines.
pub fn join_lines(lines: &Vec<Vec<char>>, from: usize, to: usize) -> (out: Vec<char>)
    requires
        from <= to <= lines.len(),
    ensures
        out@ == joined(rows_view(lines@).subrange(from as int, to as int)),
{
    let ghost part = rows_view(lines@).subrange(from as int, to as int);
    let mut out: Vec<char> = Vec::new();
    let mut k: usize = from;
    assert(out@ =~= joined(part.take(0)));
    while k < to
        invariant
            from <= k <= to <= lines.len(),
            part == rows_view(lines@).subrange(from as int, to as int),
            out@ == joined(part.take(k - from)),
        decreases to - k,
    {
        proof {
            assert(part.take(k - from + 1).drop_last() =~= part.take(k - from));
            assert(part.take(k - from + 1).last() == lines@[k as int]@);
            if k > from {
                assert(part.take(k - from + 1).len() > 1);
            } else {
                assert(part.take(k - from + 1)[0] == lines@[k as int]@);
            }
        }
        if k > from {
            out.push('\n');
        }
        append_chars(&mut out, &lines[k]);
        k += 1;
        assert(out@ =~= joined(part.take(k - from)));
    }
    assert(part.take(k - from) =~= part);
    out
}

/// Appends to `rows` the rows of the lines `lines[from..to]`, each wrapped at
/// `w` and put behind `prefix`.
pub fn push_wrapped_all(
    lines: &Vec<Vec<char>>,
    from: usize,
    to: usize,
    w: usize,
    prefix: &Vec<char>,
    style: SpanStyle,
    rows: &mut Vec<Row>,
)
    requires
        from <= to <= lines.len(),
    ensures
        row_specs(final(rows)@) == row_specs(old(rows)@) + wrapped_all(
            rows_view(lines@).subrange(from as int, to as int),
            w as int,
            prefix@,
            style,
        ),
{
    let ghost part = rows_view(lines@).subrange(from as int, to as int);
    let mut k: usize = from;
    assert(row_specs(rows@) =~= row_specs(old(rows)@) + wrapped_all(
        part.take(0),
        w as int,
        prefix@,
        style,
    ));
    while k < to
        invariant
            from <= k <= to <= lines.len(),
            part == rows_view(lines@).subrange(from as int, to as int),
            row_specs(rows@) == row_specs(old(rows)@) + wrapped_all(
                part.take(k - from),
                w as int,
                prefix@,
                style,
            ),
        decreases to - k,
    {
        proof {
            assert(part.take(k - from + 1).drop_last() =~= part.take(k - from));
            assert(part.take(k - from + 1).last() == lines@[k as int]@);
        }
        let ghost before = row_specs(rows@);
        push_wrapped(&lines[k], w, prefix, style, rows);
        k += 1;
        assert(row_specs(rows@) =~= row_specs(old(rows)@) + wrapped_all(
            part.take(k - from),
            w as int,
            prefix@,
            style,
        ));
    }
    assert(part.take(k - from) =~= part);
}

/// Appends to `rows` the rows of the body of an assistant message.
pub fn push_assistant(lines: &Vec<Vec<char>>, width: usize, rows: &mut Vec<Row>)
    ensures
        row_specs(final(rows)@) == row_specs(old(rows)@) + assistant_rows(
            rows_view(lines@),
            0,
            width as int,
        ),
{
    let ghost lv = rows_view(lines@);
    let n = lines.len();
    let content: usize = if width < 3 {
        1
    } else {
        width - 2
    };
    let code_width: usize = if content > 4 {
        content - 4
    } else {
        0
    };
    let bar = chars_of("  │ ");
    let mut i: usize = 0;
    while i < n
        invariant
            n == lines.len(),
            i <= n,
            lv == rows_view(lines@),
            bar@ == "  │ "@,
            code_width as int == code_wrap_width(width as int),
            row_specs(rows@) + assistant_rows(lv, i as int, width as int) == row_specs(
                old(rows)@,
            ) + assistant_rows(lv, 0, width as int),
        decreases n - i,
    {
        let ghost before = row_specs(rows@);
        let ghost rest = assistant_rows(lv, i as int, width as int);
        assert(lv[i as int] == lines@[i as int]@);
        if is_fence_line(&lines[i]) {
            let mut j: usize = i + 1;
            while j < n && !is_fence_line(&lines[j])
                invariant
                    n == lines.len(),
                    i + 1 <= j <= n,
                    lv == rows_view(lines@),
                    j + code_len(lv, j as int) == i + 1 + code_len(lv, i as int + 1),
                decreases n - j,
            {
                assert(lv[j as int] == lines@[j as int]@);
                j += 1;
            }
            proof {
                if j < n {
                    assert(lv[j as int] == lines@[j as int]@);
                }
                assert(code_len(lv, j as int) == 0);
            }
            let lang = fence_lang_of(&lines[i]);
            let code = join_lines(lines, i + 1, j);
            let top = top_row_of(&lang, &code, width);
            proof {
                lemma_row_push(rows@, top);
            }
            rows.push(top);
            push_wrapped_all(lines, i + 1, j, code_width, &bar, SpanStyle::Code, rows);
            let bottom = bottom_row_of(width);
            proof {
                lemma_row_push(rows@, bottom);
            }
            rows.push(bottom);
            let next: usize = if j < n {
                j + 1
            } else {
                j
            };
            proof {
                let block = code_block_rows(
                    lv[i as int],
                    lv.subrange(i as int + 1, j as int),
                    width as int,
                );
                assert(row_specs(rows@) =~= before + block);
                if j >= n {
                    assert(assistant_rows(lv, next as int, width as int) =~= Seq::empty());
                }
                assert(rest =~= block + assistant_rows(lv, next as int, width as int));
                assert(row_specs(rows@) + assistant_rows(lv, next as int, width as int)
                    =~= before + rest);
            }
            i = next;
        } else {
            push_inline(&lines[i], width, rows);
            i += 1;
            assert(row_specs(rows@) + assistant_rows(lv, i as int, width as int) =~= before
                + rest);
        }
    }
    assert(assistant_rows(lv, i as int, width as int) =~= Seq::empty());
    assert(row_specs(rows@) =~= row_specs(rows@) + assistant_rows(lv, i as int, width as int));
}

/// Appends to `rows` the rows of one message.
pub fn push_message_rows(msg: &ChatMessage, width: usize, rows: &mut Vec<Row>)
    ensures
        row_specs(final(rows)@) == row_specs(old(rows)@) + message_rows(msg@, width as int),
{
    let ghost before = row_specs(rows@);
    let (label, style) = match msg.role {
        MessageRole::System => (chars_of("● System"), SpanStyle::SystemHeader),
        MessageRole::User => (chars_of("● You"), SpanStyle::UserHeader),
        MessageRole::Assistant => (chars_of("● Jose"), SpanStyle::AssistantHeader),
    };
    let header = text_row_of(&label, style);
    proof {
        lemma_row_push(rows@, header);
    }
    rows.push(header);
    let content = chars_of(msg.content.as_str());
    let lines = split_lines(&content);
    let ghost mid = row_specs(rows@);
    match msg.role {
        MessageRole::Assistant => {
            push_assistant(&lines, width, rows);
        },
        _ => {
            let w: usize = if width < 3 {
                1
            } else {
                width - 2
            };
            let margin = chars_of("  ");
            push_wrapped_all(&lines, 0, lines.len(), w, &margin, SpanStyle::Plain, rows);
            assert(rows_view(lines@).subrange(0, lines.len() as int) =~= rows_view(lines@));
        },
    }
    let sep = separator_row_of();
    proof {
        lemma_row_push(rows@, sep);
    }
    rows.push(sep);
    assert(row_specs(rows@) =~= before + message_rows(msg@, width as int));
}

/// The rows of the transcript in a pane of `width` columns.
pub fn layout_rows(messages: &Vec<ChatMessage>, width: usize) -> (rows: Vec<Row>)
    ensures
        row_specs(rows@) == layout(messages_view(messages@), width as int),
{
    let ghost mv = messages_view(messages@);
    let mut rows: Vec<Row> = Vec::new();
    let mut k: usize = 0;
    assert(row_specs(rows@) =~= layout(mv.take(0), width as int));
    while k < messages.len()
        invariant
            k <= messages.len(),
            mv == messages_view(messages@),
            row_specs(rows@) == layout(mv.take(k as int), width as int),
        decreases messages.len() - k,
    {
        proof {
            assert(mv.take(k as int + 1).drop_last() =~= mv.take(k as int));
            assert(mv.take(k as int + 1).last() == messages@[k as int]@);
        }
        push_message_rows(&messages[k], width, &mut rows);
        k += 1;
    }
    assert(mv.take(k as int) =~= mv);
    rows
}

/// A selection whose ends are in order already.
pub open spec fn ordered(sel: Option<(usize, usize)>) -> Option<(int, int)> {
    match sel {
        None => None,
        Some((a, b)) => Some((a as int, b as int)),
    }
}

/// The text of a line with one more span is the line's text followed by
/// the span's.
pub proof fn lemma_span_text_push(a: Seq<(Seq<char>, SpanStyle)>, x: (Seq<char>, SpanStyle))
    ensures
        span_text(a.push(x)) == span_text(a) + x.0,
{
    assert(a.push(x).drop_last() =~= a);
}

/// Painting a selection on a line never changes its text.
pub proof fn lemma_selected_text(
    text: Seq<char>,
    off: int,
    sel: Option<(int, int)>,
    normal: SpanStyle,
    highlight: SpanStyle,
)
    requires
        sel matches Some(p) ==> p.0 <= p.1,
    ensures
        span_text(selected_spans(text, off, sel, normal, highlight)) == text,
{
    let out = selected_spans(text, off, sel, normal, highlight);
    let none = Seq::<(Seq<char>, SpanStyle)>::empty();
    let len = text.len() as int;
    lemma_span_text_push(none, (text, normal));
    assert(none.push((text, normal)) =~= seq![(text, normal)]);
    assert(span_text(none) + text =~= text);
    let ends = sel.unwrap_or((0, 0));
    if sel is Some && !(ends.1 <= off || ends.0 >= off + len) {
        let a = local(ends.0, off, len);
        let b = local(ends.1, off, len);
        let head = (text.subrange(0, a), normal);
        let mid = (text.subrange(a, b), highlight);
        let tail = (text.subrange(b, len), normal);
        let first = if a > 0 {
            none.push(head)
        } else {
            none
        };
        if a > 0 {
            lemma_span_text_push(none, head);
        }
        assert(span_text(first) =~= text.subrange(0, a));
        lemma_span_text_push(first, mid);
        assert(span_text(first.push(mid)) =~= text.subrange(0, b));
        if b < len {
            lemma_span_text_push(first.push(mid), tail);
            assert(out =~= first.push(mid).push(tail));
            assert(text.subrange(0, b) + text.subrange(b, len) =~= text);
        } else {
            assert(out =~= first.push(mid));
            assert(text.subrange(0, b) =~= text);
        }
    }
}

/// The styled lines are as many as the rows, and each has the text of its
/// row, whatever is selected.
pub proof fn lemma_styled_text(rows: Seq<RowSpec>, sel: Option<(int, int)>)
    requires
        sel matches Some(p) ==> p.0 <= p.1,
    ensures
        styled(rows, sel).len() == rows.len(),
        plain_of(rows).len() == rows.len(),
        forall|i: int|
            0 <= i < rows.len() ==> span_text(#[trigger] styled(rows, sel)[i]) == plain_of(
                rows,
            )[i],
    decreases rows.len(),
{
    if rows.len() > 0 {
        let front = rows.drop_last();
        lemma_styled_text(front, sel);
        let off = total_len(plain_of(front)) as int;
        if rows.last().selectable && rows.last().spans.len() > 0 {
            lemma_selected_text(
                span_text(rows.last().spans),
                off,
                sel,
                rows.last().spans[0].1,
                SpanStyle::Highlight,
            );
        }
        assert forall|i: int| 0 <= i < rows.len() implies span_text(
            #[trigger] styled(rows, sel)[i],
        ) == plain_of(rows)[i] by {
            if i < rows.len() - 1 {
                assert(styled(rows, sel)[i] == styled(front, sel)[i]);
                assert(plain_of(rows)[i] == plain_of(front)[i]);
            }
        }
    }
}

/// The spans of a line of text that begins at `line_offset`, under a
/// selection whose ends are in order.
pub fn selected_spans_of(
    text: &Vec<char>,
    line_offset: u128,
    sel: Option<(usize, usize)>,
    normal: SpanStyle,
    highlight: SpanStyle,
) -> (out: Vec<StyledSpan>)
    requires
        sel matches Some(p) ==> p.0 <= p.1,
    ensures
        spans_view(out@) == selected_spans(
            text@,
            line_offset as int,
            ordered(sel),
            normal,
            highlight,
        ),
{
    let len = text.len();
    let mut out: Vec<StyledSpan> = Vec::new();
    let ghost none = spans_view(out@);
    assert(none =~= Seq::empty());
    match sel {
        Some((s, e)) => {
            let missed = e as u128 <= line_offset || (s as u128 >= line_offset && s as u128
                - line_offset >= len as u128);
            if !missed {
                let a: usize = if s as u128 <= line_offset {
                    0
                } else if s as u128 - line_offset >= len as u128 {
                    len
                } else {
                    s - (line_offset as usize)
                };
                let b: usize = if e as u128 - line_offset >= len as u128 {
                    len
                } else {
                    e - (line_offset as usize)
                };
                assert(a as int == local(s as int, line_offset as int, len as int));
                assert(b as int == local(e as int, line_offset as int, len as int));
                if a > 0 {
                    let head = span_of(&slice_of(text, 0, a), normal);
                    proof {
                        lemma_span_push(out@, head);
                    }
                    out.push(head);
                }
                let mid = span_of(&slice_of(text, a, b), highlight);
                proof {
                    lemma_span_push(out@, mid);
                }
                out.push(mid);
                if b < len {
                    let tail = span_of(&slice_of(text, b, len), normal);
                    proof {
                        lemma_span_push(out@, tail);
                    }
                    out.push(tail);
                }
                assert(spans_view(out@) =~= selected_spans(
                    text@,
                    line_offset as int,
                    ordered(sel),
                    normal,
                    highlight,
                ));
                return out;
            }
        },
        None => {},
    }
    let whole = span_of(text, normal);
    proof {
        lemma_span_push(out@, whole);
        assert(none.push(whole@) =~= seq![(text@, normal)]);
    }
    out.push(whole);
    out
}

/// The spans of `text`, a line that begins at offset `line_offset` of the
/// flat text, under the selection `sel` (start, end): one span in
/// `normal_style` where the selection misses the line, else up to three, the
/// selected part in `highlight_style`. The spans' texts always make up
/// `text`.
pub fn build_selected_spans(
    text: &str,
    line_offset: usize,
    sel: Option<(usize, usize)>,
    normal_style: SpanStyle,
    highlight_style: SpanStyle,
) -> (out: Vec<StyledSpan>)
    requires
        sel matches Some(p) ==> p.0 <= p.1,
    ensures
        spans_view(out@) == selected_spans(
            text@,
            line_offset as int,
            ordered(sel),
            normal_style,
            highlight_style,
        ),
        span_text(spans_view(out@)) == text@,
{
    let chars = chars_of(text);
    proof {
        lemma_selected_text(
            text@,
            line_offset as int,
            ordered(sel),
            normal_style,
            highlight_style,
        );
    }
    selected_spans_of(&chars, line_offset as u128, sel, normal_style, highlight_style)
}

/// The text of a row.
pub fn row_chars(row: &Row) -> (out: Vec<char>)
    ensures
        out@ == span_text(row@.spans),
{
    let ghost sv = spans_view(row.spans@);
    let mut out: Vec<char> = Vec::new();
    let mut k: usize = 0;
    assert(out@ =~= span_text(sv.take(0)));
    while k < row.spans.len()
        invariant
            k <= row.spans.len(),
            sv == spans_view(row.spans@),
            out@ == span_text(sv.take(k as int)),
        decreases row.spans.len() - k,
    {
        proof {
            assert(sv.take(k as int + 1).drop_last() =~= sv.take(k as int));
            assert(sv.take(k as int + 1).last().0 == row.spans@[k as int].text@);
        }
        let piece = chars_of(row.spans[k].text.as_str());
        append_chars(&mut out, &piece);
        k += 1;
    }
    assert(sv.take(k as int) =~= sv);
    out
}

/// A copy of the spans.
pub fn clone_spans(spans: &Vec<StyledSpan>) -> (out: Vec<StyledSpan>)
    ensures
        spans_view(out@) == spans_view(spans@),
{
    let mut out: Vec<StyledSpan> = Vec::new();
    let mut k: usize = 0;
    while k < spans.len()
        invariant
            k <= spans.len(),
            out.len() == k,
            forall|i: int| 0 <= i < k ==> (#[trigger] out@[i])@ == spans@[i]@,
        decreases spans.len() - k,
    {
        out.push(StyledSpan { text: spans[k].text.clone(), style: spans[k].style });
        k += 1;
    }
    assert(spans_view(out@) =~= spans_view(spans@));
    out
}

/// Paints the selection on the rows: the styled lines, the text of each
/// line, and the copy buttons with the index of their line.
pub fn paint(rows: &Vec<Row>, sel: Option<(usize, usize)>) -> (out: RenderedChat)
    ensures
        lines_view(out.lines@) == styled(row_specs(rows@), normalized(sel)),
        strs_view(out.plain_lines@) == plain_of(row_specs(rows@)),
        buttons_view(out.copy_buttons@) == buttons_of(row_specs(rows@)),
{
    let ghost rs = row_specs(rows@);
    let ghost nsel = normalized(sel);
    let sorted: Option<(usize, usize)> = match sel {
        Some((a, b)) => if a <= b {
            Some((a, b))
        } else {
            Some((b, a))
        },
        None => None,
    };
    assert(ordered(sorted) == nsel);
    let mut lines: Vec<Vec<StyledSpan>> = Vec::new();
    let mut plain_lines: Vec<String> = Vec::new();
    let mut copy_buttons: Vec<CopyButton> = Vec::new();
    let mut offset: u128 = 0;
    let mut k: usize = 0;
    proof {
        assert(lines_view(lines@) =~= styled(rs.take(0), nsel));
        assert(strs_view(plain_lines@) =~= plain_of(rs.take(0)));
        assert(buttons_view(copy_buttons@) =~= buttons_of(rs.take(0)));
    }
    while k < rows.len()
        invariant
            k <= rows.len(),
            rs == row_specs(rows@),
            nsel == normalized(sel),
            ordered(sorted) == nsel,
            sorted matches Some(p) ==> p.0 <= p.1,
            lines_view(lines@) == styled(rs.take(k as int), nsel),
            strs_view(plain_lines@) == plain_of(rs.take(k as int)),
            buttons_view(copy_buttons@) == buttons_of(rs.take(k as int)),
            offset as int == total_len(plain_of(rs.take(k as int))),
            offset <= k * 0x1_0000_0000_0000_0000,
        decreases rows.len() - k,
    {
        let row = &rows[k];
        let ghost front = rs.take(k as int);
        let ghost upto = rs.take(k as int + 1);
        proof {
            assert(upto.drop_last() =~= front);
            assert(upto.last() == row@);
            assert(plain_of(upto).drop_last() =~= plain_of(front));
            assert(plain_of(upto).last() == span_text(row@.spans));
        }
        let text = row_chars(row);
        let spans = if row.selectable && row.spans.len() > 0 {
            assert(row@.spans[0].1 == row.spans@[0].style);
            selected_spans_of(&text, offset, sorted, row.spans[0].style, SpanStyle::Highlight)
        } else {
            clone_spans(&row.spans)
        };
        assert(spans_view(spans@) == style_row(row@, offset as int, nsel));
        assert(lines_view(lines@.push(spans)) =~= lines_view(lines@).push(spans_view(spans@)));
        lines.push(spans);
        let line = string_of(&text);
        proof {
            lemma_strs_push(plain_lines@, line);
            assert(strs_view(plain_lines@).push(line@) =~= plain_of(upto));
        }
        plain_lines.push(line);
        let ghost before = buttons_view(copy_buttons@);
        let ghost target = placed(row@.buttons, k as int);
        let mut m: usize = 0;
        assert(buttons_view(copy_buttons@) =~= before + target.take(0));
        while m < row.buttons.len()
            invariant
                m <= row.buttons.len(),
                k < rows.len(),
                row == rows@[k as int],
                target == placed(row@.buttons, k as int),
                buttons_view(copy_buttons@) == before + target.take(m as int),
            decreases row.buttons.len() - m,
        {
            let b = CopyButton {
                line: k,
                col_start: row.buttons[m].0,
                content: row.buttons[m].1.clone(),
            };
            proof {
                assert(buttons_view(copy_buttons@.push(b)) =~= buttons_view(copy_buttons@).push(
                    b@,
                ));
                assert(row@.buttons[m as int] == (
                    row.buttons@[m as int].0 as int,
                    row.buttons@[m as int].1@,
                ));
                assert(target.len() == row.buttons@.len());
                assert(target[m as int] == b@);
                assert(target.take(m as int + 1) =~= target.take(m as int).push(
                    target[m as int],
                ));
                assert(buttons_view(copy_buttons@).push(b@) =~= before + target.take(
                    m as int + 1,
                ));
            }
            copy_buttons.push(b);
            m += 1;
        }
        assert(target.take(m as int) =~= target);
        assert(text.len() <= usize::MAX);
        offset = offset + text.len() as u128 + 1;
        k += 1;
    }
    assert(rs.take(k as int) =~= rs);
    RenderedChat { lines, plain_lines, copy_buttons }
}

/// Renders the transcript of `state` for a pane of `width` columns, with
/// `selection` highlighted. Each message gives a header line, its body and
/// an empty line. The styled lines and the plain lines are made together:
/// there are as many of one as of the other, and each styled line has the
/// text of its plain line, so that the selection changes styles only.
pub fn render_chat_lines(state: &ChatState, width: usize, selection: Option<(usize, usize)>) -> (out:
    RenderedChat)
    ensures
        lines_view(out.lines@) == styled(
            layout(messages_view(state.messages@), width as int),
            normalized(selection),
        ),
        strs_view(out.plain_lines@) == plain_of(
            layout(messages_view(state.messages@), width as int),
        ),
        buttons_view(out.copy_buttons@) == buttons_of(
            layout(messages_view(state.messages@), width as int),
        ),
        out.lines@.len() == out.plain_lines@.len(),
        forall|i: int|
            0 <= i < out.lines@.len() ==> span_text(#[trigger] lines_view(out.lines@)[i])
                == strs_view(out.plain_lines@)[i],
{
    let rows = layout_rows(&state.messages, width);
    proof {
        lemma_styled_text(row_specs(rows@), normalized(selection));
    }
    let out = paint(&rows, selection);
    assert(lines_view(out.lines@).len() == out.lines@.len());
    assert(strs_view(out.plain_lines@).len() == out.plain_lines@.len());
    out
}

/// Renders the transcript of `state` with its selection and keeps the plain
/// lines and the copy buttons in the state, where the selection engine
/// finds them. Nothing else of the state changes.
pub fn refresh(state: &mut ChatState, width: usize) -> (lines: Vec<Vec<StyledSpan>>)
    ensures
        lines_view(lines@) == styled(
            layout(messages_view(old(state).messages@), width as int),
            normalized(old(state).selection),
        ),
        strs_view(final(state).plain_lines@) == plain_of(
            layout(messages_view(old(state).messages@), width as int),
        ),
        buttons_view(final(state).copy_buttons@) == buttons_of(
            layout(messages_view(old(state).messages@), width as int),
        ),
        lines@.len() == final(state).plain_lines@.len(),
        forall|i: int|
            0 <= i < lines@.len() ==> span_text(#[trigger] lines_view(lines@)[i]) == strs_view(
                final(state).plain_lines@,
            )[i],
        *final(state) == (ChatState {
            plain_lines: final(state).plain_lines,
            copy_buttons: final(state).copy_buttons,
            ..*old(state)
        }),
{
    let out = render_chat_lines(state, width, state.selection);
    state.plain_lines = out.plain_lines;
    state.copy_buttons = out.copy_buttons;
    out.lines
}

} // verus!
