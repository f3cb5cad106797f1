use jose::inline::parse_inline_code;
use jose::render::{build_selected_spans, render_chat_lines, RenderedChat};
use jose::rows::{SpanStyle, StyledSpan};
use jose::state::{ChatState, MessageRole};

fn fresh() -> ChatState {
    let mut state = ChatState::new("gpt-test".to_string(), "session-1".to_string());
    state.messages.clear();
    state
}

fn spans(line: &[StyledSpan]) -> Vec<(String, SpanStyle)> {
    line.iter().map(|s| (s.text.clone(), s.style)).collect()
}

fn text_of(line: &[StyledSpan]) -> String {
    line.iter().map(|s| s.text.as_str()).collect()
}

fn check_mirror(out: &RenderedChat) {
    assert_eq!(out.lines.len(), out.plain_lines.len());
    for (line, plain) in out.lines.iter().zip(out.plain_lines.iter()) {
        assert_eq!(&text_of(line), plain);
    }
}

#[test]
fn new_state_holds_the_greeting() {
    let state = ChatState::new("m".to_string(), "s".to_string());
    assert_eq!(state.model, "m");
    assert_eq!(state.session_id, "s");
    assert_eq!(state.messages.len(), 2);
    assert_eq!(state.messages[0].role, MessageRole::System);
    assert_eq!(state.messages[0].content, "JOSE interactive mode");
    assert_eq!(
        state.messages[1].content,
        "Enter sends. Newline: Shift+Enter, Alt+Enter, or Ctrl+J. Press Esc or Ctrl+C to exit."
    );
    assert!(state.auto_follow);
    assert_eq!(state.cursor_pos, 0);
    assert_eq!(state.chat_scroll, 0);
    assert!(state.selection.is_none());
    assert!(state.input.is_empty());
}

#[test]
fn push_messages_append_in_order() {
    let mut state = fresh();
    state.push_user_message("question");
    state.push_assistant_message("answer");
    assert_eq!(state.messages.len(), 2);
    assert_eq!(state.messages[0].role, MessageRole::User);
    assert_eq!(state.messages[0].content, "question");
    assert_eq!(state.messages[1].role, MessageRole::Assistant);
    assert_eq!(state.messages[1].content, "answer");
}

#[test]
fn user_message_is_wrapped_behind_the_margin() {
    let mut state = fresh();
    state.push_user_message("hello world foo");
    let out = render_chat_lines(&state, 12, None);
    assert_eq!(out.plain_lines, vec!["● You", "  hello worl", "  d foo", ""]);
    assert_eq!(spans(&out.lines[0]), vec![("● You".to_string(), SpanStyle::UserHeader)]);
    assert_eq!(spans(&out.lines[1]), vec![("  hello worl".to_string(), SpanStyle::Plain)]);
    assert_eq!(spans(&out.lines[3]), vec![(String::new(), SpanStyle::Plain)]);
    assert!(out.copy_buttons.is_empty());
    check_mirror(&out);
}

#[test]
fn narrow_pane_wraps_at_one_column() {
    let mut state = fresh();
    state.messages.clear();
    state.push_user_message("ab");
    let out = render_chat_lines(&state, 0, None);
    assert_eq!(out.plain_lines, vec!["● You", "  a", "  b", ""]);
}

#[test]
fn selection_splits_a_line_in_three() {
    let mut state = fresh();
    state.push_user_message("hello world foo");
    let out = render_chat_lines(&state, 12, Some((8, 10)));
    assert_eq!(
        spans(&out.lines[1]),
        vec![
            ("  ".to_string(), SpanStyle::Plain),
            ("he".to_string(), SpanStyle::Highlight),
            ("llo worl".to_string(), SpanStyle::Plain),
        ]
    );
    let reversed = render_chat_lines(&state, 12, Some((10, 8)));
    assert_eq!(spans(&reversed.lines[1]), spans(&out.lines[1]));
    assert_eq!(out.plain_lines, render_chat_lines(&state, 12, None).plain_lines);
    check_mirror(&out);
}

#[test]
fn selection_over_several_lines_keeps_the_mirror() {
    let mut state = fresh();
    state.push_user_message("hello world foo");
    state.push_assistant_message("a `b` c\n```\ncode\n```");
    let plain = render_chat_lines(&state, 20, None).plain_lines;
    let total: usize = plain.iter().map(|l| l.chars().count() + 1).sum();
    for a in 0..=total {
        let out = render_chat_lines(&state, 20, Some((a, total - a)));
        assert_eq!(out.plain_lines, plain);
        check_mirror(&out);
    }
    assert_eq!(plain.join("\n").chars().count() + 1, total);
}

#[test]
fn header_is_highlighted_in_full() {
    let mut state = fresh();
    state.push_user_message("x");
    let out = render_chat_lines(&state, 12, Some((0, 5)));
    assert_eq!(spans(&out.lines[0]), vec![("● You".to_string(), SpanStyle::Highlight)]);
    assert_eq!(spans(&out.lines[1]), vec![("  x".to_string(), SpanStyle::Plain)]);
}

#[test]
fn assistant_code_block_and_inline_code() {
    let mut state = fresh();
    state.push_assistant_message("run:\n```rust\nfn main() {}\n```\ndone `x` ok");
    let out = render_chat_lines(&state, 30, None);
    let top = format!("  ── rust {} ", "─".repeat(17));
    let bottom = format!("  └{}", "─".repeat(27));
    assert_eq!(
        out.plain_lines,
        vec![
            "● Jose".to_string(),
            "  run:".to_string(),
            format!("{} ⎘", top),
            "  │ fn main() {}".to_string(),
            bottom.clone(),
            "  done `x` ⎘ ok".to_string(),
            String::new(),
        ]
    );
    assert_eq!(out.plain_lines[2].chars().count(), 30);
    assert_eq!(
        spans(&out.lines[2]),
        vec![
            ("  ──".to_string(), SpanStyle::Border),
            (" rust ".to_string(), SpanStyle::Lang),
            (format!("{} ", "─".repeat(17)), SpanStyle::Border),
            (" ⎘".to_string(), SpanStyle::Button),
        ]
    );
    assert_eq!(spans(&out.lines[3]), vec![("  │ fn main() {}".to_string(), SpanStyle::Code)]);
    assert_eq!(spans(&out.lines[4]), vec![(bottom, SpanStyle::Border)]);
    assert_eq!(
        spans(&out.lines[5]),
        vec![
            ("  ".to_string(), SpanStyle::Plain),
            ("done ".to_string(), SpanStyle::Plain),
            ("`x`".to_string(), SpanStyle::Code),
            (" ⎘".to_string(), SpanStyle::Button),
            (" ok".to_string(), SpanStyle::Plain),
        ]
    );
    assert_eq!(out.copy_buttons.len(), 2);
    assert_eq!(out.copy_buttons[0].line, 2);
    assert_eq!(out.copy_buttons[0].col_start, 28);
    assert_eq!(out.copy_buttons[0].content, "fn main() {}");
    assert_eq!(out.copy_buttons[1].line, 5);
    assert_eq!(out.copy_buttons[1].col_start, 10);
    assert_eq!(out.copy_buttons[1].content, "x");
    check_mirror(&out);
}

#[test]
fn code_block_without_tag_or_end() {
    let mut state = fresh();
    state.push_assistant_message("  ```\na\n\nb");
    let out = render_chat_lines(&state, 12, None);
    assert_eq!(
        out.plain_lines,
        vec![
            "● Jose".to_string(),
            format!("  ──{}  ⎘", "─".repeat(5)),
            "  │ a".to_string(),
            "  │ ".to_string(),
            "  │ b".to_string(),
            format!("  └{}", "─".repeat(9)),
            String::new(),
        ]
    );
    assert_eq!(spans(&out.lines[1])[0].1, SpanStyle::Border);
    assert_eq!(spans(&out.lines[1]).len(), 2);
    assert_eq!(out.copy_buttons.len(), 1);
    assert_eq!(out.copy_buttons[0].content, "a\n\nb");
    assert_eq!(out.copy_buttons[0].col_start, 10);
}

#[test]
fn code_body_is_wrapped_inside_the_border() {
    let mut state = fresh();
    state.push_assistant_message("```sh\nabcdefghij\n```");
    let out = render_chat_lines(&state, 10, None);
    assert_eq!(out.plain_lines[2], "  │ abcd");
    assert_eq!(out.plain_lines[3], "  │ efgh");
    assert_eq!(out.plain_lines[4], "  │ ij");
    let narrow = render_chat_lines(&state, 5, None);
    assert_eq!(narrow.plain_lines[2], "  │ abcdefghij");
}

#[test]
fn system_message_is_not_scanned_for_code() {
    let mut state = fresh();
    state.messages.clear();
    let mut greeting = ChatState::new("m".to_string(), "s".to_string());
    state.messages.push(greeting.messages.remove(0));
    state.push_user_message("```\n`x`");
    let out = render_chat_lines(&state, 40, None);
    assert_eq!(
        out.plain_lines,
        vec!["● System", "  JOSE interactive mode", "", "● You", "  ```", "  `x`", ""]
    );
    assert_eq!(spans(&out.lines[0]), vec![("● System".to_string(), SpanStyle::SystemHeader)]);
    assert!(out.copy_buttons.is_empty());
}

#[test]
fn inline_code_segments() {
    let seg = |t: &str, c: bool| (t.to_string(), c);
    assert_eq!(parse_inline_code("plain"), vec![seg("plain", false)]);
    assert_eq!(parse_inline_code(""), Vec::<(String, bool)>::new());
    assert_eq!(
        parse_inline_code("a `b` c"),
        vec![seg("a ", false), seg("b", true), seg(" c", false)]
    );
    assert_eq!(parse_inline_code("``"), vec![seg("", true)]);
    assert_eq!(parse_inline_code("`open"), vec![seg("open", true)]);
    assert_eq!(parse_inline_code("x`"), vec![seg("x", false)]);
    assert_eq!(parse_inline_code("`a``b`"), vec![seg("a", true), seg("b", true)]);
}

#[test]
fn selected_spans_of_one_line() {
    let all = |out: Vec<StyledSpan>| -> Vec<(String, SpanStyle)> { spans(&out) };
    let n = SpanStyle::Plain;
    let h = SpanStyle::Highlight;
    assert_eq!(all(build_selected_spans("hello", 10, None, n, h)), vec![("hello".to_string(), n)]);
    assert_eq!(
        all(build_selected_spans("hello", 10, Some((0, 10)), n, h)),
        vec![("hello".to_string(), n)]
    );
    assert_eq!(
        all(build_selected_spans("hello", 10, Some((15, 20)), n, h)),
        vec![("hello".to_string(), n)]
    );
    assert_eq!(
        all(build_selected_spans("hello", 10, Some((0, 99)), n, h)),
        vec![("hello".to_string(), h)]
    );
    assert_eq!(
        all(build_selected_spans("hello", 10, Some((11, 13)), n, h)),
        vec![("h".to_string(), n), ("el".to_string(), h), ("lo".to_string(), n)]
    );
    assert_eq!(
        all(build_selected_spans("hello", 10, Some((12, 12)), n, h)),
        vec![("he".to_string(), n), (String::new(), h), ("llo".to_string(), n)]
    );
}
