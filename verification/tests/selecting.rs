use jose::area::Area;
use jose::selection::{
    extract_selection, handle_mouse, plain_len_fits, screen_to_chat_offset, word_bounds_at,
    MouseKind,
};
use jose::state::{ChatState, CopyButton};

fn lines(items: &[&str]) -> Vec<String> {
    items.iter().map(|s| s.to_string()).collect()
}

fn pane() -> Area {
    Area { x: 0, y: 0, width: 20, height: 10 }
}

fn state_with(plain: &[&str]) -> ChatState {
    let mut state = ChatState::new("m".to_string(), "s".to_string());
    state.plain_lines = lines(plain);
    state
}

fn total(plain: &[String]) -> usize {
    plain.iter().map(|l| l.chars().count() + 1).sum()
}

#[test]
fn word_bounds_of_world() {
    assert_eq!(word_bounds_at(&lines(&["hello world"]), 6), (6, 11));
}

#[test]
fn word_bounds_edges() {
    let plain = lines(&["hello world"]);
    assert_eq!(word_bounds_at(&plain, 0), (0, 5));
    assert_eq!(word_bounds_at(&plain, 5), (0, 5));
    assert_eq!(word_bounds_at(&plain, 11), (6, 11));
    assert_eq!(word_bounds_at(&plain, 99), (6, 11));
    assert_eq!(word_bounds_at(&lines(&["a  b"]), 2), (2, 2));
    assert_eq!(word_bounds_at(&lines(&[]), 3), (0, 0));
}

#[test]
fn word_bounds_stop_at_line_breaks() {
    let plain = lines(&["abc", "de"]);
    assert_eq!(word_bounds_at(&plain, 1), (0, 3));
    assert_eq!(word_bounds_at(&plain, 4), (4, 6));
}

#[test]
fn word_bounds_count_scalar_values() {
    assert_eq!(word_bounds_at(&lines(&["héé wörld"]), 5), (4, 9));
    assert_eq!(word_bounds_at(&lines(&["a\u{a0}b"]), 2), (2, 3));
}

#[test]
fn screen_offset_outside_the_pane() {
    let plain = lines(&["abc", "de"]);
    assert_eq!(screen_to_chat_offset(0, 5, pane(), 0, &plain), None);
    assert_eq!(screen_to_chat_offset(9, 5, pane(), 0, &plain), None);
    assert_eq!(screen_to_chat_offset(1, 0, pane(), 0, &plain), None);
    assert_eq!(screen_to_chat_offset(1, 19, pane(), 0, &plain), None);
    let flat = Area { x: 0, y: 0, width: 20, height: 1 };
    assert_eq!(screen_to_chat_offset(1, 1, flat, 0, &plain), None);
}

#[test]
fn screen_offset_inside_the_pane() {
    let plain = lines(&["abc", "de"]);
    assert_eq!(screen_to_chat_offset(1, 1, pane(), 0, &plain), Some(0));
    assert_eq!(screen_to_chat_offset(1, 3, pane(), 0, &plain), Some(2));
    assert_eq!(screen_to_chat_offset(1, 9, pane(), 0, &plain), Some(3));
    assert_eq!(screen_to_chat_offset(2, 1, pane(), 0, &plain), Some(4));
    assert_eq!(screen_to_chat_offset(2, 5, pane(), 0, &plain), Some(6));
    assert_eq!(screen_to_chat_offset(1, 2, pane(), 1, &plain), Some(5));
    assert_eq!(screen_to_chat_offset(3, 1, pane(), 0, &plain), Some(6));
    assert_eq!(screen_to_chat_offset(3, 1, pane(), 0, &lines(&[])), Some(0));
    let moved = Area { x: 5, y: 3, width: 20, height: 10 };
    assert_eq!(screen_to_chat_offset(4, 7, moved, 0, &plain), Some(1));
}

#[test]
fn plain_lengths_fit() {
    assert!(plain_len_fits(&lines(&["abc", "de"])));
    assert!(plain_len_fits(&lines(&[])));
}

#[test]
fn extract_selection_either_way_round() {
    let plain = lines(&["hello", "world"]);
    assert_eq!(extract_selection(&plain, (3, 8)), "lo\nwo");
    assert_eq!(extract_selection(&plain, (8, 3)), "lo\nwo");
    assert_eq!(extract_selection(&plain, (4, 4)), "");
    assert_eq!(extract_selection(&plain, (6, 99)), "world");
    assert_eq!(extract_selection(&plain, (50, 99)), "");
    assert_eq!(extract_selection(&lines(&["héllo"]), (1, 3)), "él");
}

#[test]
fn click_starts_an_empty_selection() {
    let mut state = state_with(&["abc", "de"]);
    let copied = handle_mouse(&mut state, MouseKind::LeftDown, 1, 2, pane(), 0, 0, 1000);
    assert_eq!(copied, None);
    assert_eq!(state.selection, Some((1, 1)));
    assert_eq!(state.drag_anchor, Some(1));
    assert_eq!(state.last_click, Some((1000, 1, 2)));
}

#[test]
fn click_outside_changes_nothing() {
    let mut state = state_with(&["abc", "de"]);
    state.selection = Some((1, 2));
    handle_mouse(&mut state, MouseKind::LeftDown, 0, 0, pane(), 0, 0, 1000);
    assert_eq!(state.selection, Some((1, 2)));
    assert_eq!(state.drag_anchor, None);
    assert_eq!(state.last_click, None);
}

#[test]
fn drag_selects_from_the_anchor() {
    let mut state = state_with(&["abc", "de"]);
    handle_mouse(&mut state, MouseKind::LeftDown, 2, 3, pane(), 0, 0, 1000);
    assert_eq!(state.selection, Some((6, 6)));
    handle_mouse(&mut state, MouseKind::LeftDrag, 1, 2, pane(), 0, 0, 1010);
    assert_eq!(state.selection, Some((6, 1)));
    handle_mouse(&mut state, MouseKind::LeftDrag, 0, 0, pane(), 0, 0, 1020);
    assert_eq!(state.selection, Some((6, 1)));
    handle_mouse(&mut state, MouseKind::LeftUp, 1, 2, pane(), 0, 0, 1030);
    assert_eq!(state.drag_anchor, None);
    assert_eq!(state.selection, Some((6, 1)));
    handle_mouse(&mut state, MouseKind::LeftDrag, 2, 2, pane(), 0, 0, 1040);
    assert_eq!(state.selection, Some((6, 1)));
}

#[test]
fn drag_sequences_stay_within_the_text() {
    let mut state = state_with(&["abc", "", "defgh ij", "k"]);
    let limit = total(&state.plain_lines);
    let kinds = [MouseKind::LeftDown, MouseKind::LeftDrag, MouseKind::LeftDrag, MouseKind::LeftUp];
    let mut now = 0u64;
    for row in 0..8u16 {
        for col in 0..20u16 {
            for (i, kind) in kinds.iter().enumerate() {
                now += 150;
                let r = (row + i as u16 * 3) % 8;
                let c = (col * 7 + i as u16 * 5) % 20;
                handle_mouse(&mut state, *kind, r, c, pane(), (row % 3) as u16, 0, now);
                if let Some((a, b)) = state.selection {
                    let (lo, hi) = (a.min(b).min(limit), a.max(b).min(limit));
                    assert!(lo <= hi && hi <= limit);
                    assert!(a <= limit && b <= limit);
                }
            }
        }
    }
}

#[test]
fn double_click_selects_the_word() {
    let mut state = state_with(&["hello world"]);
    handle_mouse(&mut state, MouseKind::LeftDown, 1, 8, pane(), 0, 0, 1000);
    assert_eq!(state.selection, Some((7, 7)));
    handle_mouse(&mut state, MouseKind::LeftUp, 1, 8, pane(), 0, 0, 1050);
    handle_mouse(&mut state, MouseKind::LeftDown, 1, 8, pane(), 0, 0, 1399);
    assert_eq!(state.selection, Some((6, 11)));
    assert_eq!(state.drag_anchor, None);
    assert_eq!(state.last_click, None);
}

#[test]
fn slow_or_displaced_second_click_is_a_new_click() {
    let mut state = state_with(&["hello world"]);
    handle_mouse(&mut state, MouseKind::LeftDown, 1, 8, pane(), 0, 0, 1000);
    handle_mouse(&mut state, MouseKind::LeftDown, 1, 8, pane(), 0, 0, 1400);
    assert_eq!(state.selection, Some((7, 7)));
    assert_eq!(state.last_click, Some((1400, 1, 8)));
    handle_mouse(&mut state, MouseKind::LeftDown, 1, 9, pane(), 0, 0, 1410);
    assert_eq!(state.selection, Some((8, 8)));
    assert_eq!(state.last_click, Some((1410, 1, 9)));
}

#[test]
fn click_on_a_copy_button_copies() {
    let mut state = state_with(&["some code ⎘"]);
    state.copy_buttons.push(CopyButton { line: 0, col_start: 9, content: "code".to_string() });
    state.copy_buttons.push(CopyButton { line: 3, col_start: 2, content: "more".to_string() });
    let copied = handle_mouse(&mut state, MouseKind::LeftDown, 1, 10, pane(), 0, 0, 1000);
    assert_eq!(copied, Some("code".to_string()));
    assert_eq!(state.selection, None);
    assert_eq!(state.last_click, None);
    let second = handle_mouse(&mut state, MouseKind::LeftDown, 1, 11, pane(), 0, 0, 1000);
    assert_eq!(second, Some("code".to_string()));
    let scrolled = handle_mouse(&mut state, MouseKind::LeftDown, 2, 4, pane(), 2, 0, 1000);
    assert_eq!(scrolled, Some("more".to_string()));
    let beside = handle_mouse(&mut state, MouseKind::LeftDown, 1, 12, pane(), 0, 0, 1000);
    assert_eq!(beside, None);
    assert_eq!(state.selection, Some((11, 11)));
}

#[test]
fn wheel_scrolls_and_follows() {
    let mut state = state_with(&[]);
    assert!(state.auto_follow);
    handle_mouse(&mut state, MouseKind::ScrollDown, 1, 1, pane(), 0, 10, 0);
    assert!(state.auto_follow);
    assert_eq!(state.chat_scroll, 0);
    handle_mouse(&mut state, MouseKind::ScrollUp, 1, 1, pane(), 0, 10, 0);
    assert!(!state.auto_follow);
    assert_eq!(state.chat_scroll, 7);
    handle_mouse(&mut state, MouseKind::ScrollUp, 1, 1, pane(), 0, 10, 0);
    handle_mouse(&mut state, MouseKind::ScrollUp, 1, 1, pane(), 0, 10, 0);
    handle_mouse(&mut state, MouseKind::ScrollUp, 1, 1, pane(), 0, 10, 0);
    assert_eq!(state.chat_scroll, 0);
    handle_mouse(&mut state, MouseKind::ScrollDown, 1, 1, pane(), 0, 10, 0);
    assert_eq!(state.chat_scroll, 3);
    assert!(!state.auto_follow);
    handle_mouse(&mut state, MouseKind::ScrollDown, 1, 1, pane(), 0, 10, 0);
    handle_mouse(&mut state, MouseKind::ScrollDown, 1, 1, pane(), 0, 10, 0);
    assert_eq!(state.chat_scroll, 9);
    handle_mouse(&mut state, MouseKind::ScrollDown, 1, 1, pane(), 0, 10, 0);
    assert_eq!(state.chat_scroll, 10);
    assert!(state.auto_follow);
    handle_mouse(&mut state, MouseKind::Other, 1, 1, pane(), 0, 10, 0);
    assert_eq!(state.chat_scroll, 10);
}

#[test]
fn whitespace_is_the_white_space_property() {
    let listed = |c: char| {
        matches!(
            c,
            '\u{9}'..='\u{d}'
                | ' '
                | '\u{85}'
                | '\u{a0}'
                | '\u{1680}'
                | '\u{2000}'..='\u{200a}'
                | '\u{2028}'
                | '\u{2029}'
                | '\u{202f}'
                | '\u{205f}'
                | '\u{3000}'
        )
    };
    for code in 0..=0x10ffffu32 {
        let Some(c) = char::from_u32(code) else { continue };
        assert_eq!(jose::text::is_blank(&vec![c]), listed(c), "U+{:04X}", code);
    }
}
