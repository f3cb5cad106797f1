use jose::input::{
    backspace, delete, delete_prev_word, insert_char, insert_newline, move_down, move_left,
    move_right, move_up, paste, Modifiers,
};
use jose::state::ChatState;

fn none() -> Modifiers {
    Modifiers { shift: false, control: false, alt: false, super_key: false, hyper: false, meta: false }
}

fn alt() -> Modifiers {
    Modifiers { alt: true, ..none() }
}

fn ctrl() -> Modifiers {
    Modifiers { control: true, ..none() }
}

fn state_with(input: &str, cursor: usize) -> ChatState {
    let mut state = ChatState::new("m".to_string(), "s".to_string());
    state.input = input.to_string();
    state.cursor_pos = cursor;
    state
}

#[test]
fn insert_char_at_cursor() {
    let mut state = state_with("hllo", 1);
    insert_char(&mut state, 'é');
    assert_eq!(state.input, "héllo");
    assert_eq!(state.cursor_pos, 2);
    insert_char(&mut state, 'x');
    assert_eq!(state.input, "héxllo");
    assert_eq!(state.cursor_pos, 3);
}

#[test]
fn insert_clamps_a_stray_cursor() {
    let mut state = state_with("ab", 40);
    insert_char(&mut state, 'c');
    assert_eq!(state.input, "abc");
    assert_eq!(state.cursor_pos, 3);
}

#[test]
fn insert_newline_at_cursor() {
    let mut state = state_with("ab", 1);
    insert_newline(&mut state);
    assert_eq!(state.input, "a\nb");
    assert_eq!(state.cursor_pos, 2);
}

#[test]
fn paste_normalizes_line_endings() {
    let mut state = state_with("<>", 1);
    paste(&mut state, "a\r\nb\rc\nd\r\r\n");
    assert_eq!(state.input, "<a\nb\nc\nd\n\n>");
    assert_eq!(state.cursor_pos, 10);
}

#[test]
fn delete_prev_word_takes_word_and_space() {
    let mut input = "hello big  world".to_string();
    let mut cursor = 11;
    delete_prev_word(&mut input, &mut cursor);
    assert_eq!(input, "hello world");
    assert_eq!(cursor, 6);
    delete_prev_word(&mut input, &mut cursor);
    assert_eq!(input, "world");
    assert_eq!(cursor, 0);
    delete_prev_word(&mut input, &mut cursor);
    assert_eq!(input, "world");
    assert_eq!(cursor, 0);
    let mut stray = 99;
    delete_prev_word(&mut input, &mut stray);
    assert_eq!(input, "");
    assert_eq!(stray, 0);
}

#[test]
fn backspace_char_and_word() {
    let mut state = state_with("héllo wörld", 2);
    backspace(&mut state, none());
    assert_eq!(state.input, "hllo wörld");
    assert_eq!(state.cursor_pos, 1);
    state.cursor_pos = 10;
    backspace(&mut state, ctrl());
    assert_eq!(state.input, "hllo ");
    assert_eq!(state.cursor_pos, 5);
    state.cursor_pos = 0;
    backspace(&mut state, none());
    assert_eq!(state.input, "hllo ");
    assert_eq!(state.cursor_pos, 0);
}

#[test]
fn delete_char_and_word() {
    let mut state = state_with("abc def", 3);
    delete(&mut state, none());
    assert_eq!(state.input, "abcdef");
    assert_eq!(state.cursor_pos, 3);
    state.cursor_pos = 6;
    delete(&mut state, none());
    assert_eq!(state.input, "abcdef");
    assert_eq!(state.cursor_pos, 6);
    delete(&mut state, alt());
    assert_eq!(state.input, "");
    assert_eq!(state.cursor_pos, 0);
}

#[test]
fn move_left_and_right_by_char() {
    let mut state = state_with("ab", 1);
    move_left(&mut state, none());
    assert_eq!(state.cursor_pos, 0);
    move_left(&mut state, none());
    assert_eq!(state.cursor_pos, 0);
    move_right(&mut state, none());
    move_right(&mut state, none());
    assert_eq!(state.cursor_pos, 2);
    move_right(&mut state, none());
    assert_eq!(state.cursor_pos, 2);
    assert_eq!(state.input, "ab");
}

#[test]
fn move_left_and_right_by_word() {
    let mut state = state_with("one  two three", 14);
    move_left(&mut state, alt());
    assert_eq!(state.cursor_pos, 9);
    move_left(&mut state, alt());
    assert_eq!(state.cursor_pos, 5);
    state.cursor_pos = 4;
    move_left(&mut state, alt());
    assert_eq!(state.cursor_pos, 0);
    move_right(&mut state, alt());
    assert_eq!(state.cursor_pos, 5);
    move_right(&mut state, alt());
    assert_eq!(state.cursor_pos, 9);
    move_right(&mut state, alt());
    assert_eq!(state.cursor_pos, 14);
}

#[test]
fn move_up_and_down_keep_the_column() {
    let mut state = state_with("abcdefgh", 4);
    move_up(&mut state, 3);
    assert_eq!(state.cursor_pos, 1);
    move_up(&mut state, 3);
    assert_eq!(state.cursor_pos, 1);
    move_down(&mut state, 3);
    assert_eq!(state.cursor_pos, 4);
    move_down(&mut state, 3);
    assert_eq!(state.cursor_pos, 7);
    move_down(&mut state, 3);
    assert_eq!(state.cursor_pos, 8);
}

#[test]
fn move_down_clamps_to_a_short_line() {
    let mut state = state_with("abcdef\nxy", 5);
    move_down(&mut state, 10);
    assert_eq!(state.cursor_pos, 9);
    move_up(&mut state, 10);
    assert_eq!(state.cursor_pos, 2);
    let mut narrow = state_with("ab", 1);
    move_down(&mut narrow, 0);
    assert_eq!(narrow.cursor_pos, 2);
}

#[test]
fn backspace_clamps_a_stray_cursor() {
    let mut state = state_with("ab", 9);
    backspace(&mut state, none());
    assert_eq!(state.input, "a");
    assert_eq!(state.cursor_pos, 1);
    let mut empty = state_with("", 5);
    backspace(&mut empty, none());
    assert_eq!(empty.input, "");
    assert_eq!(empty.cursor_pos, 0);
}

#[test]
fn moving_down_from_behind_a_full_row() {
    let mut state = state_with("abcd\nefgh", 4);
    move_down(&mut state, 4);
    assert_eq!(state.cursor_pos, 9);
    move_up(&mut state, 4);
    assert_eq!(state.cursor_pos, 4);
    let mut wrapped = state_with("abcdefgh", 8);
    move_up(&mut wrapped, 4);
    assert_eq!(wrapped.cursor_pos, 4);
}
