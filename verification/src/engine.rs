//! The decisions of the event loop: what a key press or a mouse event does
//! to the state, and what it asks the caller to do. The caller owns the
//! terminal, the clipboard and the backend; it performs the action and
//! reports the outcome.

use vstd::prelude::*;
use vstd::string::StringExecFns;
use crate::text::{strs_view, control, chars_of, blank, is_blank};
use crate::area::{Area, compute_layout, row_of};
use crate::state::{ChatState, MessageRole, messages_view};
use crate::input::{
    Modifiers, inserted, word_deleted, backspaced, deleted, moved, left_target, right_target,
    up_target, down_target, with_input, cursor_in_bounds, insert_char, insert_newline,
    delete_prev_word, move_left, move_right, move_up, move_down, backspace, delete,
};
use crate::selection::{
    MouseKind, less, selected_text, extract_selection, plain_fits, after_mouse,
    mouse_copy, handle_mouse, gesture_in_bounds, scrolled_back, scrolled_on, scroll_back,
    scroll_on,
};
use crate::panel::{max_scroll, scroll_shown, chat_max_scroll, shown_scroll};

verus! {

/// The keys that the engine tells apart.
#[derive(Clone, Copy, Debug, PartialEq, Eq, Structural)]
pub enum Key {
    Char(char),
    Enter,
    Backspace,
    Delete,
    Left,
    Right,
    Up,
    Down,
    Home,
    End,
    PageUp,
    PageDown,
    Esc,
    Other,
}

/// What a key press asks of the caller.
pub enum KeyAction {
    /// Go on with the next event.
    Continue,
    /// Leave interactive mode.
    Exit,
    /// Put the text on the clipboard, then go on.
    Copy(String),
    /// Send the prompt to the backend and report the outcome.
    Send(String),
    /// Escape was pressed: wait a moment for a key that follows it.
    AwaitChord,
}

/// The number of lines that Page Up and Page Down scroll.
pub const PAGE_STEP: usize = 8;

/// The views of the turns.
pub open spec fn turns_view(v: Seq<(String, String)>) -> Seq<(Seq<char>, Seq<char>)> {
    v.map_values(|t: (String, String)| (t.0@, t.1@))
}

/// Whether the press is the copy-or-exit combination: `c` with Control,
/// Meta or Super, or the raw end-of-text character.
pub open spec fn ctrl_c(key: Key, modifiers: Modifiers) -> bool {
    match key {
        Key::Char(c) => (c == 'c' && (modifiers.control || modifiers.meta || modifiers.super_key))
            || c == '\x03',
        _ => false,
    }
}

/// The state without selection and drag anchor.
pub open spec fn cleared(a: ChatState) -> ChatState {
    ChatState { selection: None, drag_anchor: None, ..a }
}

/// The copy-or-exit combination: a selection that is not empty is copied
/// and dropped; else an input that is not empty is cleared; else the
/// session ends.
pub open spec fn copy_or_exit(a: ChatState, b: ChatState, action: KeyAction) -> bool {
    let ends = a.selection.unwrap_or((0, 0));
    if a.selection is Some && ends.0 != ends.1 {
        &&& b == cleared(a)
        &&& action matches KeyAction::Copy(t) && t@ == selected_text(
            strs_view(a.plain_lines@),
            (ends.0 as int, ends.1 as int),
        )
    } else if a.input@.len() > 0 {
        &&& action is Continue
        &&& b.input@.len() == 0
        &&& b == with_input(a, b.input, 0)
    } else {
        action is Exit && b == a
    }
}

/// Submitting the input: the prompt joins the transcript, followed by the
/// placeholder of the answer; the input is cleared; a view that follows the
/// newest line has its scroll position reset.
pub open spec fn sending(a: ChatState, b: ChatState) -> bool {
    &&& messages_view(b.messages@) == messages_view(a.messages@).push(
        (MessageRole::User, a.input@),
    ).push((MessageRole::Assistant, "...thinking..."@))
    &&& b.input@.len() == 0
    &&& b == ChatState {
        messages: b.messages,
        input: b.input,
        cursor_pos: 0,
        chat_scroll: if a.auto_follow {
            0
        } else {
            a.chat_scroll
        },
        ..a
    }
}

/// Enter: a blank input does nothing, any other is sent.
pub open spec fn entered(a: ChatState, b: ChatState, action: KeyAction) -> bool {
    if blank(a.input@) {
        b == a && action is Continue
    } else {
        sending(a, b) && (action matches KeyAction::Send(p) && p@ == a.input@)
    }
}

/// The outcome of a request, by its views.
pub open spec fn outcome_view(o: Result<String, String>) -> Result<Seq<char>, Seq<char>> {
    match o {
        Ok(r) => Ok(r@),
        Err(e) => Err(e@),
    }
}

/// The message that takes the placeholder's place: the answer, a note for
/// a blank answer, or the error.
pub open spec fn reply_text(outcome: Result<Seq<char>, Seq<char>>) -> Seq<char> {
    match outcome {
        Ok(r) => if blank(r) {
            "(empty response)"@
        } else {
            r
        },
        Err(e) => "Error: "@ + e,
    }
}

/// The turns that an outcome confirms: the prompt and the answer, the
/// prompt alone for a blank answer, nothing for an error.
pub open spec fn confirmed_turns(prompt: Seq<char>, outcome: Result<Seq<char>, Seq<char>>) -> Seq<
    (Seq<char>, Seq<char>),
> {
    match outcome {
        Ok(r) => if blank(r) {
            seq![("user"@, prompt)]
        } else {
            seq![("user"@, prompt), ("assistant"@, r)]
        },
        Err(_) => Seq::empty(),
    }
}

/// The outcome's arrival: the last message, the placeholder, gives way to
/// the reply; the confirmed turns join the history; the view follows the
/// newest line again.
pub open spec fn replied(
    a: ChatState,
    b: ChatState,
    prompt: Seq<char>,
    outcome: Result<Seq<char>, Seq<char>>,
) -> bool {
    &&& messages_view(b.messages@) == messages_view(a.messages@).take(
        less(a.messages@.len() as int, 1),
    ).push((MessageRole::Assistant, reply_text(outcome)))
    &&& turns_view(b.turns@) == turns_view(a.turns@) + confirmed_turns(prompt, outcome)
    &&& b == ChatState { messages: b.messages, turns: b.turns, auto_follow: true, ..a }
}

/// A character key: with Control, Meta or Super, `j` is a newline and `w`
/// deletes a word; Alt with `w` and the raw end-of-block character delete a
/// word too; any other character that is no control code is typed.
pub open spec fn char_typed(a: ChatState, b: ChatState, c: char, modifiers: Modifiers) -> bool {
    if modifiers.control || modifiers.meta || modifiers.super_key {
        if c == 'j' {
            inserted(a, b, seq!['\n'])
        } else if c == 'w' {
            word_deleted(a, b)
        } else {
            b == a
        }
    } else if (modifiers.alt && c == 'w') || c == '\u{17}' {
        word_deleted(a, b)
    } else if c == '\x03' || control(c) {
        b == a
    } else {
        inserted(a, b, seq![c])
    }
}

/// One key press, in a chat pane `chat_area` and an input pane with
/// `width` columns of text: `a` becomes `b`, and `action` is asked of the
/// caller. The copy-or-exit combination keeps the selection to copy it;
/// every other key drops the selection and the drag anchor first.
pub open spec fn key_step(
    a: ChatState,
    b: ChatState,
    key: Key,
    modifiers: Modifiers,
    chat_area: Area,
    width: int,
    action: KeyAction,
) -> bool {
    let c = cleared(a);
    if ctrl_c(key, modifiers) {
        copy_or_exit(a, b, action)
    } else {
        match key {
            Key::Esc => b == c && action is AwaitChord,
            Key::PageUp => b == scrolled_back(c, max_scroll(c, chat_area), PAGE_STEP as int)
                && action is Continue,
            Key::PageDown => b == scrolled_on(c, max_scroll(c, chat_area), PAGE_STEP as int)
                && action is Continue,
            Key::Left => moved(c, b, left_target(c, modifiers)) && action is Continue,
            Key::Right => moved(c, b, right_target(c, modifiers)) && action is Continue,
            Key::Up => moved(c, b, up_target(c, width)) && action is Continue,
            Key::Down => moved(c, b, down_target(c, width)) && action is Continue,
            Key::Home => moved(c, b, 0) && action is Continue,
            Key::End => moved(c, b, c.input@.len() as int) && action is Continue,
            Key::Enter => if modifiers.shift || modifiers.alt {
                inserted(c, b, seq!['\n']) && action is Continue
            } else {
                entered(c, b, action)
            },
            Key::Backspace => backspaced(c, b, modifiers) && action is Continue,
            Key::Delete => deleted(c, b, modifiers) && action is Continue,
            Key::Char(ch) => char_typed(c, b, ch, modifiers) && action is Continue,
            Key::Other => b == c && action is Continue,
        }
    }
}

/// One mouse event in a chat pane `chat_area`, scrolled as far as the state
/// and the transcript say: `a` becomes `b`, and `copied` is what goes to the
/// clipboard.
pub open spec fn mouse_step(
    a: ChatState,
    b: ChatState,
    kind: MouseKind,
    row: u16,
    column: u16,
    chat_area: Area,
    now_ms: u64,
    copied: Option<String>,
) -> bool {
    let max = max_scroll(a, chat_area);
    let scroll = scroll_shown(a, max) as u16;
    &&& b == after_mouse(a, kind, row, column, chat_area, scroll, max as usize, now_ms)
    &&& match copied {
        Some(t) => mouse_copy(a, kind, row, column, chat_area, scroll) == Some(t@),
        None => mouse_copy(a, kind, row, column, chat_area, scroll) is None,
    }
}

/// Whether the press is the copy-or-exit combination.
pub fn is_ctrl_c(key: Key, modifiers: Modifiers) -> (b: bool)
    ensures
        b == ctrl_c(key, modifiers),
{
    match key {
        Key::Char(c) => (c == 'c' && (modifiers.control || modifiers.meta || modifiers.super_key))
            || c == '\x03',
        _ => false,
    }
}

/// The copy-or-exit combination: copies and drops a selection that is not
/// empty; else clears an input that is not empty; else asks to leave.
pub fn handle_copy_or_exit(state: &mut ChatState) -> (action: KeyAction)
    ensures
        copy_or_exit(*old(state), *final(state), action),
        cursor_in_bounds(*old(state)) ==> cursor_in_bounds(*final(state)),
{
    match state.selection {
        Some((a, b)) => {
            if a != b {
                let text = extract_selection(&state.plain_lines, (a, b));
                state.selection = None;
                state.drag_anchor = None;
                return KeyAction::Copy(text);
            }
        },
        None => {},
    }
    if !state.input.as_str().is_empty() {
        state.input = String::new();
        state.cursor_pos = 0;
        return KeyAction::Continue;
    }
    KeyAction::Exit
}

/// Submits the input. A blank input changes nothing and gives `None`. Any
/// other joins the transcript with the placeholder of its answer behind
/// it, and is handed out to be sent.
pub fn begin_send(state: &mut ChatState) -> (prompt: Option<String>)
    ensures
        match prompt {
            Some(p) => !blank(old(state).input@) && p@ == old(state).input@ && sending(
                *old(state),
                *final(state),
            ),
            None => blank(old(state).input@) && *final(state) == *old(state),
        },
        cursor_in_bounds(*old(state)) ==> cursor_in_bounds(*final(state)),
{
    let chars = chars_of(state.input.as_str());
    if is_blank(&chars) {
        return None;
    }
    let prompt = state.input.clone();
    state.push_user_message(prompt.as_str());
    state.push_assistant_message("...thinking...");
    state.input = String::new();
    state.cursor_pos = 0;
    if state.auto_follow {
        state.chat_scroll = 0;
    }
    Some(prompt)
}

/// Takes in the outcome of the request for `prompt`: the placeholder gives
/// way to the answer, to a note for a blank answer, or to the error. An
/// answer confirms the prompt and itself as turns, a blank answer the
/// prompt alone, an error nothing.
pub fn finish_send(state: &mut ChatState, prompt: &str, outcome: Result<String, String>)
    ensures
        replied(*old(state), *final(state), prompt@, outcome_view(outcome)),
{
    let ghost before = turns_view(state.turns@);
    let response: String = match outcome {
        Ok(resp) => {
            let chars = chars_of(resp.as_str());
            let user = (String::from_str("user"), String::from_str(prompt));
            assert(turns_view(state.turns@.push(user)) =~= before.push(("user"@, prompt@)));
            state.turns.push(user);
            if is_blank(&chars) {
                assert(turns_view(state.turns@) =~= before + confirmed_turns(
                    prompt@,
                    outcome_view(outcome),
                ));
                String::from_str("(empty response)")
            } else {
                let ghost mid = turns_view(state.turns@);
                let answer = (String::from_str("assistant"), resp.clone());
                assert(turns_view(state.turns@.push(answer)) =~= mid.push(("assistant"@, resp@)));
                state.turns.push(answer);
                assert(turns_view(state.turns@) =~= before + confirmed_turns(
                    prompt@,
                    outcome_view(outcome),
                ));
                resp
            }
        },
        Err(err) => {
            assert(turns_view(state.turns@) =~= before + confirmed_turns(
                prompt@,
                outcome_view(outcome),
            ));
            String::from_str("Error: ").concat(err.as_str())
        },
    };
    let ghost msgs = messages_view(state.messages@);
    state.messages.pop();
    assert(messages_view(state.messages@) =~= msgs.take(less(msgs.len() as int, 1)));
    state.push_assistant_message(response.as_str());
    state.auto_follow = true;
}

/// Applies one key press to the state, in a chat pane `chat_area` and an
/// input pane with `input_width` columns of text, and says what the caller
/// is to do.
pub fn handle_key(
    state: &mut ChatState,
    key: Key,
    modifiers: Modifiers,
    chat_area: Area,
    input_width: usize,
) -> (action: KeyAction)
    ensures
        key_step(
            *old(state),
            *final(state),
            key,
            modifiers,
            chat_area,
            input_width as int,
            action,
        ),
        cursor_in_bounds(*old(state)) ==> cursor_in_bounds(*final(state)),
{
    if is_ctrl_c(key, modifiers) {
        return handle_copy_or_exit(state);
    }
    state.selection = None;
    state.drag_anchor = None;
    match key {
        Key::Esc => {
            return KeyAction::AwaitChord;
        },
        Key::PageUp => {
            let max = chat_max_scroll(state, chat_area);
            scroll_back(state, max, PAGE_STEP);
        },
        Key::PageDown => {
            let max = chat_max_scroll(state, chat_area);
            scroll_on(state, max, PAGE_STEP);
        },
        Key::Left => move_left(state, modifiers),
        Key::Right => move_right(state, modifiers),
        Key::Up => move_up(state, input_width),
        Key::Down => move_down(state, input_width),
        Key::Home => {
            state.cursor_pos = 0;
        },
        Key::End => {
            state.cursor_pos = chars_of(state.input.as_str()).len();
        },
        Key::Enter => {
            if modifiers.shift || modifiers.alt {
                insert_newline(state);
            } else {
                match begin_send(state) {
                    Some(prompt) => {
                        return KeyAction::Send(prompt);
                    },
                    None => {},
                }
            }
        },
        Key::Backspace => backspace(state, modifiers),
        Key::Delete => delete(state, modifiers),
        Key::Char(ch) => {
            if modifiers.control || modifiers.meta || modifiers.super_key {
                if ch == 'j' {
                    insert_newline(state);
                } else if ch == 'w' {
                    delete_prev_word(&mut state.input, &mut state.cursor_pos);
                }
            } else if (modifiers.alt && ch == 'w') || ch == '\u{17}' {
                delete_prev_word(&mut state.input, &mut state.cursor_pos);
            } else if ch != '\x03' && !ch.is_control() {
                insert_char(state, ch);
            }
        },
        Key::Other => {},
    }
    KeyAction::Continue
}

/// The key that follows Escape within a moment: Backspace or Delete make
/// the pair a word-delete chord; any other key, or none, ends the session.
pub fn resolve_chord(state: &mut ChatState, next: Option<Key>) -> (action: KeyAction)
    ensures
        next == Some(Key::Backspace) || next == Some(Key::Delete) ==> action is Continue
            && word_deleted(*old(state), *final(state)),
        !(next == Some(Key::Backspace) || next == Some(Key::Delete)) ==> action is Exit
            && *final(state) == *old(state),
        cursor_in_bounds(*old(state)) ==> cursor_in_bounds(*final(state)),
{
    match next {
        Some(Key::Backspace) | Some(Key::Delete) => {
            delete_prev_word(&mut state.input, &mut state.cursor_pos);
            KeyAction::Continue
        },
        _ => KeyAction::Exit,
    }
}

/// Applies one key press in a terminal of the given area: lays the panes
/// out and hands the key on. The panes span the terminal's width and lie
/// within its rows; which rows is the layout's choice, so the contract
/// holds for some such chat pane.
pub fn dispatch_key(state: &mut ChatState, key: Key, modifiers: Modifiers, terminal: Area) -> (action:
    KeyAction)
    ensures
        exists|chat_area: Area|
            row_of(chat_area, terminal) && #[trigger] key_step(
                *old(state),
                *final(state),
                key,
                modifiers,
                chat_area,
                less(terminal.width as int, 2),
                action,
            ),
        cursor_in_bounds(*old(state)) ==> cursor_in_bounds(*final(state)),
{
    let panes = compute_layout(terminal);
    let chat_area = panes[0];
    let input_width: usize = if panes[1].width < 2 {
        0
    } else {
        (panes[1].width - 2) as usize
    };
    handle_key(state, key, modifiers, chat_area, input_width)
}

/// Applies one mouse event in a terminal of the given area: lays the panes
/// out, works out how far the chat is scrolled, and hands the event on. The
/// contract holds for some chat pane that spans the terminal's width and
/// lies within its rows.
pub fn dispatch_mouse(
    state: &mut ChatState,
    kind: MouseKind,
    row: u16,
    column: u16,
    terminal: Area,
    now_ms: u64,
) -> (copied: Option<String>)
    requires
        plain_fits(strs_view(old(state).plain_lines@)),
    ensures
        exists|chat_area: Area|
            row_of(chat_area, terminal) && #[trigger] mouse_step(
                *old(state),
                *final(state),
                kind,
                row,
                column,
                chat_area,
                now_ms,
                copied,
            ),
        gesture_in_bounds(*old(state)) ==> gesture_in_bounds(*final(state)),
{
    let panes = compute_layout(terminal);
    let chat_area = panes[0];
    let max = chat_max_scroll(state, chat_area);
    let scroll = shown_scroll(state, max);
    let ghost a = *state;
    let copied = handle_mouse(state, kind, row, column, chat_area, scroll, max, now_ms);
    proof {
        assert(scroll_shown(a, max_scroll(a, chat_area)) as u16 == scroll);
        assert(max_scroll(a, chat_area) as usize == max);
        assert(mouse_step(a, *state, kind, row, column, chat_area, now_ms, copied));
    }
    copied
}

} // verus!
