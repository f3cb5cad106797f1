//! The chat model: the transcript, the input buffer with its cursor, and the
//! scroll and selection state of one interactive session.

use vstd::prelude::*;
use vstd::string::StringExecFns;
use crate::text::{decimal, push_decimal, chars_of, string_of};

verus! {

/// Who wrote a message.
#[derive(Clone, Copy, Debug, PartialEq, Eq, Structural)]
pub enum MessageRole {
    System,
    User,
    Assistant,
}

/// One entry of the transcript.
pub struct ChatMessage {
    pub role: MessageRole,
    pub content: String,
}

impl View for ChatMessage {
    type V = (MessageRole, Seq<char>);

    open spec fn view(&self) -> (MessageRole, Seq<char>) {
        (self.role, self.content@)
    }
}

/// A clickable region of the rendered chat that copies `content`.
pub struct CopyButton {
    /// Index of the visual line, before scrolling.
    pub line: usize,
    /// Column at which the button glyph starts.
    pub col_start: usize,
    /// The text that a click copies.
    pub content: String,
}

impl View for CopyButton {
    type V = (int, int, Seq<char>);

    open spec fn view(&self) -> (int, int, Seq<char>) {
        (self.line as int, self.col_start as int, self.content@)
    }
}

/// The state of one interactive session.
pub struct ChatState {
    pub model: String,
    pub session_id: String,
    /// The exchanges sent to the backend so far, as (role, content).
    pub turns: Vec<(String, String)>,
    pub input: String,
    /// Offset into `input`, in characters.
    pub cursor_pos: usize,
    pub messages: Vec<ChatMessage>,
    pub chat_scroll: usize,
    pub auto_follow: bool,
    /// Selection as two offsets into the flattened plain text of the chat.
    pub selection: Option<(usize, usize)>,
    /// Offset at which the current drag began.
    pub drag_anchor: Option<usize>,
    /// Time in milliseconds, row and column of the last left click.
    pub last_click: Option<(u64, u16, u16)>,
    /// Copy buttons of the last render.
    pub copy_buttons: Vec<CopyButton>,
    /// Plain text of each visual line of the last render.
    pub plain_lines: Vec<String>,
}

/// The views of the messages.
pub open spec fn messages_view(v: Seq<ChatMessage>) -> Seq<(MessageRole, Seq<char>)> {
    v.map_values(|m: ChatMessage| m@)
}

/// The views of the copy buttons.
pub open spec fn buttons_view(v: Seq<CopyButton>) -> Seq<(int, int, Seq<char>)> {
    v.map_values(|b: CopyButton| b@)
}

/// The greeting that opens every transcript.
pub open spec fn greeting() -> Seq<(MessageRole, Seq<char>)> {
    seq![
        (MessageRole::System, "JOSE interactive mode"@),
        (
            MessageRole::System,
            "Enter sends. Newline: Shift+Enter, Alt+Enter, or Ctrl+J. Press Esc or Ctrl+C to exit."@,
        ),
    ]
}

/// The identifier of a session begun by the process `pid` at `millis`
/// milliseconds since the epoch.
pub open spec fn session_name(pid: u32, millis: u64) -> Seq<char> {
    "jose-"@ + decimal(pid as nat) + seq!['-'] + decimal(millis as nat)
}

/// The identifier of a session begun by the process `pid` at `millis`
/// milliseconds since the epoch.
pub fn session_id(pid: u32, millis: u64) -> (id: String)
    ensures
        id@ == session_name(pid, millis),
{
    let mut out = chars_of("jose-");
    push_decimal(&mut out, pid as u64);
    out.push('-');
    push_decimal(&mut out, millis);
    assert(out@ =~= session_name(pid, millis));
    string_of(&out)
}

impl ChatState {
    /// A fresh session for `model`, identified by `session_id`: the transcript
    /// holds the greeting, the input is empty, the view follows the newest
    /// line and nothing is selected.
    pub fn new(model: String, session_id: String) -> (state: ChatState)
        ensures
            state.model == model,
            state.session_id == session_id,
            state.turns@.len() == 0,
            state.input@.len() == 0,
            state.cursor_pos == 0,
            messages_view(state.messages@) == greeting(),
            state.chat_scroll == 0,
            state.auto_follow,
            state.selection is None,
            state.drag_anchor is None,
            state.last_click is None,
            state.copy_buttons@.len() == 0,
            state.plain_lines@.len() == 0,
    {
        let mut messages: Vec<ChatMessage> = Vec::new();
        messages.push(
            ChatMessage {
                role: MessageRole::System,
                content: String::from_str("JOSE interactive mode"),
            },
        );
        messages.push(
            ChatMessage {
                role: MessageRole::System,
                content: String::from_str(
                    "Enter sends. Newline: Shift+Enter, Alt+Enter, or Ctrl+J. Press Esc or Ctrl+C to exit.",
                ),
            },
        );
        assert(messages_view(messages@) =~= greeting());
        ChatState {
            model,
            session_id,
            turns: Vec::new(),
            input: String::new(),
            cursor_pos: 0,
            messages,
            chat_scroll: 0,
            auto_follow: true,
            selection: None,
            drag_anchor: None,
            last_click: None,
            copy_buttons: Vec::new(),
            plain_lines: Vec::new(),
        }
    }

    /// Appends `msg` to the transcript as a message of `role`.
    pub fn push_message(&mut self, role: MessageRole, msg: &str)
        ensures
            messages_view(final(self).messages@) == messages_view(old(self).messages@).push(
                (role, msg@),
            ),
            *final(self) == (ChatState { messages: final(self).messages, ..*old(self) }),
    {
        let m = ChatMessage { role, content: String::from_str(msg) };
        assert(messages_view(self.messages@.push(m)) =~= messages_view(self.messages@).push(
            (role, msg@),
        ));
        self.messages.push(m);
    }

    /// Appends `msg` to the transcript as a message of the user.
    pub fn push_user_message(&mut self, msg: &str)
        ensures
            messages_view(final(self).messages@) == messages_view(old(self).messages@).push(
                (MessageRole::User, msg@),
            ),
            *final(self) == (ChatState { messages: final(self).messages, ..*old(self) }),
    {
        self.push_message(MessageRole::User, msg);
    }

    /// Appends `msg` to the transcript as a message of the assistant.
    pub fn push_assistant_message(&mut self, msg: &str)
        ensures
            messages_view(final(self).messages@) == messages_view(old(self).messages@).push(
                (MessageRole::Assistant, msg@),
            ),
            *final(self) == (ChatState { messages: final(self).messages, ..*old(self) }),
    {
        self.push_message(MessageRole::Assistant, msg);
    }
}

} // verus!
