//! A terminal chat engine, verified with Verus.
//!
//! The engine keeps three coordinate spaces consistent: offsets into the
//! input buffer, offsets into the flat text of the rendered chat, and cells
//! of the screen. All of them count Unicode scalar values.
//!
//! - `text`, `wrap`, `cursor`: sequences of characters, fixed-width
//!   wrapping, and the mapping between an offset and its visual row and
//!   column, with the laws that tie the two together.
//! - `state`: the chat model.
//! - `rows`, `inline`, `render`: the renderer, from the transcript to
//!   styled lines, their plain-text mirror and the copy buttons.
//! - `selection`: mouse selection over offsets into the mirror.
//! - `input`: edits and cursor movement on the input buffer.
//! - `area`, `panel`: the panes of the terminal and what they show.
//! - `engine`: what a key press or a mouse event does to the state, and
//!   what it asks of the caller, who owns the terminal, the clipboard and
//!   the backend.
//! - `shell`, `command`, `stream`, `jwt`, `account`, `oauth`, `log`: the
//!   pure parts of command generation, of reading answers and tokens, and
//!   of signing in.
//!
//! Calls into other crates stand behind small functions whose contracts are
//! assumed, each documented where it is declared.

pub mod text;
pub mod wrap;
pub mod cursor;
pub mod state;
pub mod rows;
pub mod inline;
pub mod area;
pub mod render;
pub mod selection;
pub mod input;
pub mod panel;
pub mod engine;
pub mod shell;
pub mod account;
pub mod command;
pub mod log;
pub mod oauth;
pub mod jwt;
pub mod stream;
