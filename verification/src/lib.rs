//! What a chat bot for team meetings decides and writes, apart from the chat
//! itself.
//!
//! - [`arglexer`] splits the line of a command into its arguments.
//! - [`charclass`] tells the classes of characters that the lexer goes by.
//! - [`agenda`] holds the agenda of the next meeting and writes it out.
//! - [`command`] reads what a line asks of the agenda.
//! - [`minutes`], [`poll`] and [`resource`] write the messages of the
//!   commands of these names.
//! - [`text`] has the operations on text that they share.
//!
//! Every function states what it returns over the characters of its
//! arguments. Talking to the chat, reading the clock and keeping the agenda in
//! its file are left to the program around this library.

use vstd::prelude::*;

pub mod agenda;
pub mod arglexer;
pub mod charclass;
pub mod command;
pub mod minutes;
pub mod poll;
pub mod resource;
pub mod text;

verus! {

/// The prefix of every command, such as in `!poll`.
pub const PREFIX: &'static str = "!";

} // verus!
