//! The `agenda` command: what a line of chat asks of the agenda.
//!
//! The word after the command names the sub-command. Only the text of an
//! addition, which follows that word, goes through the lexer.

use vstd::prelude::*;

use crate::agenda::{Agenda, Item};
use crate::arglexer::{
    arguments_of, arguments_text, command_arguments, command_end, command_word, lex_args,
    LexError,
};
use crate::text::{join_spaced, same_text, spaced, without_emphasis};

verus! {

/// The reaction that tells the author that the request was carried out.
pub const ACKNOWLEDGED: char = '\u{2705}';

/// The reaction that tells the author that the request was not understood.
pub const FAILURE: char = '\u{274c}';

/// What can be asked of the agenda.
#[derive(Debug, Clone, Copy, PartialEq, Eq, Structural)]
pub enum Subcommand {
    /// Put an item on the agenda.
    Add,
    /// Show the agenda in the channel of the meetings.
    Show,
    /// Hand the agenda out as a Markdown file.
    Export,
    /// Start a new, empty agenda.
    Clear,
    /// Anything else.
    Unrecognized,
}

/// What a line of chat asks of the agenda.
#[derive(Debug, PartialEq, Eq)]
pub enum Request {
    /// Put this text on the agenda.
    Add(String),
    /// Show the agenda in the channel of the meetings.
    Show,
    /// Hand the agenda out as a Markdown file.
    Export,
    /// Start a new, empty agenda.
    Clear,
    /// Nothing that the agenda knows.
    Unrecognized,
}

/// The sub-command that `word` names.
pub open spec fn subcommand_named(word: Seq<char>) -> Subcommand {
    if word == "add"@ || word == "append"@ || word == "push"@ {
        Subcommand::Add
    } else if word == "show"@ || word == "view"@ {
        Subcommand::Show
    } else if word == "export"@ {
        Subcommand::Export
    } else if word == "clear"@ || word == "new"@ {
        Subcommand::Clear
    } else {
        Subcommand::Unrecognized
    }
}

/// The word after the command: what stands between the whitespace character
/// that ends the command word and the next one. Empty where nothing follows
/// the command word.
pub open spec fn subcommand_word(line: Seq<char>) -> Seq<char> {
    let rest = arguments_text(line);
    rest.take(command_end(rest))
}

/// The sub-command of a line: the one that the word after the command names.
pub open spec fn subcommand_of(line: Seq<char>) -> Subcommand {
    subcommand_named(subcommand_word(line))
}

/// What a line would put on the agenda: the arguments that follow the word
/// after the command, or `None` where a quote among them stays open.
pub open spec fn item_arguments(line: Seq<char>) -> Option<Seq<Seq<char>>> {
    arguments_of(arguments_text(line))
}

/// Whether a line is malformed: it asks for an addition, and a quote in the
/// text to add stays open.
pub open spec fn is_malformed(line: Seq<char>) -> bool {
    subcommand_of(line) == Subcommand::Add && item_arguments(line) is None
}

/// Whether `request` is what `line` asks: it is of the kind that the word
/// after the command names, and what it adds is the text of the arguments
/// that follow that word, with one space between each two.
pub open spec fn is_request_of(request: Request, line: Seq<char>) -> bool {
    match request {
        Request::Add(text) => {
            &&& subcommand_of(line) == Subcommand::Add
            &&& item_arguments(line) is Some
            &&& text@ == spaced(item_arguments(line)->0)
        },
        Request::Show => subcommand_of(line) == Subcommand::Show,
        Request::Export => subcommand_of(line) == Subcommand::Export,
        Request::Clear => subcommand_of(line) == Subcommand::Clear,
        Request::Unrecognized => subcommand_of(line) == Subcommand::Unrecognized,
    }
}

/// What the agenda holds after `request` was carried out in the name of
/// `author`, where it held `stored` before: one more item after an addition,
/// nothing after a clearing, and what it held after anything else.
pub open spec fn agenda_after(request: Request, stored: Seq<Item>, author: Seq<char>) -> Seq<
    Item,
> {
    match request {
        Request::Add(text) => stored.push((without_emphasis(author), text@)),
        Request::Clear => Seq::empty(),
        _ => stored,
    }
}

/// Whether `request` changes the agenda, so that it has to be written back.
pub open spec fn changes_agenda(request: Request) -> bool {
    request is Add || request is Clear
}

/// The reaction that answers the outcome of a line: an acknowledgement where
/// the agenda was changed, a failure where the line was malformed or asked
/// for nothing known, none where the answer is a message.
pub open spec fn reaction_to(outcome: Result<Request, LexError>) -> Option<char> {
    match outcome {
        Ok(Request::Add(_)) => Some(ACKNOWLEDGED),
        Ok(Request::Clear) => Some(ACKNOWLEDGED),
        Ok(Request::Show) => None,
        Ok(Request::Export) => None,
        Ok(Request::Unrecognized) => Some(FAILURE),
        Err(_) => Some(FAILURE),
    }
}

/// Tells which sub-command a word names.
pub fn classify(word: &str) -> (sub: Subcommand)
    ensures
        sub == subcommand_named(word@),
{
    if same_text(word, "add") || same_text(word, "append") || same_text(word, "push") {
        Subcommand::Add
    } else if same_text(word, "show") || same_text(word, "view") {
        Subcommand::Show
    } else if same_text(word, "export") {
        Subcommand::Export
    } else if same_text(word, "clear") || same_text(word, "new") {
        Subcommand::Clear
    } else {
        Subcommand::Unrecognized
    }
}

/// Reads what a line of chat asks of the agenda. The word after the command
/// names the sub-command. For an addition, what follows that word is split
/// into arguments, which make the text of the item; if it cannot be split,
/// the line is malformed. Any other line is read whatever follows the word.
pub fn agenda_request(line: &str) -> (result: Result<Request, LexError>)
    ensures
        match result {
            Ok(request) => !is_malformed(line@) && is_request_of(request, line@),
            Err(e) => e == LexError::MalformedInput && is_malformed(line@),
        },
{
    let rest = match command_arguments(line) {
        Some(text) => text,
        None => {
            proof {
                reveal_strlit("");
                assert(""@ =~= arguments_text(line@));
            }
            ""
        },
    };
    match classify(command_word(rest)) {
        Subcommand::Add => match lex_args(rest) {
            Ok(args) => Ok(Request::Add(join_spaced(args.as_slice()))),
            Err(e) => Err(e),
        },
        Subcommand::Show => Ok(Request::Show),
        Subcommand::Export => Ok(Request::Export),
        Subcommand::Clear => Ok(Request::Clear),
        Subcommand::Unrecognized => Ok(Request::Unrecognized),
    }
}

/// Carries `request` out on the agenda, in the name of `author`, and tells
/// whether the agenda has to be written back.
pub fn carry_out(request: &Request, agenda: &mut Agenda, author: String) -> (changed: bool)
    ensures
        final(agenda)@ == agenda_after(*request, old(agenda)@, author@),
        changed == changes_agenda(*request),
{
    match request {
        Request::Add(text) => {
            agenda.push(author, text.clone());
            true
        },
        Request::Clear => {
            *agenda = Agenda::new();
            true
        },
        _ => false,
    }
}

/// Clearing leaves the empty agenda whatever was kept, so clearing twice
/// leaves what clearing once leaves.
pub proof fn lemma_clear_is_idempotent(stored: Seq<Item>, first: Seq<char>, second: Seq<char>)
    ensures
        agenda_after(Request::Clear, stored, first) == Seq::<Item>::empty(),
        agenda_after(Request::Clear, agenda_after(Request::Clear, stored, first), second)
            == agenda_after(Request::Clear, stored, first),
{
}

/// A line whose word after the command names no sub-command fails: it is
/// read as unrecognized, the reaction is the failure, and the agenda stays as
/// it was.
pub proof fn lemma_unknown_word_fails(
    line: Seq<char>,
    request: Request,
    stored: Seq<Item>,
    author: Seq<char>,
)
    requires
        subcommand_of(line) == Subcommand::Unrecognized,
        is_request_of(request, line),
    ensures
        request is Unrecognized,
        !is_malformed(line),
        reaction_to(Ok(request)) == Some(FAILURE),
        agenda_after(request, stored, author) == stored,
        !changes_agenda(request),
{
}

/// A line that asks to show, to export or to clear is read as that whatever
/// follows the word after the command, an open quote too.
pub proof fn lemma_only_additions_are_lexed(line: Seq<char>)
    requires
        subcommand_of(line) != Subcommand::Add,
    ensures
        !is_malformed(line),
{
}

/// Two additions, one after the other, leave the first item before the
/// second, after all that was kept.
pub proof fn lemma_additions_keep_order(
    stored: Seq<Item>,
    first: Request,
    second: Request,
    author: Seq<char>,
    other: Seq<char>,
)
    requires
        first is Add,
        second is Add,
    ensures
        agenda_after(second, agenda_after(first, stored, author), other) == stored + seq![
            (without_emphasis(author), first->0@),
            (without_emphasis(other), second->0@),
        ],
{
    assert(stored.push((without_emphasis(author), first->0@)).push(
        (without_emphasis(other), second->0@),
    ) =~= stored + seq![
        (without_emphasis(author), first->0@),
        (without_emphasis(other), second->0@),
    ]);
}

/// Picks the reaction that answers the outcome of a line.
pub fn reaction(outcome: &Result<Request, LexError>) -> (sign: Option<char>)
    ensures
        sign == reaction_to(*outcome),
{
    match outcome {
        Ok(Request::Add(_)) => Some(ACKNOWLEDGED),
        Ok(Request::Clear) => Some(ACKNOWLEDGED),
        Ok(Request::Show) => None,
        Ok(Request::Export) => None,
        Ok(Request::Unrecognized) => Some(FAILURE),
        Err(_) => Some(FAILURE),
    }
}

} // verus!
