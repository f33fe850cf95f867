//! The `minutes` command: what was said in a channel on one day, as a
//! Markdown document.

use vstd::prelude::*;

use crate::text::{
    after_first_space, before_first_space, first_space, same_text, strip_emphasis,
    without_emphasis,
};

verus! {

/// How many of the latest messages of a channel are looked through.
pub const HISTORY: u64 = 1000;

/// The form in which the command takes its day: day, month and year.
pub const DAY_FORMAT: &'static str = "%d/%m/%Y";

/// Why the command names no day of which minutes can be written.
#[derive(Debug, Clone, Copy, PartialEq, Eq, Structural)]
pub enum MinutesError {
    /// The line of the command has no argument.
    InsufficientArguments,
    /// The first argument is no day in the form that the command takes.
    InvalidDay,
}

/// The day that `chrono::NaiveDate::parse_from_str` reads in `text`, a date
/// written in the form `form`, as `NaiveDate` then writes it: year, month and
/// day. `None` where it reads no date. What it accepts is chrono's to say;
/// nothing more is known of it here.
pub uninterp spec fn day_read(text: Seq<char>, form: Seq<char>) -> Option<Seq<char>>;

/// Reads a day with `chrono::NaiveDate::parse_from_str` and writes it out
/// with the `to_string` of `NaiveDate`. Both depend on the two texts alone,
/// so the result is `day_read` of them. Not proved: the calls are chrono's.
#[verifier::external_body]
fn read_day(text: &str, form: &str) -> (day: Option<String>)
    ensures
        match day {
            Some(written) => day_read(text@, form@) == Some(written@),
            None => day_read(text@, form@) is None,
        },
{
    match chrono::NaiveDate::parse_from_str(text, form) {
        Ok(day) => Some(day.to_string()),
        Err(_) => None,
    }
}

/// A message as the minutes read it.
pub struct Posting {
    /// The day on which it was sent, written as the day of the minutes is.
    pub day: String,
    /// The time of day at which it was sent, in hours and minutes.
    pub time: String,
    /// The name of who sent it.
    pub author: String,
    /// What it says.
    pub content: String,
}

/// A message as its texts: what a `Posting` holds, character by character.
pub struct PostingText {
    /// The day on which it was sent.
    pub day: Seq<char>,
    /// The time of day at which it was sent.
    pub time: Seq<char>,
    /// The name of who sent it.
    pub author: Seq<char>,
    /// What it says.
    pub content: Seq<char>,
}

impl View for Posting {
    type V = PostingText;

    open spec fn view(&self) -> PostingText {
        PostingText {
            day: self.day@,
            time: self.time@,
            author: self.author@,
            content: self.content@,
        }
    }
}

/// The texts of each of `postings`.
pub open spec fn texts(postings: Seq<Posting>) -> Seq<PostingText> {
    Seq::new(postings.len(), |i: int| postings[i]@)
}

/// The first argument of a line: what stands between its first space and
/// the next one.
pub open spec fn first_argument(line: Seq<char>) -> Seq<char> {
    let rest = line.skip(first_space(line) + 1);
    rest.take(first_space(rest))
}

/// The day that a line asks for, given what was read in its first argument:
/// that day, or why there is none.
pub open spec fn day_asked(line: Seq<char>, read: Option<Seq<char>>) -> Result<
    Seq<char>,
    MinutesError,
> {
    if first_space(line) >= line.len() {
        Err(MinutesError::InsufficientArguments)
    } else {
        match read {
            Some(day) => Ok(day),
            None => Err(MinutesError::InvalidDay),
        }
    }
}

/// Whether `result` is `asked`, text for text.
pub open spec fn is_day(result: Result<String, MinutesError>, asked: Result<
    Seq<char>,
    MinutesError,
>) -> bool {
    match result {
        Ok(day) => asked == Ok::<Seq<char>, MinutesError>(day@),
        Err(e) => asked == Err::<Seq<char>, MinutesError>(e),
    }
}

/// The entry of one message: its time, its author in bold and without any
/// emphasis of the author's own, and what it says.
pub open spec fn posting_entry(posting: PostingText) -> Seq<char> {
    "\n"@ + posting.time + "\t**"@ + without_emphasis(posting.author) + "**:\t"@ + posting.content
        + "\n"@
}

/// The entries of the messages of `day` among `postings`, the last of them
/// first.
pub open spec fn entries_of(day: Seq<char>, postings: Seq<PostingText>) -> Seq<char>
    decreases postings.len(),
{
    if postings.len() == 0 {
        Seq::empty()
    } else if postings.first().day == day {
        entries_of(day, postings.drop_first()) + posting_entry(postings.first())
    } else {
        entries_of(day, postings.drop_first())
    }
}

/// The minutes of `day`: a heading, then the entries of that day.
pub open spec fn document_text(day: Seq<char>, postings: Seq<PostingText>) -> Seq<char> {
    "# Meeting minutes for "@ + day + " \n"@ + entries_of(day, postings)
}

/// The name of the file that holds the minutes of `day`.
pub open spec fn minutes_name_text(day: Seq<char>) -> Seq<char> {
    "minutes-"@ + day + ".md"@
}

/// The message that goes with the minutes of `day`.
pub open spec fn minutes_caption_text(day: Seq<char>) -> Seq<char> {
    "Meeting minutes for "@ + day
}

/// Reads the first argument of the command: what stands between the first
/// space of its line and the next, which may be nothing. A line without a
/// space has no argument.
pub fn day_argument(content: &str) -> (day: Option<&str>)
    ensures
        match day {
            Some(text) => first_space(content@) < content@.len() && text@ == first_argument(
                content@,
            ),
            None => first_space(content@) >= content@.len(),
        },
{
    match after_first_space(content) {
        Some(rest) => Some(before_first_space(rest)),
        None => None,
    }
}

/// Tells what to make of the first argument and of what was read in it:
/// without an argument there are too few, and an argument in which no day was
/// read names no valid day.
pub fn day_or_error(argument: Option<&str>, read: Option<String>) -> (result: Result<
    String,
    MinutesError,
>)
    ensures
        match result {
            Ok(day) => argument is Some && read == Some(day),
            Err(MinutesError::InsufficientArguments) => argument is None,
            Err(MinutesError::InvalidDay) => argument is Some && read is None,
        },
{
    match argument {
        None => Err(MinutesError::InsufficientArguments),
        Some(_) => match read {
            Some(day) => Ok(day),
            None => Err(MinutesError::InvalidDay),
        },
    }
}

/// Reads the day of which the command asks the minutes: its first argument,
/// taken as day, month and year, and written as year, month and day.
pub fn minutes_day(content: &str) -> (result: Result<String, MinutesError>)
    ensures
        is_day(result, day_asked(content@, day_read(first_argument(content@), DAY_FORMAT@))),
{
    match day_argument(content) {
        Some(text) => day_or_error(Some(text), read_day(text, DAY_FORMAT)),
        None => day_or_error(None, None),
    }
}

/// What the author of the command is told of an error.
pub fn error_message(error: MinutesError) -> (message: &'static str)
    ensures
        message@ == match error {
            MinutesError::InsufficientArguments => "Insufficient arguments provided."@,
            MinutesError::InvalidDay => "The day could not be read."@,
        },
{
    match error {
        MinutesError::InsufficientArguments => "Insufficient arguments provided.",
        MinutesError::InvalidDay => "The day could not be read.",
    }
}

/// Writes the minutes of `day` from the messages of a channel, given latest
/// first: a heading, then the entries of that day from the earliest on.
pub fn document(day: &str, postings: &[Posting]) -> (text: String)
    ensures
        text@ == document_text(day@, texts(postings@)),
{
    let mut text = String::from_str("# Meeting minutes for ");
    text.append(day);
    text.append(" \n");
    let ghost heading = text@;
    let ghost all = texts(postings@);
    let mut at: usize = postings.len();
    while at > 0
        invariant
            at <= postings.len(),
            all == texts(postings@),
            heading == "# Meeting minutes for "@ + day@ + " \n"@,
            text@ == heading + entries_of(day@, all.skip(at as int)),
        decreases at,
    {
        at -= 1;
        let posting = &postings[at];
        proof {
            let rest = all.skip(at as int);
            assert(rest.drop_first() =~= all.skip(at + 1));
        }
        if same_text(posting.day.as_str(), day) {
            text.append("\n");
            text.append(posting.time.as_str());
            text.append("\t**");
            text.append(strip_emphasis(posting.author.as_str()).as_str());
            text.append("**:\t");
            text.append(posting.content.as_str());
            text.append("\n");
            proof {
                assert(text@ =~= heading + (entries_of(day@, all.skip(at + 1)) + posting_entry(
                    posting@,
                )));
            }
        }
    }
    proof {
        assert(all.skip(0) =~= all);
    }
    text
}

/// Names the file that holds the minutes of `day`.
pub fn minutes_name(day: &str) -> (name: String)
    ensures
        name@ == minutes_name_text(day@),
{
    let mut name = String::from_str("minutes-");
    name.append(day);
    name.append(".md");
    name
}

/// Writes the message that goes with the minutes of `day`.
pub fn minutes_caption(day: &str) -> (caption: String)
    ensures
        caption@ == minutes_caption_text(day@),
{
    let mut caption = String::from_str("Meeting minutes for ");
    caption.append(day);
    caption
}

} // verus!
