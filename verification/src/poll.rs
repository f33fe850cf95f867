//! The `poll` command: a title, and one numbered line for each option.

use vstd::prelude::*;

verus! {

/// The most options that a poll can offer: one for each sign.
pub const MAX_OPTIONS: usize = 9;

/// The signs that number the options of a poll: the keycaps 1 to 9.
pub const REACTIONS: [&'static str; 9] = [
    "\u{31}\u{FE0F}\u{20E3}",
    "\u{32}\u{FE0F}\u{20E3}",
    "\u{33}\u{FE0F}\u{20E3}",
    "\u{34}\u{FE0F}\u{20E3}",
    "\u{35}\u{FE0F}\u{20E3}",
    "\u{36}\u{FE0F}\u{20E3}",
    "\u{37}\u{FE0F}\u{20E3}",
    "\u{38}\u{FE0F}\u{20E3}",
    "\u{39}\u{FE0F}\u{20E3}",
];

/// The colour of the frame of a poll: red, green and blue.
pub const COLOUR: (u8, u8, u8) = (0, 106, 176);

/// The result of `str::to_uppercase` on the text `s`: its upper case after the
/// Unicode tables of the standard library. Nothing more is known of it here.
pub uninterp spec fn uppercase(s: Seq<char>) -> Seq<char>;

/// `str::to_uppercase` depends on the characters of the text alone, so its
/// result is `uppercase` of them. Not proved: the method is the standard
/// library's.
pub assume_specification[ str::to_uppercase ](s: &str) -> (upper: String)
    ensures
        upper@ == uppercase(s@),
;

/// A poll as it is shown.
pub struct Poll {
    /// The heading, in upper case.
    pub title: String,
    /// One line for each option on offer.
    pub description: String,
    /// How many of the signs stand under the poll, from the first on.
    pub reactions: usize,
}

/// The options that a poll offers: the first nine of those it was given.
pub open spec fn offered(options: Seq<Seq<char>>) -> Seq<Seq<char>> {
    if options.len() <= MAX_OPTIONS {
        options
    } else {
        options.take(MAX_OPTIONS as int)
    }
}

/// The line of the option with the number `index`: its sign, then the option
/// as code.
pub open spec fn option_line(index: int, option: Seq<char>) -> Seq<char> {
    REACTIONS[index]@ + " `"@ + option + "`"@
}

/// The lines of `options`, numbered from the first sign on, each on a line of
/// its own.
pub open spec fn option_lines(options: Seq<Seq<char>>) -> Seq<char>
    decreases options.len(),
{
    if options.len() == 0 {
        Seq::empty()
    } else if options.len() == 1 {
        option_line(0, options[0])
    } else {
        option_lines(options.drop_last()) + "\n"@ + option_line(
            options.len() - 1,
            options.last(),
        )
    }
}

/// Writes the lines of the options on offer.
pub fn describe(options: &[&str]) -> (text: String)
    ensures
        text@ == option_lines(offered(options.deep_view())),
{
    let shown = if options.len() <= MAX_OPTIONS {
        options.len()
    } else {
        MAX_OPTIONS
    };
    let mut text = String::new();
    let mut at: usize = 0;
    while at < shown
        invariant
            at <= shown <= 9,
            shown <= options.len(),
            text@ == option_lines(options.deep_view().take(at as int)),
        decreases shown - at,
    {
        if at > 0 {
            text.append("\n");
        }
        text.append(REACTIONS[at]);
        text.append(" `");
        text.append(options[at]);
        text.append("`");
        proof {
            let done = options.deep_view().take(at as int);
            let next = options.deep_view().take(at + 1);
            assert(next.drop_last() =~= done);
        }
        at += 1;
    }
    proof {
        assert(options.deep_view().take(options.len() as int) =~= options.deep_view());
    }
    text
}

/// Makes a poll of the arguments of the command: the first is its title, the
/// others are its options. Without arguments there is no poll.
pub fn poll(args: &[&str]) -> (made: Option<Poll>)
    ensures
        match made {
            Some(poll) => {
                &&& args@.len() > 0
                &&& poll.title@ == uppercase(args[0]@)
                &&& poll.description@ == option_lines(offered(args.deep_view().skip(1)))
                &&& poll.reactions == offered(args.deep_view().skip(1)).len()
            },
            None => args@.len() == 0,
        },
{
    if args.len() == 0 {
        return None;
    }
    let options = vstd::slice::slice_subrange(args, 1, args.len());
    proof {
        assert(options.deep_view() =~= args.deep_view().skip(1));
    }
    let reactions = if options.len() <= MAX_OPTIONS {
        options.len()
    } else {
        MAX_OPTIONS
    };
    Some(Poll { title: args[0].to_uppercase(), description: describe(options), reactions })
}

} // verus!
