//! Splitting a command line into its arguments.
//!
//! A command line is a command word, one whitespace character, and the text of
//! the arguments. An argument is either a word, a maximal run of alphanumeric
//! characters, or a sentence, everything between two double quotes. Whatever
//! stands between arguments is dropped.
//!
//! The lexer goes by the classes of the characters alone. `lex_classes` finds
//! where the arguments lie in a text of given classes; `lex_text` tells the
//! classes of a text, finds the arguments and cuts them out.

use vstd::prelude::*;

use crate::charclass::{
    char_classes, classes_of, is_quote, is_space, is_word_char, unicode_alphanumeric,
    unicode_whitespace, CharClass,
};
use crate::text::{first_from, lemma_first_from, lemma_first_from_alike, lemma_first_from_is};

verus! {

/// Why a command line could not be split into arguments.
#[derive(Debug, Clone, Copy, PartialEq, Eq, Structural)]
pub enum LexError {
    /// A double quote opens a sentence that no later double quote closes.
    MalformedInput,
}

/// Where the word that starts at `start` ends: the index of the first
/// character from `start` on that is no word character.
pub open spec fn word_end(s: Seq<char>, start: int) -> int {
    first_from(s, start, |c: char| !is_word_char(c))
}

/// Where the sentence that the quote at `open` starts is closed: the index of
/// the next double quote, or the length of `s` where none follows.
pub open spec fn closing_quote(s: Seq<char>, open: int) -> int {
    first_from(s, open + 1, |c: char| is_quote(c))
}

/// What `found` holds, then what `rest` holds; nothing where `rest` is
/// malformed.
pub open spec fn then_rest<T>(found: Seq<T>, rest: Option<Seq<T>>) -> Option<Seq<T>> {
    match rest {
        Some(more) => Some(found + more),
        None => None,
    }
}

/// The arguments in `s` from index `from` on, or `None` where a quote stays
/// open.
pub open spec fn arguments_from(s: Seq<char>, from: int) -> Option<Seq<Seq<char>>>
    decreases s.len() - from,
{
    if from < 0 || from >= s.len() {
        Some(Seq::empty())
    } else if is_quote(s[from]) {
        let close = closing_quote(s, from);
        if close >= s.len() {
            None
        } else {
            proof {
                lemma_first_from(s, from + 1, |c: char| is_quote(c));
            }
            then_rest(seq![s.subrange(from + 1, close)], arguments_from(s, close + 1))
        }
    } else if is_word_char(s[from]) {
        let end = word_end(s, from);
        proof {
            lemma_first_from(s, from, |c: char| !is_word_char(c));
        }
        then_rest(seq![s.subrange(from, end)], arguments_from(s, end))
    } else {
        arguments_from(s, from + 1)
    }
}

/// The index at which the command word of `line` ends: that of the first
/// whitespace character, a double quote never counting as one, or the length
/// of the line where it has none.
pub open spec fn command_end(line: Seq<char>) -> int {
    first_from(line, 0, |c: char| is_space(c))
}

/// The text after the command word and the one whitespace character that
/// ends it; empty where the line has no whitespace.
pub open spec fn arguments_text(line: Seq<char>) -> Seq<char> {
    if command_end(line) < line.len() {
        line.skip(command_end(line) + 1)
    } else {
        Seq::empty()
    }
}

/// The arguments of a command line, or `None` where a quote stays open.
pub open spec fn arguments_of(line: Seq<char>) -> Option<Seq<Seq<char>>> {
    arguments_from(arguments_text(line), 0)
}

/// Where the word that starts at `start` ends, by the classes of the
/// characters: the index of the first from `start` on that is no `Word`.
pub open spec fn span_end(classes: Seq<CharClass>, start: int) -> int {
    first_from(classes, start, |class: CharClass| class != CharClass::Word)
}

/// Where the sentence that the quote at `open` starts is closed, by the
/// classes of the characters: the index of the next `Quote`, or the length of
/// `classes` where none follows.
pub open spec fn span_close(classes: Seq<CharClass>, open: int) -> int {
    first_from(classes, open + 1, |class: CharClass| class == CharClass::Quote)
}

/// Where the command word ends, by the classes of the characters: the index
/// of the first `Space`, or the length of `classes` where there is none.
pub open spec fn space_at(classes: Seq<CharClass>) -> int {
    first_from(classes, 0, |class: CharClass| class == CharClass::Space)
}

/// Where the arguments lie in a text whose characters have the classes
/// `classes`, from index `from` on: for each argument the index of its first
/// character and the index after its last. `None` where a quote stays open.
pub open spec fn spans_from(classes: Seq<CharClass>, from: int) -> Option<Seq<(int, int)>>
    decreases classes.len() - from,
{
    if from < 0 || from >= classes.len() {
        Some(Seq::empty())
    } else if classes[from] == CharClass::Quote {
        let close = span_close(classes, from);
        if close >= classes.len() {
            None
        } else {
            proof {
                lemma_first_from(classes, from + 1, |class: CharClass| class == CharClass::Quote);
            }
            then_rest(seq![(from + 1, close)], spans_from(classes, close + 1))
        }
    } else if classes[from] == CharClass::Word {
        let end = span_end(classes, from);
        proof {
            lemma_first_from(classes, from, |class: CharClass| class != CharClass::Word);
        }
        then_rest(seq![(from, end)], spans_from(classes, end))
    } else {
        spans_from(classes, from + 1)
    }
}

/// The spans as pairs of integers.
pub open spec fn bounds(spans: Seq<(usize, usize)>) -> Seq<(int, int)> {
    Seq::new(spans.len(), |i: int| (spans[i].0 as int, spans[i].1 as int))
}

/// The pieces of `s` that lie at `spans`.
pub open spec fn cut(s: Seq<char>, spans: Seq<(int, int)>) -> Seq<Seq<char>> {
    Seq::new(spans.len(), |i: int| s.subrange(spans[i].0, spans[i].1))
}

/// The pieces of `s` that lie at `spans`; nothing where there are no spans.
pub open spec fn cut_at(s: Seq<char>, spans: Option<Seq<(int, int)>>) -> Option<Seq<Seq<char>>> {
    match spans {
        Some(found) => Some(cut(s, found)),
        None => None,
    }
}

/// Whether every span begins at or after `from`, ends at or after its
/// beginning, and ends within `len`.
pub open spec fn spans_within(spans: Seq<(int, int)>, from: int, len: int) -> bool {
    forall|i: int|
        0 <= i < spans.len() ==> from <= (#[trigger] spans[i]).0 <= spans[i].1 <= len
}

/// The spans of the arguments lie within the text, from `from` on.
pub proof fn lemma_spans_lie_within(classes: Seq<CharClass>, from: int)
    requires
        0 <= from <= classes.len(),
    ensures
        spans_from(classes, from) matches Some(spans) ==> spans_within(
            spans,
            from,
            classes.len() as int,
        ),
    decreases classes.len() - from,
{
    if from >= classes.len() {
    } else if classes[from] == CharClass::Quote {
        let close = span_close(classes, from);
        lemma_first_from(classes, from + 1, |class: CharClass| class == CharClass::Quote);
        if close < classes.len() {
            lemma_spans_lie_within(classes, close + 1);
        }
    } else if classes[from] == CharClass::Word {
        let end = span_end(classes, from);
        lemma_first_from(classes, from, |class: CharClass| class != CharClass::Word);
        lemma_spans_lie_within(classes, end);
    } else {
        lemma_spans_lie_within(classes, from + 1);
    }
}

/// The arguments of a text are its pieces at the spans that the classes of
/// its characters give.
pub proof fn lemma_arguments_lie_at_spans(s: Seq<char>, from: int)
    requires
        0 <= from <= s.len(),
    ensures
        arguments_from(s, from) == cut_at(s, spans_from(classes_of(s), from)),
    decreases s.len() - from,
{
    let classes = classes_of(s);
    let nothing = Seq::<(int, int)>::empty();
    if from >= s.len() {
        assert(cut(s, nothing) =~= Seq::<Seq<char>>::empty());
    } else if is_quote(s[from]) {
        lemma_first_from_alike(
            s,
            |c: char| is_quote(c),
            classes,
            |class: CharClass| class == CharClass::Quote,
            from + 1,
        );
        lemma_first_from(s, from + 1, |c: char| is_quote(c));
        let close = closing_quote(s, from);
        if close < s.len() {
            lemma_arguments_lie_at_spans(s, close + 1);
            if spans_from(classes, close + 1) is Some {
                let rest = spans_from(classes, close + 1)->0;
                assert(cut(s, seq![(from + 1, close)] + rest) =~= seq![
                    s.subrange(from + 1, close),
                ] + cut(s, rest));
            }
        }
    } else if is_word_char(s[from]) {
        lemma_first_from_alike(
            s,
            |c: char| !is_word_char(c),
            classes,
            |class: CharClass| class != CharClass::Word,
            from,
        );
        lemma_first_from(s, from, |c: char| !is_word_char(c));
        let end = word_end(s, from);
        lemma_arguments_lie_at_spans(s, end);
        if spans_from(classes, end) is Some {
            let rest = spans_from(classes, end)->0;
            assert(cut(s, seq![(from, end)] + rest) =~= seq![s.subrange(from, end)] + cut(
                s,
                rest,
            ));
        }
    } else {
        lemma_arguments_lie_at_spans(s, from + 1);
    }
}

/// Finds the end of the word that starts at `start`.
pub fn lex_word(classes: &[CharClass], start: usize) -> (end: usize)
    ensures
        end == span_end(classes@, start as int),
{
    let n = classes.len();
    if start >= n {
        return n;
    }
    let mut end = start;
    while end < n && classes[end] == CharClass::Word
        invariant
            start <= end <= n,
            n == classes@.len(),
            forall|k: int| start <= k < end ==> #[trigger] classes@[k] == CharClass::Word,
        decreases n - end,
    {
        end += 1;
    }
    proof {
        lemma_first_from_is(
            classes@,
            start as int,
            |class: CharClass| class != CharClass::Word,
            end as int,
        );
    }
    end
}

/// Finds the double quote that closes the sentence opened at `start`.
pub fn lex_sentence(classes: &[CharClass], start: usize) -> (close: Option<usize>)
    ensures
        match close {
            Some(at) => at == span_close(classes@, start as int) && start < at < classes@.len(),
            None => span_close(classes@, start as int) >= classes@.len(),
        },
{
    let n = classes.len();
    if start >= n {
        return None;
    }
    let mut at = start + 1;
    while at < n && classes[at] != CharClass::Quote
        invariant
            start < at <= n,
            n == classes@.len(),
            forall|k: int| start < k < at ==> #[trigger] classes@[k] != CharClass::Quote,
        decreases n - at,
    {
        at += 1;
    }
    proof {
        lemma_first_from_is(
            classes@,
            start as int + 1,
            |class: CharClass| class == CharClass::Quote,
            at as int,
        );
    }
    if at < n {
        Some(at)
    } else {
        None
    }
}

/// Finds the end of the command word: the first whitespace character.
pub fn find_command_end(classes: &[CharClass]) -> (at: usize)
    ensures
        at == space_at(classes@),
        at <= classes@.len(),
{
    let n = classes.len();
    let mut at: usize = 0;
    while at < n && classes[at] != CharClass::Space
        invariant
            at <= n,
            n == classes@.len(),
            forall|k: int| 0 <= k < at ==> #[trigger] classes@[k] != CharClass::Space,
        decreases n - at,
    {
        at += 1;
    }
    proof {
        lemma_first_from_is(classes@, 0, |class: CharClass| class == CharClass::Space, at as int);
    }
    at
}

/// Finds the arguments in a text whose characters have the classes
/// `classes`: for each word and each sentence, in their order, the index of
/// its first character and the index after its last. A sentence that is not
/// closed makes the text malformed.
pub fn lex_classes(classes: &[CharClass]) -> (result: Result<Vec<(usize, usize)>, LexError>)
    ensures
        match result {
            Ok(spans) => spans_from(classes@, 0) == Some(bounds(spans@)),
            Err(e) => e == LexError::MalformedInput && spans_from(classes@, 0) is None,
        },
{
    let n = classes.len();
    let mut spans: Vec<(usize, usize)> = Vec::new();
    let mut at: usize = 0;
    while at < n
        invariant
            at <= n,
            n == classes@.len(),
            spans_from(classes@, 0) == then_rest(bounds(spans@), spans_from(classes@, at as int)),
        decreases n - at,
    {
        let ghost before = bounds(spans@);
        match classes[at] {
            CharClass::Quote => {
                match lex_sentence(classes, at) {
                    Some(close) => {
                        spans.push((at + 1, close));
                        proof {
                            let span = seq![(at + 1, close as int)];
                            assert(bounds(spans@) =~= before + span);
                            assert(before + (span + spans_from(classes@, close + 1)->0) =~= (before
                                + span) + spans_from(classes@, close + 1)->0);
                        }
                        at = close + 1;
                    },
                    None => {
                        return Err(LexError::MalformedInput);
                    },
                }
            },
            CharClass::Word => {
                let end = lex_word(classes, at);
                proof {
                    lemma_first_from(
                        classes@,
                        at as int,
                        |class: CharClass| class != CharClass::Word,
                    );
                }
                spans.push((at, end));
                proof {
                    let span = seq![(at as int, end as int)];
                    assert(bounds(spans@) =~= before + span);
                    assert(before + (span + spans_from(classes@, end as int)->0) =~= (before
                        + span) + spans_from(classes@, end as int)->0);
                }
                at = end;
            },
            _ => {
                at += 1;
            },
        }
    }
    proof {
        assert(bounds(spans@) + Seq::<(int, int)>::empty() =~= bounds(spans@));
    }
    Ok(spans)
}

/// The command word of a line: the text before the first whitespace
/// character, the whole line where it has none.
pub fn command_word(message: &str) -> (word: &str)
    ensures
        word@ == message@.take(command_end(message@)),
{
    let classes = char_classes(message);
    proof {
        lemma_first_from_alike(
            message@,
            |c: char| is_space(c),
            classes@,
            |class: CharClass| class == CharClass::Space,
            0,
        );
    }
    message.substring_char(0, find_command_end(classes.as_slice()))
}

/// Cuts the command word off a line: the text after the first whitespace
/// character, or `None` where the line has no whitespace.
pub fn command_arguments(message: &str) -> (rest: Option<&str>)
    ensures
        match rest {
            Some(text) => command_end(message@) < message@.len() && text@ == arguments_text(
                message@,
            ),
            None => command_end(message@) >= message@.len(),
        },
{
    let classes = char_classes(message);
    proof {
        lemma_first_from_alike(
            message@,
            |c: char| is_space(c),
            classes@,
            |class: CharClass| class == CharClass::Space,
            0,
        );
    }
    let at = find_command_end(classes.as_slice());
    if at < classes.len() {
        Some(message.substring_char(at + 1, classes.len()))
    } else {
        None
    }
}

/// Splits the text of the arguments into words and sentences: tells the
/// class of each character, finds where the arguments lie, and cuts them out.
pub fn lex_text(arguments: &str) -> (result: Result<Vec<&str>, LexError>)
    ensures
        match result {
            Ok(args) => arguments_from(arguments@, 0) == Some(args.deep_view()),
            Err(e) => e == LexError::MalformedInput && arguments_from(arguments@, 0) is None,
        },
{
    let classes = char_classes(arguments);
    proof {
        lemma_arguments_lie_at_spans(arguments@, 0);
        lemma_spans_lie_within(classes@, 0);
    }
    match lex_classes(classes.as_slice()) {
        Err(e) => Err(e),
        Ok(spans) => {
            let mut args: Vec<&str> = Vec::new();
            let mut at: usize = 0;
            while at < spans.len()
                invariant
                    at <= spans.len(),
                    classes@.len() == arguments@.len(),
                    spans_within(bounds(spans@), 0, arguments@.len() as int),
                    args.deep_view() == cut(arguments@, bounds(spans@)).take(at as int),
                decreases spans.len() - at,
            {
                let (first, end) = spans[at];
                proof {
                    assert(bounds(spans@)[at as int] == (first as int, end as int));
                }
                let ghost before = args.deep_view();
                let piece = arguments.substring_char(first, end);
                args.push(piece);
                proof {
                    assert(args.deep_view() =~= before.push(piece@));
                    assert(args.deep_view() =~= cut(arguments@, bounds(spans@)).take(at + 1));
                }
                at += 1;
            }
            proof {
                let all = cut(arguments@, bounds(spans@));
                assert(all.take(all.len() as int) =~= all);
            }
            Ok(args)
        },
    }
}

/// Splits a command line into its arguments: the words and sentences that
/// follow the command word, in their order. A line without whitespace has
/// none. A sentence that is not closed makes the line malformed.
pub fn lex_args(message: &str) -> (result: Result<Vec<&str>, LexError>)
    ensures
        match result {
            Ok(args) => arguments_of(message@) == Some(args.deep_view()),
            Err(e) => e == LexError::MalformedInput && arguments_of(message@) is None,
        },
{
    match command_arguments(message) {
        Some(arguments) => lex_text(arguments),
        None => Ok(Vec::new()),
    }
}

/// The pieces into which the whitespace characters cut `s` from index `from`
/// on: one piece before each whitespace character and one after the last,
/// empty pieces included.
pub open spec fn whitespace_split_from(s: Seq<char>, from: int) -> Seq<Seq<char>>
    decreases s.len() - from,
{
    let cut = first_from(s, from, |c: char| unicode_whitespace(c));
    if from < 0 || cut >= s.len() {
        seq![s.subrange(from, s.len() as int)]
    } else {
        proof {
            lemma_first_from(s, from, |c: char| unicode_whitespace(c));
        }
        seq![s.subrange(from, cut)] + whitespace_split_from(s, cut + 1)
    }
}

/// The pieces into which the whitespace characters cut `s`, without the empty
/// ones.
pub open spec fn whitespace_split(s: Seq<char>) -> Seq<Seq<char>> {
    whitespace_split_from(s, 0).filter(|piece: Seq<char>| piece.len() > 0)
}

/// The number of double quotes in `s`.
pub open spec fn quote_count(s: Seq<char>) -> nat {
    s.filter(|c: char| is_quote(c)).len()
}

proof fn lemma_plain_text_from(s: Seq<char>, from: int)
    requires
        0 <= from <= s.len(),
        forall|i: int| 0 <= i < s.len() ==> !is_quote(#[trigger] s[i]),
        forall|i: int|
            0 <= i < s.len() ==> unicode_whitespace(#[trigger] s[i]) || unicode_alphanumeric(s[i]),
    ensures
        arguments_from(s, from) == Some(
            whitespace_split_from(s, from).filter(|piece: Seq<char>| piece.len() > 0),
        ),
    decreases s.len() - from,
{
    let kept = |piece: Seq<char>| piece.len() > 0;
    let white = |c: char| unicode_whitespace(c);
    let cut = first_from(s, from, white);
    let piece = s.subrange(from, cut);
    lemma_first_from(s, from, white);
    if from < cut {
        assert forall|k: int| from <= k < cut implies is_word_char(#[trigger] s[k]) by {}
        lemma_first_from_is(s, from, |c: char| !is_word_char(c), cut);
    }
    if cut >= s.len() {
        let nothing = Seq::<Seq<char>>::empty();
        assert(nothing.filter(kept) =~= nothing) by {
            reveal(Seq::filter);
        }
        nothing.lemma_filter_prepend(piece, kept);
    } else {
        lemma_plain_text_from(s, cut + 1);
        whitespace_split_from(s, cut + 1).lemma_filter_prepend(piece, kept);
        assert(arguments_from(s, cut) == arguments_from(s, cut + 1));
    }
}

/// A line without double quotes, in which every character after the command
/// word that is not whitespace is alphanumeric, is split at its whitespace:
/// its arguments are the non-empty pieces of the text after the command word.
pub proof fn lemma_plain_line_splits_at_whitespace(line: Seq<char>)
    requires
        forall|i: int| 0 <= i < line.len() ==> !is_quote(#[trigger] line[i]),
        forall|i: int|
            0 <= i < arguments_text(line).len() ==> unicode_whitespace(
                #[trigger] arguments_text(line)[i],
            ) || unicode_alphanumeric(arguments_text(line)[i]),
    ensures
        arguments_of(line) == Some(whitespace_split(arguments_text(line))),
{
    lemma_first_from(line, 0, |c: char| is_space(c));
    lemma_plain_text_from(arguments_text(line), 0);
}

/// The number of double quotes in `s` from index `from` on.
spec fn quotes_from(s: Seq<char>, from: int) -> nat {
    quote_count(s.skip(from))
}

proof fn lemma_quotes_step(s: Seq<char>, from: int)
    requires
        0 <= from < s.len(),
    ensures
        quotes_from(s, from) == quotes_from(s, from + 1) + if is_quote(s[from]) {
            1nat
        } else {
            0nat
        },
{
    assert(s.skip(from) =~= seq![s[from]] + s.skip(from + 1));
    s.skip(from + 1).lemma_filter_prepend(s[from], |c: char| is_quote(c));
}

proof fn lemma_quotes_skip(s: Seq<char>, from: int, to: int)
    requires
        0 <= from <= to <= s.len(),
        forall|k: int| from <= k < to ==> !is_quote(#[trigger] s[k]),
    ensures
        quotes_from(s, from) == quotes_from(s, to),
    decreases to - from,
{
    if from < to {
        lemma_quotes_step(s, from);
        lemma_quotes_skip(s, from + 1, to);
    }
}

proof fn lemma_open_quote_from(s: Seq<char>, from: int)
    requires
        0 <= from <= s.len(),
    ensures
        arguments_from(s, from) is None <==> quotes_from(s, from) % 2 == 1,
    decreases s.len() - from,
{
    if from >= s.len() {
        assert(Seq::<char>::empty().filter(|c: char| is_quote(c)).len() == 0) by {
            reveal(Seq::filter);
        }
    } else if is_quote(s[from]) {
        let close = closing_quote(s, from);
        lemma_first_from(s, from + 1, |c: char| is_quote(c));
        lemma_quotes_step(s, from);
        lemma_quotes_skip(s, from + 1, close);
        if close < s.len() {
            lemma_quotes_step(s, close);
            lemma_open_quote_from(s, close + 1);
        } else {
            lemma_open_quote_from(s, close);
        }
    } else if is_word_char(s[from]) {
        let end = word_end(s, from);
        lemma_first_from(s, from, |c: char| !is_word_char(c));
        lemma_quotes_skip(s, from, end);
        lemma_open_quote_from(s, end);
    } else {
        lemma_quotes_step(s, from);
        lemma_open_quote_from(s, from + 1);
    }
}

/// A line is malformed exactly when the text after its command word holds an
/// odd number of double quotes.
pub proof fn lemma_malformed_iff_odd_quotes(line: Seq<char>)
    ensures
        arguments_of(line) is None <==> quote_count(arguments_text(line)) % 2 == 1,
{
    let text = arguments_text(line);
    assert(text.skip(0) =~= text);
    lemma_open_quote_from(text, 0);
}

/// Characters that neither open a sentence nor belong to a word are dropped:
/// the arguments from the first of them on are those that follow the last.
pub proof fn lemma_separators_are_dropped(s: Seq<char>, from: int, to: int)
    requires
        0 <= from <= to <= s.len(),
        forall|k: int| from <= k < to ==> !is_quote(#[trigger] s[k]) && !is_word_char(s[k]),
    ensures
        arguments_from(s, from) == arguments_from(s, to),
    decreases to - from,
{
    if from < to {
        lemma_separators_are_dropped(s, from + 1, to);
    }
}

/// Whether no text among `args` holds a double quote.
pub open spec fn free_of_quotes(args: Seq<Seq<char>>) -> bool {
    forall|i: int, j: int|
        0 <= i < args.len() && 0 <= j < args[i].len() ==> !is_quote(#[trigger] args[i][j])
}

proof fn lemma_no_quote_from(s: Seq<char>, from: int)
    requires
        0 <= from <= s.len(),
    ensures
        arguments_from(s, from) matches Some(args) ==> free_of_quotes(args),
    decreases s.len() - from,
{
    if from >= s.len() {
    } else if is_quote(s[from]) {
        let close = closing_quote(s, from);
        lemma_first_from(s, from + 1, |c: char| is_quote(c));
        if close < s.len() {
            lemma_no_quote_from(s, close + 1);
            if arguments_from(s, close + 1) is Some {
                let rest = arguments_from(s, close + 1)->0;
                let sentence = s.subrange(from + 1, close);
                let args = seq![sentence] + rest;
                assert forall|i: int, j: int|
                    0 <= i < args.len() && 0 <= j < args[i].len() implies !is_quote(
                    #[trigger] args[i][j],
                ) by {}
            }
        }
    } else if is_word_char(s[from]) {
        let end = word_end(s, from);
        lemma_first_from(s, from, |c: char| !is_word_char(c));
        lemma_no_quote_from(s, end);
        if arguments_from(s, end) is Some {
            let rest = arguments_from(s, end)->0;
            let word = s.subrange(from, end);
            let args = seq![word] + rest;
            assert forall|i: int, j: int|
                0 <= i < args.len() && 0 <= j < args[i].len() implies !is_quote(
                #[trigger] args[i][j],
            ) by {}
        }
    } else {
        lemma_no_quote_from(s, from + 1);
    }
}

/// The double quotes around a sentence are no part of it: no argument of a
/// line holds a double quote.
pub proof fn lemma_arguments_hold_no_quote(line: Seq<char>)
    ensures
        arguments_of(line) matches Some(args) ==> free_of_quotes(args),
{
    lemma_no_quote_from(arguments_text(line), 0);
}

/// A text made of word characters alone is one argument, itself.
pub proof fn lemma_word_is_one_argument(word: Seq<char>)
    requires
        word.len() > 0,
        forall|i: int| 0 <= i < word.len() ==> is_word_char(#[trigger] word[i]),
    ensures
        arguments_from(word, 0) == Some(seq![word]),
{
    lemma_first_from_is(word, 0, |c: char| !is_word_char(c), word.len() as int);
    assert(word.subrange(0, word.len() as int) =~= word);
    assert(arguments_from(word, word.len() as int) == Some(Seq::<Seq<char>>::empty()));
    assert(seq![word] + Seq::<Seq<char>>::empty() =~= seq![word]);
}

/// Whatever stands between two double quotes is one argument: a text without
/// double quotes, set between two, gives that text and nothing else, with its
/// whitespace and its punctuation.
pub proof fn lemma_sentence_is_one_argument(inner: Seq<char>)
    requires
        forall|i: int| 0 <= i < inner.len() ==> !is_quote(#[trigger] inner[i]),
    ensures
        arguments_from(seq!['"'] + inner + seq!['"'], 0) == Some(seq![inner]),
{
    let s = seq!['"'] + inner + seq!['"'];
    let close: int = inner.len() as int + 1;
    assert forall|k: int| 1 <= k < close implies !is_quote(#[trigger] s[k]) by {
        assert(s[k] == inner[k - 1]);
    }
    lemma_first_from_is(s, 1, |c: char| is_quote(c), close);
    assert(s.subrange(1, close) =~= inner);
    assert(arguments_from(s, close + 1) == Some(Seq::<Seq<char>>::empty()));
    assert(seq![inner] + Seq::<Seq<char>>::empty() =~= seq![inner]);
}

} // verus!
