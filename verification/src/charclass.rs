//! What the lexer needs to know of a character: its class.

use vstd::prelude::*;

verus! {

/// The answer of `char::is_alphanumeric` for `c`: whether Unicode classes the
/// character as alphabetic or numeric. The tables behind it are the standard
/// library's; nothing more is known of it here.
pub uninterp spec fn unicode_alphanumeric(c: char) -> bool;

/// The answer of `char::is_whitespace` for `c`: whether Unicode counts the
/// character as white space. The table behind it is the standard library's;
/// nothing more is known of it here.
pub uninterp spec fn unicode_whitespace(c: char) -> bool;

/// `char::is_alphanumeric` depends on the character alone, so its answer is
/// `unicode_alphanumeric` of that character. Not proved: the method is the
/// standard library's.
pub assume_specification[ char::is_alphanumeric ](c: char) -> (b: bool)
    ensures
        b == unicode_alphanumeric(c),
;

/// `char::is_whitespace` depends on the character alone, so its answer is
/// `unicode_whitespace` of that character. Not proved: the method is the
/// standard library's.
pub assume_specification[ char::is_whitespace ](c: char) -> (b: bool)
    ensures
        b == unicode_whitespace(c),
;

/// The class of a character. Every character has exactly one.
#[derive(Debug, Clone, Copy, PartialEq, Eq, Structural)]
pub enum CharClass {
    /// The double quote, which opens and closes a sentence.
    Quote,
    /// Whitespace, which ends the command word.
    Space,
    /// A character of a word: alphanumeric.
    Word,
    /// Anything else, such as punctuation.
    Other,
}

/// The double quote, which opens and closes a sentence.
pub open spec fn is_quote(c: char) -> bool {
    c == '"'
}

/// A character that separates: whitespace. The double quote is never one.
pub open spec fn is_space(c: char) -> bool {
    !is_quote(c) && unicode_whitespace(c)
}

/// A character of a word: alphanumeric. Neither the double quote nor
/// whitespace is ever one.
pub open spec fn is_word_char(c: char) -> bool {
    !is_quote(c) && !unicode_whitespace(c) && unicode_alphanumeric(c)
}

/// The class of `c`: the double quote first, then whitespace, then the
/// alphanumeric characters, then the rest.
pub open spec fn class_of(c: char) -> CharClass {
    if is_quote(c) {
        CharClass::Quote
    } else if is_space(c) {
        CharClass::Space
    } else if is_word_char(c) {
        CharClass::Word
    } else {
        CharClass::Other
    }
}

/// The classes of the characters of `s`, one for each and in their order.
pub open spec fn classes_of(s: Seq<char>) -> Seq<CharClass> {
    Seq::new(s.len(), |i: int| class_of(s[i]))
}

/// Tells the class of a character.
pub fn char_class(c: char) -> (class: CharClass)
    ensures
        class == class_of(c),
{
    if c == '"' {
        CharClass::Quote
    } else if c.is_whitespace() {
        CharClass::Space
    } else if c.is_alphanumeric() {
        CharClass::Word
    } else {
        CharClass::Other
    }
}

/// Tells the class of each character of `text`.
pub fn char_classes(text: &str) -> (classes: Vec<CharClass>)
    ensures
        classes@ == classes_of(text@),
{
    let mut classes: Vec<CharClass> = Vec::new();
    for c in it: text.chars()
        invariant
            it.seq() == text@,
            classes@ == classes_of(it.seq().take(it.index())),
    {
        classes.push(char_class(c));
        proof {
            assert(classes@ =~= classes_of(it.seq().take(it.index() + 1)));
        }
    }
    proof {
        assert(text@.take(text@.len() as int) =~= text@);
    }
    classes
}

} // verus!
