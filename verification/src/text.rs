//! Small operations on text that the commands share.

use vstd::prelude::*;

verus! {

/// The character that sets text in bold in a chat message.
pub const EMPHASIS: char = '*';

/// `s` without the characters that mark emphasis.
pub open spec fn without_emphasis(s: Seq<char>) -> Seq<char> {
    s.filter(|c: char| c != EMPHASIS)
}

/// `words` in one text, with one space between each two of them.
pub open spec fn spaced(words: Seq<Seq<char>>) -> Seq<char>
    decreases words.len(),
{
    if words.len() == 0 {
        Seq::empty()
    } else if words.len() == 1 {
        words[0]
    } else {
        spaced(words.drop_last()) + seq![' '] + words.last()
    }
}

/// The least index from `from` on at which `s` holds an element that `found`
/// accepts; the length of `s` where it holds none.
pub open spec fn first_from<T>(s: Seq<T>, from: int, found: spec_fn(T) -> bool) -> int
    decreases s.len() - from,
{
    if from >= s.len() {
        s.len() as int
    } else if found(s[from]) {
        from
    } else {
        first_from(s, from + 1, found)
    }
}

/// The index of the first space of `line`, or its length where it has none.
pub open spec fn first_space(line: Seq<char>) -> int {
    first_from(line, 0, |c: char| c == ' ')
}

/// `first_from` lies between `from` and the end, passes over no element that
/// `found` accepts, and stops on one unless it reaches the end.
pub proof fn lemma_first_from<T>(s: Seq<T>, from: int, found: spec_fn(T) -> bool)
    requires
        0 <= from <= s.len(),
    ensures
        from <= first_from(s, from, found) <= s.len(),
        forall|k: int| from <= k < first_from(s, from, found) ==> !found(#[trigger] s[k]),
        first_from(s, from, found) < s.len() ==> found(s[first_from(s, from, found)]),
    decreases s.len() - from,
{
    if from < s.len() && !found(s[from]) {
        lemma_first_from(s, from + 1, found);
    }
}

/// An index that passes over no accepted element and stops on one, or at the
/// end, is the one that `first_from` gives.
pub proof fn lemma_first_from_is<T>(s: Seq<T>, from: int, found: spec_fn(T) -> bool, at: int)
    requires
        0 <= from <= at <= s.len(),
        forall|k: int| from <= k < at ==> !found(#[trigger] s[k]),
        at < s.len() ==> found(s[at]),
    ensures
        first_from(s, from, found) == at,
    decreases at - from,
{
    if from < at {
        lemma_first_from_is(s, from + 1, found, at);
    }
}

/// Two sequences of one length, element for element accepted alike, have
/// their first accepted element at one index.
pub proof fn lemma_first_from_alike<S, T>(
    s: Seq<S>,
    left: spec_fn(S) -> bool,
    t: Seq<T>,
    right: spec_fn(T) -> bool,
    from: int,
)
    requires
        s.len() == t.len(),
        0 <= from <= s.len(),
        forall|k: int| 0 <= k < s.len() ==> left(#[trigger] s[k]) == right(t[k]),
    ensures
        first_from(s, from, left) == first_from(t, from, right),
    decreases s.len() - from,
{
    if from < s.len() {
        assert(left(s[from]) == right(t[from]));
        if !left(s[from]) {
            lemma_first_from_alike(s, left, t, right, from + 1);
        }
    }
}

/// A filter keeps the whole of a text in which it accepts every character.
pub proof fn lemma_filter_keeps_all(s: Seq<char>, kept: spec_fn(char) -> bool)
    requires
        forall|i: int| 0 <= i < s.len() ==> kept(#[trigger] s[i]),
    ensures
        s.filter(kept) == s,
    decreases s.len(),
{
    reveal(Seq::filter);
    if s.len() > 0 {
        lemma_filter_keeps_all(s.drop_last(), kept);
    }
}

/// Text without emphasis holds no character that marks it, so taking the
/// emphasis out a second time changes nothing.
pub proof fn lemma_without_emphasis_is_clean(s: Seq<char>)
    ensures
        forall|i: int|
            0 <= i < without_emphasis(s).len() ==> #[trigger] without_emphasis(s)[i] != EMPHASIS,
        without_emphasis(without_emphasis(s)) == without_emphasis(s),
{
    let kept = |c: char| c != EMPHASIS;
    assert forall|i: int| 0 <= i < s.filter(kept).len() implies #[trigger] s.filter(kept)[i]
        != EMPHASIS by {
        s.lemma_filter_pred(kept, i);
    }
    lemma_filter_keeps_all(s.filter(kept), kept);
}

/// The characters of `text`, in order, one element each.
pub fn to_chars(text: &str) -> (chars: Vec<char>)
    ensures
        chars@ == text@,
{
    let mut chars: Vec<char> = Vec::new();
    for c in it: text.chars()
        invariant
            it.seq() == text@,
            chars@ == it.seq().take(it.index()),
    {
        chars.push(c);
    }
    chars
}

/// Whether two texts hold the same characters.
pub fn same_text(left: &str, right: &str) -> (same: bool)
    ensures
        same == (left@ == right@),
{
    let a = to_chars(left);
    let b = to_chars(right);
    if a.len() != b.len() {
        return false;
    }
    let mut at: usize = 0;
    while at < a.len()
        invariant
            at <= a.len(),
            a.len() == b.len(),
            a@ == left@,
            b@ == right@,
            forall|k: int| 0 <= k < at ==> a@[k] == b@[k],
        decreases a.len() - at,
    {
        if a[at] != b[at] {
            return false;
        }
        at += 1;
    }
    proof {
        assert(a@ =~= b@);
    }
    true
}

/// Finds the first space among `chars`.
fn find_space(chars: &[char]) -> (at: usize)
    ensures
        at == first_space(chars@),
        at <= chars@.len(),
{
    let n = chars.len();
    let mut at: usize = 0;
    while at < n && chars[at] != ' '
        invariant
            at <= n,
            n == chars@.len(),
            forall|k: int| 0 <= k < at ==> #[trigger] chars@[k] != ' ',
        decreases n - at,
    {
        at += 1;
    }
    proof {
        lemma_first_from_is(chars@, 0, |c: char| c == ' ', at as int);
    }
    at
}

/// What stands before the first space of `line`; the whole of a line without
/// a space.
pub fn before_first_space(line: &str) -> (head: &str)
    ensures
        head@ == line@.take(first_space(line@)),
{
    let chars = to_chars(line);
    line.substring_char(0, find_space(chars.as_slice()))
}

/// What follows the first space of `line`, or `None` where it has no space.
pub fn after_first_space(line: &str) -> (rest: Option<&str>)
    ensures
        match rest {
            Some(text) => first_space(line@) < line@.len() && text@ == line@.skip(
                first_space(line@) + 1,
            ),
            None => first_space(line@) >= line@.len(),
        },
{
    let chars = to_chars(line);
    let at = find_space(chars.as_slice());
    if at < chars.len() {
        Some(line.substring_char(at + 1, chars.len()))
    } else {
        None
    }
}

/// Takes every character that marks emphasis out of `name`.
pub fn strip_emphasis(name: &str) -> (clean: String)
    ensures
        clean@ == without_emphasis(name@),
{
    let chars = to_chars(name);
    let n = chars.len();
    let ghost kept = |c: char| c != EMPHASIS;
    let mut clean = String::new();
    let mut start: usize = 0;
    let mut at: usize = 0;
    proof {
        lemma_filter_keeps_all(Seq::<char>::empty(), kept);
    }
    while at < n
        invariant
            start <= at <= n,
            n == chars@.len(),
            chars@ == name@,
            kept == |c: char| c != EMPHASIS,
            clean@ == name@.take(start as int).filter(kept),
            forall|k: int| start <= k < at ==> chars@[k] != EMPHASIS,
        decreases n - at,
    {
        if chars[at] == EMPHASIS {
            let run = name.substring_char(start, at);
            clean.append(run);
            proof {
                let before = name@.take(start as int);
                lemma_filter_keeps_all(run@, kept);
                Seq::filter_distributes_over_add(before, run@, kept);
                (before + run@).lemma_filter_push(name@[at as int], kept);
                assert((before + run@).push(name@[at as int]) =~= name@.take(at + 1));
            }
            start = at + 1;
        }
        at += 1;
    }
    let run = name.substring_char(start, n);
    clean.append(run);
    proof {
        let before = name@.take(start as int);
        lemma_filter_keeps_all(run@, kept);
        Seq::filter_distributes_over_add(before, run@, kept);
        assert(before + run@ =~= name@);
    }
    clean
}

/// Writes `words` into one text, with one space between each two of them.
pub fn join_spaced(words: &[&str]) -> (text: String)
    ensures
        text@ == spaced(words.deep_view()),
{
    let mut text = String::new();
    let mut at: usize = 0;
    while at < words.len()
        invariant
            at <= words.len(),
            text@ == spaced(words.deep_view().take(at as int)),
        decreases words.len() - at,
    {
        if at > 0 {
            text.append(" ");
        }
        text.append(words[at]);
        proof {
            reveal_strlit(" ");
            let done = words.deep_view().take(at as int);
            let next = words.deep_view().take(at + 1);
            assert(next.drop_last() =~= done);
        }
        at += 1;
    }
    proof {
        assert(words.deep_view().take(at as int) =~= words.deep_view());
    }
    text
}

} // verus!
