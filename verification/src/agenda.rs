//! The agenda of the next meeting: what was put on it and by whom, in the
//! order in which it came.

use vstd::prelude::*;

use crate::text::{lemma_without_emphasis_is_clean, strip_emphasis, without_emphasis, EMPHASIS};

verus! {

/// What an agenda without items reads as.
pub const NO_ITEMS: &'static str = "**No items recorded** - sorry about that";

/// What opens the line of an item, before the name of its author.
pub const ITEM_OPEN: &'static str = "\n** - ";

/// What stands between the name of an author and the item.
pub const ITEM_CLOSE: &'static str = "**\t\t";

/// The file in which the agenda is kept from one command to the next.
pub const STORE: &'static str = "agenda.json";

/// The name of the channel in which the agenda is shown.
pub const MEETINGS: &'static str = "meetings";

/// An item as the agenda holds it: the name of its author, then its text.
pub type Item = (Seq<char>, Seq<char>);

/// The line of one item: the author in bold, without any emphasis of the
/// author's own, then the text as it is.
pub open spec fn item_line(item: Item) -> Seq<char> {
    ITEM_OPEN@ + without_emphasis(item.0) + ITEM_CLOSE@ + item.1
}

/// The lines of `items`, one after the other in the order of the items.
pub open spec fn item_lines(items: Seq<Item>) -> Seq<char>
    decreases items.len(),
{
    if items.len() == 0 {
        Seq::empty()
    } else {
        item_lines(items.drop_last()) + item_line(items.last())
    }
}

/// The message that shows the agenda of `date` in a channel.
pub open spec fn display_text(items: Seq<Item>, date: Seq<char>) -> Seq<char> {
    if items.len() == 0 {
        NO_ITEMS@
    } else {
        "**Meeting Agenda "@ + date + "**"@ + item_lines(items)
    }
}

/// The Markdown document that holds the agenda of `date`.
pub open spec fn export_text(items: Seq<Item>, date: Seq<char>) -> Seq<char> {
    if items.len() == 0 {
        NO_ITEMS@
    } else {
        "# Meeting Agenda "@ + date + item_lines(items)
    }
}

/// The name of the file that holds the exported agenda of `date`.
pub open spec fn export_name_text(date: Seq<char>) -> Seq<char> {
    "agenda-"@ + date + ".md"@
}

/// The message that goes with the exported agenda of `date`.
pub open spec fn export_caption_text(date: Seq<char>) -> Seq<char> {
    "**Meeting Agenda "@ + date + "\n**"@
}

/// The items of the next meeting, oldest first.
pub struct Agenda {
    items: Vec<(String, String)>,
}

impl View for Agenda {
    type V = Seq<Item>;

    closed spec fn view(&self) -> Seq<Item> {
        self.items.deep_view()
    }
}

impl Agenda {
    /// An agenda without items.
    pub fn new() -> (agenda: Agenda)
        ensures
            agenda@ == Seq::<Item>::empty(),
    {
        Agenda { items: Vec::new() }
    }

    /// The agenda that holds `items`, in their order and as they are.
    pub fn from_items(items: Vec<(String, String)>) -> (agenda: Agenda)
        ensures
            agenda@ == items.deep_view(),
    {
        Agenda { items }
    }

    /// The agenda that was read from where it is kept: the items that were
    /// found there, or none where nothing could be read.
    pub fn restore(stored: Option<Vec<(String, String)>>) -> (agenda: Agenda)
        ensures
            agenda@ == match stored {
                Some(items) => items.deep_view(),
                None => Seq::<Item>::empty(),
            },
    {
        match stored {
            Some(items) => Agenda::from_items(items),
            None => Agenda::new(),
        }
    }

    /// The items of the agenda, in their order and as they are.
    pub fn items(&self) -> (items: &Vec<(String, String)>)
        ensures
            items.deep_view() == self@,
    {
        &self.items
    }

    /// Whether the agenda has no items.
    pub fn is_empty(&self) -> (empty: bool)
        ensures
            empty == (self@.len() == 0),
    {
        self.items.len() == 0
    }

    /// Puts an item at the end of the agenda. The name of the author is kept
    /// without the characters that mark emphasis, the text as it is.
    pub fn push(&mut self, author: String, item: String)
        ensures
            final(self)@ == old(self)@.push((without_emphasis(author@), item@)),
    {
        let name = strip_emphasis(author.as_str());
        self.items.push((name, item));
    }

    /// The lines of the items, one after the other.
    pub fn render_items(&self) -> (text: String)
        ensures
            text@ == item_lines(self@),
    {
        let mut text = String::new();
        let mut at: usize = 0;
        while at < self.items.len()
            invariant
                at <= self.items.len(),
                text@ == item_lines(self@.take(at as int)),
            decreases self.items.len() - at,
        {
            let name = strip_emphasis(self.items[at].0.as_str());
            text.append(ITEM_OPEN);
            text.append(name.as_str());
            text.append(ITEM_CLOSE);
            text.append(self.items[at].1.as_str());
            proof {
                let next = self@.take(at + 1);
                assert(next.drop_last() =~= self@.take(at as int));
            }
            at += 1;
        }
        proof {
            assert(self@.take(at as int) =~= self@);
        }
        text
    }

    /// The message that shows the agenda of `date` in a channel: a heading in
    /// bold and the lines of the items, or a note that there are none.
    pub fn render_for_display(&self, date: &str) -> (text: String)
        ensures
            text@ == display_text(self@, date@),
    {
        if self.is_empty() {
            String::from_str(NO_ITEMS)
        } else {
            let mut text = String::from_str("**Meeting Agenda ");
            text.append(date);
            text.append("**");
            text.append(self.render_items().as_str());
            text
        }
    }

    /// The Markdown document that holds the agenda of `date`: a heading and
    /// the lines of the items, or a note that there are none.
    pub fn render_for_export(&self, date: &str) -> (text: String)
        ensures
            text@ == export_text(self@, date@),
    {
        if self.is_empty() {
            String::from_str(NO_ITEMS)
        } else {
            let mut text = String::from_str("# Meeting Agenda ");
            text.append(date);
            text.append(self.render_items().as_str());
            text
        }
    }
}

impl Default for Agenda {
    /// An agenda without items.
    fn default() -> (agenda: Agenda)
        ensures
            agenda@ == Seq::<Item>::empty(),
    {
        Agenda::new()
    }
}

/// Names the file that holds the exported agenda of `date`.
pub fn export_name(date: &str) -> (name: String)
    ensures
        name@ == export_name_text(date@),
{
    let mut name = String::from_str("agenda-");
    name.append(date);
    name.append(".md");
    name
}

/// Writes the message that goes with the exported agenda of `date`.
pub fn export_caption(date: &str) -> (caption: String)
    ensures
        caption@ == export_caption_text(date@),
{
    let mut caption = String::from_str("**Meeting Agenda ");
    caption.append(date);
    caption.append("\n**");
    caption
}

/// What `push` puts on the agenda for `author` and `text`: the name without
/// emphasis, which its line shows as it is stored, and the text as it was
/// given.
pub proof fn lemma_pushed_item_is_clean(items: Seq<Item>, author: Seq<char>, text: Seq<char>)
    ensures
        ({
            let stored = items.push((without_emphasis(author), text)).last();
            &&& forall|i: int| 0 <= i < stored.0.len() ==> #[trigger] stored.0[i] != EMPHASIS
            &&& stored.1 == text
            &&& item_line(stored) == ITEM_OPEN@ + stored.0 + ITEM_CLOSE@ + text
        }),
{
    lemma_without_emphasis_is_clean(author);
}

/// Items are shown in the order in which they were put on the agenda: the
/// lines of an agenda with two more items are its lines before, then the line
/// of the first, then the line of the second.
pub proof fn lemma_lines_keep_order(items: Seq<Item>, first: Item, second: Item)
    ensures
        item_lines(items.push(first).push(second)) == item_lines(items) + item_line(first)
            + item_line(second),
{
    assert(items.push(first).drop_last() =~= items);
    assert(item_lines(items.push(first)) == item_lines(items) + item_line(first));
    assert(items.push(first).push(second).drop_last() =~= items.push(first));
}

/// The lines of two runs of items, one after the other, are the lines of the
/// first run followed by the lines of the second.
pub proof fn lemma_lines_of_both(before: Seq<Item>, after: Seq<Item>)
    ensures
        item_lines(before + after) == item_lines(before) + item_lines(after),
    decreases after.len(),
{
    if after.len() > 0 {
        lemma_lines_of_both(before, after.drop_last());
        assert((before + after).drop_last() =~= before + after.drop_last());
        assert(item_lines(before) + (item_lines(after.drop_last()) + item_line(after.last()))
            =~= (item_lines(before) + item_lines(after.drop_last())) + item_line(after.last()));
    }
}

} // verus!
