//! The `resource` command: a link or a note, passed on to the channel that
//! collects them.

use vstd::prelude::*;

use crate::text::{after_first_space, first_space, strip_emphasis, without_emphasis};

verus! {

/// The name of the channel that collects the resources.
pub const RESOURCES: &'static str = "resources";

/// The message that passes `resource` on in the name of `author`: the author
/// in bold, without any emphasis of the author's own, then the resource as a
/// quotation.
pub open spec fn announcement_text(author: Seq<char>, resource: Seq<char>) -> Seq<char> {
    "**"@ + without_emphasis(author) + "** submitted the following resource:\n> "@ + resource
}

/// Writes the message that passes on the resource in `content`, the line of
/// the command: all that follows its first space. A line without a space
/// holds no resource.
pub fn announcement(author: &str, content: &str) -> (message: Option<String>)
    ensures
        match message {
            Some(text) => first_space(content@) < content@.len() && text@ == announcement_text(
                author@,
                content@.skip(first_space(content@) + 1),
            ),
            None => first_space(content@) >= content@.len(),
        },
{
    match after_first_space(content) {
        Some(resource) => {
            let mut text = String::from_str("**");
            text.append(strip_emphasis(author).as_str());
            text.append("** submitted the following resource:\n> ");
            text.append(resource);
            Some(text)
        },
        None => None,
    }
}

} // verus!
