//! The body of a subscription: a list of links, one per line, as it stands
//! or base64-encoded as a whole.

use crate::batch::names_view;
use crate::codec::{base64_text, decode_base64_text};
use crate::text::{
    chars_of, lemma_split_on_nonempty, pieces_view, split_chars, split_on, string_from_chars,
};
use vstd::prelude::*;

verus! {

/// The lines of a text: the text split at every line feed. There is always
/// at least one line, possibly empty.
pub fn split_lines(text: &str) -> (lines: Vec<String>)
    ensures
        names_view(lines@) == split_on(text@, '\n'),
        lines@.len() >= 1,
{
    let chars = chars_of(text);
    let pieces = split_chars(&chars, '\n');
    let mut lines: Vec<String> = Vec::new();
    let mut i: usize = 0;
    while i < pieces.len()
        invariant
            i <= pieces@.len(),
            lines@.len() == i,
            forall|j: int| 0 <= j < i ==> lines@[j]@ == pieces@[j]@,
        decreases pieces@.len() - i,
    {
        lines.push(string_from_chars(&pieces[i]));
        i += 1;
    }
    proof {
        lemma_split_on_nonempty(text@, '\n');
        assert(names_view(lines@) =~= pieces_view(pieces@));
    }
    lines
}

/// The lines of a subscription body: the body is decoded where it is
/// base64 as a whole, and then split at every line feed.
pub fn subscription_lines(body: &str) -> (lines: Vec<String>)
    ensures
        names_view(lines@) == split_on(base64_text(body@), '\n'),
        lines@.len() >= 1,
{
    let text = decode_base64_text(body.to_owned());
    split_lines(text.as_str())
}

} // verus!
