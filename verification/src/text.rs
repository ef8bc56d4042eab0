//! What is taken on trust about the text functions of the standard library.
//!
//! Nothing in this file is proved. Each function below is one call of a
//! method of `str`, and its contract restates what the standard library
//! documents.

use vstd::prelude::*;

verus! {

/// The uppercase form of a text, as `str::to_uppercase` gives it: the
/// Unicode mapping, which is too long to write down here.
pub uninterp spec fn uppercase_of(text: Seq<char>) -> Seq<char>;

/// `text` with every occurrence of the character `c` taken out.
pub open spec fn without_char(text: Seq<char>, c: char) -> Seq<char> {
    text.filter(|x: char| x != c)
}

/// Whether `needle` stands in `text` at position `i`.
pub open spec fn occurs_at(needle: Seq<char>, text: Seq<char>, i: int) -> bool {
    &&& 0 <= i
    &&& i + needle.len() <= text.len()
    &&& text.subrange(i, i + needle.len()) == needle
}

/// Whether `needle` stands somewhere in `text`, as a run of consecutive
/// characters.
pub open spec fn occurs_in(needle: Seq<char>, text: Seq<char>) -> bool {
    exists|i: int| occurs_at(needle, text, i)
}

/// The texts of some strings.
pub open spec fn texts(strings: Seq<String>) -> Seq<Seq<char>> {
    strings.map_values(|string: String| string@)
}

/// `str::to_uppercase`: the uppercase form of `text`.
#[verifier::external_body]
pub(crate) fn uppercase(text: &str) -> (upper: String)
    ensures
        upper@ == uppercase_of(text@),
{
    text.to_uppercase()
}

/// `str::replace` with a character as the pattern and nothing as the
/// replacement: `text` without any occurrence of `c`.
#[verifier::external_body]
pub(crate) fn remove_char(text: &str, c: char) -> (rest: String)
    ensures
        rest@ == without_char(text@, c),
{
    text.replace(c, "")
}

/// `str::contains` with a string as the pattern: whether `needle` is a
/// substring of `text`.
#[verifier::external_body]
pub(crate) fn contains(text: &str, needle: &str) -> (found: bool)
    ensures
        found == occurs_in(needle@, text@),
{
    text.contains(needle)
}

} // verus!
