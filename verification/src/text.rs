//! Text operations on which the rules of this library rest, stated over
//! sequences of characters.

use vstd::prelude::*;

verus! {

/// Whether `needle` occurs in `hay` as a run of consecutive characters.
pub open spec fn has_substring(hay: Seq<char>, needle: Seq<char>) -> bool {
    exists|i: int|
        0 <= i <= hay.len() - needle.len() && #[trigger] hay.subrange(i, i + needle.len())
            == needle
}

/// `s` with each occurrence of the character `from` replaced by the text
/// `to`.
pub open spec fn expanded(s: Seq<char>, from: char, to: Seq<char>) -> Seq<char>
    decreases s.len(),
{
    if s.len() == 0 {
        Seq::<char>::empty()
    } else {
        expanded(s.drop_last(), from, to) + (if s.last() == from {
            to
        } else {
            seq![s.last()]
        })
    }
}

/// The lowercase form of a text, as Unicode defines it.
pub uninterp spec fn lowercase_of(s: Seq<char>) -> Seq<char>;

/// `str::contains` with a string as the pattern: whether the pattern occurs
/// in the text. The contract states this as an occurrence of the pattern's
/// characters, in order and without gaps, in the text's characters.
#[verifier::external_body]
pub(crate) fn contains(hay: &str, needle: &str) -> (found: bool)
    ensures
        found == has_substring(hay@, needle@),
{
    hay.contains(needle)
}

/// `str::replace` with a character as the pattern: every occurrence of the
/// character is replaced by the replacement text, all else is kept.
#[verifier::external_body]
pub(crate) fn replace_char(s: &str, from: char, to: &str) -> (out: String)
    ensures
        out@ == expanded(s@, from, to@),
{
    s.replace(from, to)
}

/// `str::to_lowercase`: the lowercase form of the text. The contract gives
/// the result its name and claims nothing more of it.
#[verifier::external_body]
pub(crate) fn to_lowercase(s: &str) -> (out: String)
    ensures
        out@ == lowercase_of(s@),
{
    s.to_lowercase()
}

/// `PartialEq::eq` on `str`: whether two texts hold the same characters.
#[verifier::external_body]
pub(crate) fn same_text(a: &str, b: &str) -> (same: bool)
    ensures
        same == (a@ == b@),
{
    a == b
}

} // verus!
