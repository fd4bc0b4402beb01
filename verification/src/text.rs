//! Text at the boundary: decoding, reading a string as a sequence of
//! characters, and comparing without regard to the case of ASCII letters.
//!
//! The functions marked `external_body` call the standard library; what they
//! state of it is believed, not proved.

use vstd::prelude::*;
use vstd::utf8::{decode_utf8, valid_utf8};

verus! {

/// `std::str::from_utf8`: the string that `bytes` encode, where they are valid
/// UTF-8, and nothing where they are not.
#[verifier::external_body]
pub(crate) fn decode<'a>(bytes: &'a [u8]) -> (text: Option<&'a str>)
    ensures
        text is Some == valid_utf8(bytes@),
        text is Some ==> text->0@ == decode_utf8(bytes@),
{
    std::str::from_utf8(bytes).ok()
}

/// The characters of `text`, in order.
pub(crate) fn characters(text: &str) -> (chars: Vec<char>)
    ensures
        chars@ == text@,
{
    let mut chars: Vec<char> = Vec::new();
    for c in iter: text.chars()
        invariant
            iter.seq() == text@,
            chars@ == text@.take(iter.index() as int),
    {
        chars.push(c);
    }
    chars
}

/// `String::from_iter` over a slice of characters: the string that they spell.
#[verifier::external_body]
pub(crate) fn spell(chars: &[char]) -> (text: String)
    ensures
        text@ == chars@,
{
    String::from_iter(chars.iter())
}

/// Whether `c`, a character beyond ASCII, is white space, as
/// `char::is_whitespace` answers.
pub uninterp spec fn wide_white_space(c: char) -> bool;

/// The white space of ASCII: the space, and the controls from the horizontal
/// tab to the carriage return.
pub open spec fn ascii_white_space(c: char) -> bool {
    c == ' ' || '\t' <= c <= '\r'
}

/// Whether `c` is white space: it has the Unicode property `White_Space`.
pub open spec fn white_space(c: char) -> bool {
    if c <= '\x7f' {
        ascii_white_space(c)
    } else {
        wide_white_space(c)
    }
}

/// `char::is_whitespace`: whether `c` has the Unicode property `White_Space`.
/// Within ASCII these are the space and the five controls from the horizontal
/// tab to the carriage return; beyond it the answer goes by the Unicode tables.
#[verifier::external_body]
pub(crate) fn is_white_space(c: char) -> (answer: bool)
    ensures
        c <= '\x7f' ==> answer == ascii_white_space(c),
        c > '\x7f' ==> answer == wide_white_space(c),
{
    c.is_whitespace()
}

/// What `str::to_uppercase` makes of a text.
pub uninterp spec fn upper_case(text: Seq<char>) -> Seq<char>;

/// `str::to_uppercase`: the text in upper case, by the Unicode rules.
#[verifier::external_body]
pub(crate) fn to_upper_case(text: &str) -> (upper: String)
    ensures
        upper@ == upper_case(text@),
{
    text.to_uppercase()
}

/// The number of `c`, with the capital ASCII letters counted as their small ones.
pub open spec fn ascii_folded(c: char) -> int {
    if 'A' <= c <= 'Z' {
        c as int + 32
    } else {
        c as int
    }
}

/// `a` and `b` are the same text but for the case of their ASCII letters.
pub open spec fn same_ignoring_ascii_case(a: Seq<char>, b: Seq<char>) -> bool {
    &&& a.len() == b.len()
    &&& forall|i: int| 0 <= i < a.len() ==> ascii_folded(#[trigger] a[i]) == ascii_folded(b[i])
}

fn fold_ascii(c: char) -> (folded: u32)
    ensures
        folded == ascii_folded(c),
{
    if 'A' <= c && c <= 'Z' {
        c as u32 + 32
    } else {
        c as u32
    }
}

/// Whether `a` and `b` are the same text but for the case of their ASCII letters.
pub(crate) fn eq_ignoring_ascii_case(a: &Vec<char>, b: &Vec<char>) -> (same: bool)
    ensures
        same == same_ignoring_ascii_case(a@, b@),
{
    if a.len() != b.len() {
        return false;
    }
    let mut i: usize = 0;
    while i < a.len()
        invariant
            a.len() == b.len(),
            i <= a.len(),
            forall|j: int| 0 <= j < i ==> ascii_folded(#[trigger] a@[j]) == ascii_folded(b@[j]),
        decreases a.len() - i,
    {
        if fold_ascii(a[i]) != fold_ascii(b[i]) {
            return false;
        }
        i += 1;
    }
    true
}

} // verus!
