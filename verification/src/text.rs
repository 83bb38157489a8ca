//! What the library takes from the standard library's text functions without
//! proof.

use vstd::prelude::*;
use vstd::utf8::{encode_utf8, valid_utf8};

verus! {

/// Whether a character is white space: whether it has the property
/// White_Space of Unicode, which is what `char::is_whitespace` tells and
/// what `str::trim` goes by.
pub uninterp spec fn is_white_space(c: char) -> bool;

/// Whether `inner` is the piece of `text` from `start` to `end`, and all of
/// `text` before the piece and behind it is white space.
pub open spec fn trimmed_at(text: Seq<char>, inner: Seq<char>, start: int, end: int) -> bool {
    &&& 0 <= start <= end <= text.len()
    &&& inner == text.subrange(start, end)
    &&& forall|i: int| 0 <= i < start ==> is_white_space(#[trigger] text[i])
    &&& forall|i: int| end <= i < text.len() ==> is_white_space(#[trigger] text[i])
}

/// `str::trim` returns the text without the white space at its two ends: a
/// piece of the text with nothing but white space before it and behind it,
/// which, unless it is empty, neither begins nor ends with white space.
pub assume_specification[ str::trim ](text: &str) -> (inner: &str)
    ensures
        exists|start: int, end: int| #[trigger] trimmed_at(text@, inner@, start, end),
        inner@.len() > 0 ==> !is_white_space(inner@.first()) && !is_white_space(inner@.last()),
;

/// `std::str::from_utf8` accepts exactly the byte sequences that are valid
/// UTF-8, and the text it returns for one is the text that those bytes
/// encode.
#[verifier::external_body]
pub(crate) fn str_from_utf8(bytes: &[u8]) -> (text: Option<&str>)
    ensures
        text is Some <==> valid_utf8(bytes@),
        text is Some ==> encode_utf8(text->0@) == bytes@,
{
    std::str::from_utf8(bytes).ok()
}

} // verus!
