//! A text without the white space at its two ends.

use vstd::prelude::*;
use crate::text::{is_white_space, trimmed_at};

verus! {

/// Every character of the text is white space.
pub open spec fn all_white_space(text: Seq<char>) -> bool {
    forall|i: int| 0 <= i < text.len() ==> is_white_space(#[trigger] text[i])
}

/// The number of white-space characters with which a text begins.
pub open spec fn leading_white_space(text: Seq<char>) -> nat
    decreases text.len(),
{
    if text.len() > 0 && is_white_space(text.first()) {
        1 + leading_white_space(text.drop_first())
    } else {
        0
    }
}

/// The number of white-space characters with which a text ends.
pub open spec fn trailing_white_space(text: Seq<char>) -> nat
    decreases text.len(),
{
    if text.len() > 0 && is_white_space(text.last()) {
        1 + trailing_white_space(text.drop_last())
    } else {
        0
    }
}

/// A text without the white space at its two ends.
pub open spec fn trimmed(text: Seq<char>) -> Seq<char> {
    let rest = text.skip(leading_white_space(text) as int);
    rest.take(rest.len() - trailing_white_space(rest))
}

/// The white space with which a text begins ends before its first character
/// that is none.
pub proof fn lemma_leading_white_space(text: Seq<char>, start: int)
    requires
        0 <= start <= text.len(),
        forall|i: int| 0 <= i < start ==> is_white_space(#[trigger] text[i]),
        start < text.len() ==> !is_white_space(text[start]),
    ensures
        leading_white_space(text) == start,
    decreases start,
{
    if start > 0 {
        lemma_leading_white_space(text.drop_first(), start - 1);
    }
}

/// The white space with which a text ends begins behind its last character
/// that is none.
pub proof fn lemma_trailing_white_space(text: Seq<char>, end: int)
    requires
        0 <= end <= text.len(),
        forall|i: int| end <= i < text.len() ==> is_white_space(#[trigger] text[i]),
        end > 0 ==> !is_white_space(text[end - 1]),
    ensures
        trailing_white_space(text) == text.len() - end,
    decreases text.len() - end,
{
    if end < text.len() {
        lemma_trailing_white_space(text.drop_last(), end);
    }
}

/// Where the white space with which a text begins ends.
pub proof fn lemma_leading_white_space_ends(text: Seq<char>)
    ensures
        leading_white_space(text) <= text.len(),
        forall|i: int| 0 <= i < leading_white_space(text) ==> is_white_space(#[trigger] text[i]),
        leading_white_space(text) < text.len() ==> !is_white_space(
            text[leading_white_space(text) as int],
        ),
    decreases text.len(),
{
    if text.len() > 0 && is_white_space(text.first()) {
        let rest = text.drop_first();
        lemma_leading_white_space_ends(rest);
        assert forall|i: int| 0 <= i < leading_white_space(text) implies is_white_space(
            #[trigger] text[i],
        ) by {
            if i > 0 {
                assert(text[i] == rest[i - 1]);
            }
        }
    }
}

/// Where the white space with which a text ends begins.
pub proof fn lemma_trailing_white_space_begins(text: Seq<char>)
    ensures
        trailing_white_space(text) <= text.len(),
        forall|i: int|
            text.len() - trailing_white_space(text) <= i < text.len() ==> is_white_space(
                #[trigger] text[i],
            ),
        trailing_white_space(text) < text.len() ==> !is_white_space(
            text[text.len() - trailing_white_space(text) - 1],
        ),
    decreases text.len(),
{
    if text.len() > 0 && is_white_space(text.last()) {
        let rest = text.drop_last();
        lemma_trailing_white_space_begins(rest);
        assert forall|i: int|
            text.len() - trailing_white_space(text) <= i < text.len() implies is_white_space(
            #[trigger] text[i],
        ) by {
            if i < rest.len() {
                assert(text[i] == rest[i]);
            }
        }
    }
}

/// A piece of a text with nothing but white space before it and behind it,
/// and with none at its own two ends, is the trimmed text.
pub proof fn lemma_piece_is_trimmed(text: Seq<char>, inner: Seq<char>, start: int, end: int)
    requires
        trimmed_at(text, inner, start, end),
        inner.len() > 0 ==> !is_white_space(inner.first()) && !is_white_space(inner.last()),
    ensures
        inner == trimmed(text),
{
    if start < end {
        lemma_leading_white_space(text, start);
        lemma_trailing_white_space(text.skip(start), end - start);
    } else {
        lemma_leading_white_space(text, text.len() as int);
    }
}

/// A text of nothing but white space is trimmed to nothing, and no other
/// text is.
pub proof fn lemma_trimmed_empty(text: Seq<char>)
    ensures
        trimmed(text).len() == 0 <==> all_white_space(text),
{
    lemma_leading_white_space_ends(text);
    let rest = text.skip(leading_white_space(text) as int);
    lemma_trailing_white_space_begins(rest);
    if all_white_space(text) {
        lemma_leading_white_space(text, text.len() as int);
    } else {
        assert(trailing_white_space(rest) < rest.len()) by {
            if trailing_white_space(rest) == rest.len() {
                assert(is_white_space(rest[0]));
            }
        }
    }
}

/// A trimmed text that is not empty neither begins nor ends with white
/// space, and trimming it again changes nothing.
pub proof fn lemma_trimmed_ends(text: Seq<char>)
    ensures
        trimmed(text).len() > 0 ==> !is_white_space(trimmed(text).first()) && !is_white_space(
            trimmed(text).last(),
        ),
        trimmed(trimmed(text)) == trimmed(text),
{
    lemma_leading_white_space_ends(text);
    let rest = text.skip(leading_white_space(text) as int);
    lemma_trailing_white_space_begins(rest);
    lemma_trimmed_empty(text);
    let inner = trimmed(text);
    assert(inner.subrange(0, inner.len() as int) =~= inner);
    lemma_piece_is_trimmed(inner, inner, 0, inner.len() as int);
}

/// The text without the white space at its two ends.
pub fn trim_ends(text: &str) -> (inner: &str)
    ensures
        inner@ == trimmed(text@),
{
    let inner = text.trim();
    proof {
        let (start, end) = choose|start: int, end: int|
            #[trigger] trimmed_at(text@, inner@, start, end);
        lemma_piece_is_trimmed(text@, inner@, start, end);
    }
    inner
}

} // verus!
