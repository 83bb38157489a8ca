//! What holds of every text that is offered as a lexeme.

use vstd::prelude::*;
use vstd::utf8::{encode_scalar, encode_utf8, encode_utf8_valid_utf8};
use crate::lexeme::{checked_bytes, checked_text, lexeme_of, Lexeme, LexemeError, MAX_LENGTH};
use crate::trimming::{all_white_space, lemma_trimmed_empty, trimmed};

verus! {

/// Every character takes at least one byte, so that only the empty text has
/// no bytes.
pub proof fn lemma_text_bytes(text: Seq<char>)
    ensures
        encode_utf8(text).len() >= text.len(),
    decreases text.len(),
{
    if text.len() > 0 {
        lemma_text_bytes(text.drop_first());
    }
}

/// A text is a lexeme exactly when it has from 1 to `MAX_LENGTH` bytes. It
/// is refused as empty when it has no character, and as too long when it has
/// more than `MAX_LENGTH` bytes; a text is never refused for its encoding.
pub proof fn lemma_text_boundary(text: Seq<char>)
    ensures
        checked_text(text) is Ok <==> 0 < encode_utf8(text).len() <= MAX_LENGTH,
        checked_text(text) == Err::<Seq<u8>, LexemeError>(LexemeError::Empty) <==> text.len() == 0,
        checked_text(text) == Err::<Seq<u8>, LexemeError>(LexemeError::TooLong) <==> encode_utf8(
            text,
        ).len() > MAX_LENGTH,
        checked_text(text) != Err::<Seq<u8>, LexemeError>(LexemeError::InvalidUtf8),
        checked_text(text) is Ok ==> checked_text(text)->Ok_0 == encode_utf8(text),
{
    encode_utf8_valid_utf8(text);
    lemma_text_bytes(text);
}

/// A typed text of nothing but white space is no lexeme: it is empty. No
/// other typed text is refused as empty.
pub proof fn lemma_white_space_is_empty(text: Seq<char>)
    ensures
        lexeme_of(checked_text(trimmed(text))) == Err::<Lexeme, LexemeError>(LexemeError::Empty)
            <==> all_white_space(text),
{
    lemma_trimmed_empty(text);
    lemma_text_boundary(trimmed(text));
}

/// The lexeme that is made of a text has the bytes of the text, and the
/// lexeme that is made of the bytes of a lexeme is that lexeme.
pub proof fn lemma_lexeme_of(bytes: Seq<u8>, lexeme: Lexeme)
    requires
        lexeme.wf(),
    ensures
        checked_bytes(bytes) is Ok ==> lexeme_of(checked_bytes(bytes)) is Ok && lexeme_of(
            checked_bytes(bytes),
        )->Ok_0@ == bytes && lexeme_of(checked_bytes(bytes))->Ok_0.wf(),
        lexeme_of(checked_bytes(lexeme@)) == Ok::<Lexeme, LexemeError>(lexeme),
{
    if checked_bytes(bytes) is Ok {
        Lexeme::lemma_lexeme_exists(bytes);
    }
    lexeme.lemma_wf();
    lexeme.lemma_lexeme_with();
}

} // verus!
