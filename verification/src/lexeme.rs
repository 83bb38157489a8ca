//! A lexeme: a short, non-empty text held in a buffer of fixed size.

use vstd::prelude::*;
use vstd::array::spec_array_update;
use vstd::slice::slice_subrange;
use vstd::std_specs::cmp::PartialEqSpecImpl;
use vstd::std_specs::convert::TryFromSpecImpl;
use vstd::string::StringExecFns;
use vstd::utf8::{encode_utf8, encode_utf8_valid_utf8, valid_utf8};
use crate::text::str_from_utf8;
use crate::trimming::{trim_ends, trimmed};

verus! {

/// The length of a block of the lexicon file without its lexeme.
pub const V0_MIN_LENGTH: u8 = 4;

/// The most bytes that a lexeme can have: what the length byte of a block
/// leaves once the rest of the block is counted.
pub const MAX_LENGTH: u8 = 127 - V0_MIN_LENGTH;

/// The size of the buffer of a lexeme, which is `MAX_LENGTH`.
pub const CAPACITY: usize = 123;

/// Why a text or a byte sequence is no lexeme.
#[derive(Clone, Copy, Debug, PartialEq, Eq, Structural)]
pub enum LexemeError {
    /// Nothing is left of the text.
    Empty,
    /// The text has more than `MAX_LENGTH` bytes.
    TooLong,
    /// The bytes are not valid UTF-8.
    InvalidUtf8,
}

impl LexemeError {
    /// The message for the error.
    pub open spec fn message_text(self) -> Seq<char> {
        match self {
            LexemeError::Empty => ""@,
            LexemeError::TooLong => "Lexemes canot be more than 123 bytes long!"@,
            LexemeError::InvalidUtf8 => "Potential lexeme was not valid UTF-8"@,
        }
    }

    /// The message to show for the error.
    pub fn message(&self) -> (text: &'static str)
        ensures
            text@ == self.message_text(),
    {
        match self {
            LexemeError::Empty => "",
            LexemeError::TooLong => "Lexemes canot be more than 123 bytes long!",
            LexemeError::InvalidUtf8 => "Potential lexeme was not valid UTF-8",
        }
    }
}

/// The bytes of the lexeme that a byte sequence gives, taken as they stand,
/// or the reason why it gives none.
pub open spec fn checked_bytes(bytes: Seq<u8>) -> Result<Seq<u8>, LexemeError> {
    if !valid_utf8(bytes) {
        Err(LexemeError::InvalidUtf8)
    } else if bytes.len() == 0 {
        Err(LexemeError::Empty)
    } else if bytes.len() > MAX_LENGTH {
        Err(LexemeError::TooLong)
    } else {
        Ok(bytes)
    }
}

/// The bytes of the lexeme that a text gives, taken as it stands.
pub open spec fn checked_text(text: Seq<char>) -> Result<Seq<u8>, LexemeError> {
    checked_bytes(encode_utf8(text))
}

/// A text of 1 to `MAX_LENGTH` bytes of valid UTF-8. The bytes of the buffer
/// behind the text are zero and are never handed out.
#[derive(Debug)]
pub struct Lexeme {
    buffer: [u8; CAPACITY],
    length: u8,
}

impl View for Lexeme {
    type V = Seq<u8>;

    /// The bytes of the text.
    closed spec fn view(&self) -> Seq<u8> {
        self.buffer@.take(self.length as int)
    }
}

impl Lexeme {
    /// The invariant of the type: the text is not empty, fits the buffer and
    /// is valid UTF-8, and the rest of the buffer is zero.
    #[verifier::type_invariant]
    pub closed spec fn wf(&self) -> bool {
        &&& 0 < self.length <= MAX_LENGTH
        &&& valid_utf8(self.buffer@.take(self.length as int))
        &&& forall|i: int| self.length <= i < CAPACITY ==> self.buffer@[i] == 0
    }

    /// What the invariant says of the bytes of the text.
    pub proof fn lemma_wf(&self)
        requires
            self.wf(),
        ensures
            0 < self@.len() <= MAX_LENGTH,
            valid_utf8(self@),
            checked_bytes(self@) == Ok::<Seq<u8>, LexemeError>(self@),
    {
    }

    /// Two lexemes with the same text are the same value.
    pub proof fn lemma_view_injective(&self, other: &Lexeme)
        requires
            self.wf(),
            other.wf(),
            self@ == other@,
        ensures
            *self == *other,
    {
        assert forall|i: int| 0 <= i < CAPACITY implies self.buffer[i] == other.buffer[i] by {
            if i < self.length {
                assert(other.buffer@[i] == other@[i]);
            }
        }
        assert(self.buffer =~= other.buffer);
    }

    /// The lexeme whose text is the given bytes.
    fn from_checked(bytes: &[u8]) -> (lexeme: Lexeme)
        requires
            checked_bytes(bytes@) is Ok,
        ensures
            lexeme@ == bytes@,
            lexeme.wf(),
    {
        let mut buffer: [u8; CAPACITY] = [0u8; CAPACITY];
        let mut i: usize = 0;
        while i < bytes.len()
            invariant
                i <= bytes.len() <= CAPACITY,
                buffer@.take(i as int) == bytes@.take(i as int),
                forall|j: int| i <= j < CAPACITY ==> buffer@[j] == 0,
            decreases bytes.len() - i,
        {
            buffer[i] = bytes[i];
            i = i + 1;
        }
        assert(bytes@.take(bytes@.len() as int) =~= bytes@);
        Lexeme { buffer, length: bytes.len() as u8 }
    }

    /// Makes a lexeme of a text as it stands, white space at its ends
    /// included. The text must not be empty nor longer than `MAX_LENGTH`
    /// bytes.
    pub fn from_trimmed(text: &str) -> (r: Result<Lexeme, LexemeError>)
        ensures
            match checked_text(text@) {
                Ok(bytes) => r is Ok && r->Ok_0@ == bytes,
                Err(e) => r == Err::<Lexeme, LexemeError>(e),
            },
            r == lexeme_of(checked_text(text@)),
            r is Ok ==> r->Ok_0.wf(),
    {
        proof {
            encode_utf8_valid_utf8(text@);
        }
        let bytes = text.as_bytes();
        if bytes.len() == 0 {
            Err(LexemeError::Empty)
        } else if bytes.len() > MAX_LENGTH as usize {
            Err(LexemeError::TooLong)
        } else {
            let lexeme = Lexeme::from_checked(bytes);
            proof {
                lexeme.lemma_lexeme_with();
            }
            Ok(lexeme)
        }
    }

    /// Makes a lexeme of a typed text: the white space at the ends of the
    /// text is dropped, and what is left must not be empty nor longer than
    /// `MAX_LENGTH` bytes.
    pub fn from_text(text: &str) -> (r: Result<Lexeme, LexemeError>)
        ensures
            match checked_text(trimmed(text@)) {
                Ok(bytes) => r is Ok && r->Ok_0@ == bytes,
                Err(e) => r == Err::<Lexeme, LexemeError>(e),
            },
            r == lexeme_of(checked_text(trimmed(text@))),
            r is Ok ==> r->Ok_0.wf(),
    {
        Lexeme::from_trimmed(trim_ends(text))
    }

    /// Makes a lexeme of stored bytes, which must be valid UTF-8, not empty
    /// and not longer than `MAX_LENGTH`. The bytes are taken as they stand.
    pub fn from_bytes(bytes: &[u8]) -> (r: Result<Lexeme, LexemeError>)
        ensures
            match checked_bytes(bytes@) {
                Ok(stored) => r is Ok && r->Ok_0@ == stored,
                Err(e) => r == Err::<Lexeme, LexemeError>(e),
            },
            r == lexeme_of(checked_bytes(bytes@)),
            r is Ok ==> r->Ok_0.wf(),
    {
        match str_from_utf8(bytes) {
            None => Err(LexemeError::InvalidUtf8),
            Some(text) => Lexeme::from_trimmed(text),
        }
    }

    /// The number of bytes of the text.
    pub fn len(&self) -> (n: u8)
        ensures
            n == self@.len(),
            0 < n <= MAX_LENGTH,
    {
        proof {
            use_type_invariant(self);
        }
        self.length
    }

    /// The bytes of the text.
    pub fn bytes(&self) -> (bytes: &[u8])
        ensures
            bytes@ == self@,
    {
        proof {
            use_type_invariant(self);
        }
        let bytes = slice_subrange(self.buffer.as_slice(), 0, self.length as usize);
        bytes
    }

    /// The text.
    pub fn as_str(&self) -> (text: &str)
        ensures
            encode_utf8(text@) == self@,
    {
        proof {
            use_type_invariant(self);
        }
        match str_from_utf8(self.bytes()) {
            Some(text) => text,
            None => vstd::pervasive::unreached(),
        }
    }
}

impl Lexeme {
    /// The text as a string of its own.
    pub fn to_text(&self) -> (text: String)
        ensures
            encode_utf8(text@) == self@,
    {
        self.as_str().to_owned()
    }

    /// The text between two quotation marks, which show where it begins and
    /// ends.
    pub fn to_quoted_text(&self) -> (text: String)
        ensures
            text@.len() >= 2,
            text@.first() == '"',
            text@.last() == '"',
            encode_utf8(text@.subrange(1, text@.len() - 1)) == self@,
    {
        let inner = self.as_str();
        let mut text = "\"".to_owned();
        proof {
            reveal_strlit("\"");
        }
        text.append(inner);
        text.append("\"");
        assert(text@.subrange(1, text@.len() - 1) =~= inner@);
        text
    }
}

/// The lexeme whose text is the given bytes. There is one when the bytes
/// are those of a lexeme, and then only one.
pub open spec fn lexeme_with(bytes: Seq<u8>) -> Lexeme {
    choose|lexeme: Lexeme| lexeme.wf() && lexeme@ == bytes
}

/// The lexeme that a check of bytes leaves, or the error of the check.
pub open spec fn lexeme_of(checked: Result<Seq<u8>, LexemeError>) -> Result<Lexeme, LexemeError> {
    match checked {
        Ok(bytes) => Ok(lexeme_with(bytes)),
        Err(e) => Err(e),
    }
}

/// A buffer that holds the first `filled` of the given bytes and is zero
/// behind them.
spec fn buffer_with(bytes: Seq<u8>, filled: nat) -> [u8; CAPACITY]
    decreases filled,
{
    if filled == 0 {
        [0u8; CAPACITY]
    } else {
        spec_array_update(buffer_with(bytes, (filled - 1) as nat), filled - 1, bytes[filled - 1])
    }
}

/// What `buffer_with` holds.
proof fn lemma_buffer_with(bytes: Seq<u8>, filled: nat)
    requires
        filled <= bytes.len() <= CAPACITY,
    ensures
        buffer_with(bytes, filled)@.take(filled as int) == bytes.take(filled as int),
        forall|i: int| filled <= i < CAPACITY ==> buffer_with(bytes, filled)@[i] == 0,
    decreases filled,
{
    if filled > 0 {
        lemma_buffer_with(bytes, (filled - 1) as nat);
    }
}

impl Lexeme {
    /// Bytes that pass the check are the text of a lexeme.
    pub proof fn lemma_lexeme_exists(bytes: Seq<u8>)
        requires
            checked_bytes(bytes) is Ok,
        ensures
            lexeme_with(bytes).wf(),
            lexeme_with(bytes)@ == bytes,
    {
        lemma_buffer_with(bytes, bytes.len());
        let witness = Lexeme { buffer: buffer_with(bytes, bytes.len()), length: bytes.len() as u8 };
        assert(bytes.take(bytes.len() as int) =~= bytes);
        assert(witness.wf() && witness@ == bytes);
    }

    /// A lexeme is the lexeme of its text.
    pub proof fn lemma_lexeme_with(&self)
        requires
            self.wf(),
        ensures
            lexeme_with(self@) == *self,
    {
        let chosen = lexeme_with(self@);
        chosen.lemma_view_injective(self);
    }
}

impl<'a> TryFromSpecImpl<&'a str> for Lexeme {
    open spec fn obeys_try_from_spec() -> bool {
        true
    }

    open spec fn try_from_spec(text: &'a str) -> Result<Lexeme, LexemeError> {
        lexeme_of(checked_text(trimmed(text@)))
    }
}

impl<'a> TryFrom<&'a str> for Lexeme {
    type Error = LexemeError;

    /// As `Lexeme::from_text`.
    fn try_from(text: &'a str) -> (r: Result<Lexeme, LexemeError>) {
        Lexeme::from_text(text)
    }
}

impl<'a> TryFromSpecImpl<&'a [u8]> for Lexeme {
    open spec fn obeys_try_from_spec() -> bool {
        true
    }

    open spec fn try_from_spec(bytes: &'a [u8]) -> Result<Lexeme, LexemeError> {
        lexeme_of(checked_bytes(bytes@))
    }
}

impl<'a> TryFrom<&'a [u8]> for Lexeme {
    type Error = LexemeError;

    /// As `Lexeme::from_bytes`.
    fn try_from(bytes: &'a [u8]) -> (r: Result<Lexeme, LexemeError>) {
        Lexeme::from_bytes(bytes)
    }
}

impl PartialEqSpecImpl for Lexeme {
    open spec fn obeys_eq_spec() -> bool {
        true
    }

    /// Two lexemes are equal when they have the same text.
    open spec fn eq_spec(&self, other: &Lexeme) -> bool {
        self@ == other@
    }
}

impl PartialEq for Lexeme {
    fn eq(&self, other: &Lexeme) -> (equal: bool) {
        proof {
            use_type_invariant(self);
            use_type_invariant(other);
        }
        if self.length != other.length {
            return false;
        }
        let mut i: usize = 0;
        while i < self.length as usize
            invariant
                self.length == other.length <= CAPACITY,
                i <= self.length,
                forall|j: int| 0 <= j < i ==> self@[j] == other@[j],
            decreases self.length - i,
        {
            if self.buffer[i] != other.buffer[i] {
                assert(self@[i as int] != other@[i as int]);
                return false;
            }
            i = i + 1;
        }
        assert(self@ =~= other@);
        true
    }
}

impl Eq for Lexeme {

}

impl Clone for Lexeme {
    fn clone(&self) -> (copy: Lexeme)
        ensures
            copy == *self,
    {
        proof {
            use_type_invariant(self);
        }
        Lexeme { buffer: self.buffer, length: self.length }
    }
}

} // verus!
