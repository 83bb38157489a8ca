//! The lexicon file: what its bytes mean, and the bytes of a lexicon.
//!
//! A file is a header of four bytes, the magic `lll` and the format version,
//! and then blocks. The low seven bits of the first byte of a block are the
//! length of the whole block, and its high bit marks a block of a later
//! format, which is passed over. The next three bytes are the flag word, low
//! byte first, and the rest of the block is the lexeme.

use vstd::prelude::*;
use vstd::slice::slice_subrange;
use vstd::std_specs::cmp::PartialEqSpecImpl;
use crate::flags::Flags;
use crate::lexeme::{checked_bytes, Lexeme, LexemeError, V0_MIN_LENGTH};

verus! {

/// The header of a file of the one format that is read and written: the
/// magic and the version 0.
pub const V0_HEADER: [u8; 4] = [0x6c, 0x6c, 0x6c, 0];

/// The bit of the first byte of a block that marks a block of a later
/// format.
pub const FORMAT_EXTENSION_FLAG: u8 = 0x80;

/// The bits of the first byte of a block that hold its length.
pub const BLOCK_LENGTH_MASK: u8 = 0x7f;

/// A lexeme with its flags: one entry of the lexicon.
#[derive(Debug)]
pub struct LexiconEntry {
    pub lexeme: Lexeme,
    pub flags: Flags,
}

/// What an entry holds: the bytes of its lexeme and its flag word.
pub struct EntryModel {
    pub text: Seq<u8>,
    pub flags: u32,
}

impl View for LexiconEntry {
    type V = EntryModel;

    open spec fn view(&self) -> EntryModel {
        EntryModel { text: self.lexeme@, flags: self.flags.bits }
    }
}

impl PartialEqSpecImpl for LexiconEntry {
    open spec fn obeys_eq_spec() -> bool {
        true
    }

    /// Two entries are equal when they hold the same text and the same
    /// flag word.
    open spec fn eq_spec(&self, other: &LexiconEntry) -> bool {
        self@ == other@
    }
}

impl PartialEq for LexiconEntry {
    fn eq(&self, other: &LexiconEntry) -> (equal: bool) {
        self.flags == other.flags && self.lexeme == other.lexeme
    }
}

impl Eq for LexiconEntry {

}

impl Clone for LexiconEntry {
    fn clone(&self) -> (copy: LexiconEntry)
        ensures
            copy == *self,
    {
        LexiconEntry { lexeme: self.lexeme.clone(), flags: self.flags }
    }
}

impl EntryModel {
    /// The entry can be written and read back: its text is a lexeme's and
    /// its flag word fits in three bytes.
    pub open spec fn storable(self) -> bool {
        &&& checked_bytes(self.text) == Ok::<Seq<u8>, LexemeError>(self.text)
        &&& self.flags < 0x0100_0000
    }
}

/// What the entries of a lexicon hold, in their order.
pub open spec fn models(entries: Seq<LexiconEntry>) -> Seq<EntryModel> {
    entries.map_values(|entry: LexiconEntry| entry@)
}

/// Every entry can be written and read back.
pub open spec fn all_storable(entries: Seq<EntryModel>) -> bool {
    forall|i: int| 0 <= i < entries.len() ==> (#[trigger] entries[i]).storable()
}

/// A format version that is known and not read.
#[derive(Clone, Copy, Debug, PartialEq, Eq, Structural)]
pub enum UnsupportedVersion {
    /// Version 1.
    One,
    /// Version 2.
    Two,
    /// A version above 2.
    Later,
}

/// Why the bytes of a file are no lexicon.
#[derive(Clone, Copy, Debug, PartialEq, Eq, Structural)]
pub enum DecodeError {
    /// The file is shorter than a header.
    TooShort,
    /// The file does not begin with the magic.
    BadMagic,
    /// The file is of a version that is not read.
    UnsupportedVersion(UnsupportedVersion),
    /// A block gives itself a length below that of a block without lexeme.
    CorruptBlockLength,
    /// The lexeme of a block is none.
    Lexeme(LexemeError),
}

impl DecodeError {
    /// The message for the error.
    pub open spec fn message_text(self) -> Seq<char> {
        match self {
            DecodeError::TooShort => "File was not .lll format: Too short."@,
            DecodeError::BadMagic => "File was not .lll format: Header wrong"@,
            DecodeError::UnsupportedVersion(UnsupportedVersion::One) =>
                "File was an unsupported version of .lll format: 1"@,
            DecodeError::UnsupportedVersion(UnsupportedVersion::Two) =>
                "File was an unsupported version of .lll format: 2"@,
            DecodeError::UnsupportedVersion(UnsupportedVersion::Later) =>
                "File was an unsupported version of .lll format: >2"@,
            DecodeError::CorruptBlockLength =>
                "Table seems corrupted: Block length was invalid."@,
            DecodeError::Lexeme(e) => e.message_text(),
        }
    }

    /// The message to show for the error.
    pub fn message(&self) -> (text: &'static str)
        ensures
            text@ == self.message_text(),
    {
        match self {
            DecodeError::TooShort => "File was not .lll format: Too short.",
            DecodeError::BadMagic => "File was not .lll format: Header wrong",
            DecodeError::UnsupportedVersion(UnsupportedVersion::One) =>
                "File was an unsupported version of .lll format: 1",
            DecodeError::UnsupportedVersion(UnsupportedVersion::Two) =>
                "File was an unsupported version of .lll format: 2",
            DecodeError::UnsupportedVersion(UnsupportedVersion::Later) =>
                "File was an unsupported version of .lll format: >2",
            DecodeError::CorruptBlockLength => "Table seems corrupted: Block length was invalid.",
            DecodeError::Lexeme(e) => e.message(),
        }
    }
}

/// The flag word that three bytes of a block stand for.
pub open spec fn flags_of_bytes(low: u8, middle: u8, high: u8) -> u32 {
    (low as u32) | ((middle as u32) << 8) | ((high as u32) << 16)
}

/// The length that the first byte of a block gives the block.
pub open spec fn block_length(first: u8) -> int {
    (first & BLOCK_LENGTH_MASK) as int
}

/// Whether the first byte of a block marks a block of a later format.
pub open spec fn is_extension(first: u8) -> bool {
    first & FORMAT_EXTENSION_FLAG == FORMAT_EXTENSION_FLAG
}

/// `entries` before what `rest` holds, or the error of `rest`.
pub open spec fn preceded(
    entries: Seq<EntryModel>,
    rest: Result<Seq<EntryModel>, DecodeError>,
) -> Result<Seq<EntryModel>, DecodeError> {
    match rest {
        Ok(more) => Ok(entries + more),
        Err(e) => Err(e),
    }
}

/// The entries that the blocks in `bytes` hold. A block that gives itself
/// more bytes than are left ends the reading without an error.
pub open spec fn decoded_blocks(bytes: Seq<u8>) -> Result<Seq<EntryModel>, DecodeError>
    decreases bytes.len(),
{
    if bytes.len() == 0 {
        Ok(Seq::empty())
    } else {
        let length = block_length(bytes[0]);
        if length < V0_MIN_LENGTH {
            Err(DecodeError::CorruptBlockLength)
        } else if length > bytes.len() {
            Ok(Seq::empty())
        } else if is_extension(bytes[0]) {
            decoded_blocks(bytes.skip(length))
        } else {
            match checked_bytes(bytes.subrange(V0_MIN_LENGTH as int, length)) {
                Err(e) => Err(DecodeError::Lexeme(e)),
                Ok(text) => preceded(
                    seq![EntryModel { text, flags: flags_of_bytes(bytes[1], bytes[2], bytes[3]) }],
                    decoded_blocks(bytes.skip(length)),
                ),
            }
        }
    }
}

/// The error for a version byte other than 0.
pub open spec fn version_error(version: u8) -> DecodeError {
    if version == 1 {
        DecodeError::UnsupportedVersion(UnsupportedVersion::One)
    } else if version == 2 {
        DecodeError::UnsupportedVersion(UnsupportedVersion::Two)
    } else {
        DecodeError::UnsupportedVersion(UnsupportedVersion::Later)
    }
}

/// The lexicon that the bytes of a file hold, or the reason why they hold
/// none.
pub open spec fn decoded(bytes: Seq<u8>) -> Result<Seq<EntryModel>, DecodeError> {
    if bytes.len() < V0_HEADER@.len() {
        Err(DecodeError::TooShort)
    } else if bytes[0] != V0_HEADER@[0] || bytes[1] != V0_HEADER@[1] || bytes[2] != V0_HEADER@[2] {
        Err(DecodeError::BadMagic)
    } else if bytes[3] != 0 {
        Err(version_error(bytes[3]))
    } else {
        decoded_blocks(bytes.skip(V0_HEADER@.len() as int))
    }
}

/// The block of an entry: its length, its flag word in three bytes with the
/// low byte first, and its text. Of a flag word of more than three bytes the
/// rest is not written.
pub open spec fn encoded_entry(entry: EntryModel) -> Seq<u8> {
    seq![
        (V0_MIN_LENGTH + entry.text.len()) as u8,
        (entry.flags & 0xff) as u8,
        ((entry.flags >> 8) & 0xff) as u8,
        ((entry.flags >> 16) & 0xff) as u8,
    ] + entry.text
}

/// The blocks of the entries, one after the other.
pub open spec fn encoded_blocks(entries: Seq<EntryModel>) -> Seq<u8>
    decreases entries.len(),
{
    if entries.len() == 0 {
        Seq::empty()
    } else {
        encoded_blocks(entries.drop_last()) + encoded_entry(entries.last())
    }
}

/// The bytes of the file of a lexicon: the header, then the blocks.
pub open spec fn encoded(entries: Seq<EntryModel>) -> Seq<u8> {
    V0_HEADER@ + encoded_blocks(entries)
}

/// The flag word of `flags_of_bytes`.
pub fn flags_from_bytes(low: u8, middle: u8, high: u8) -> (flags: Flags)
    ensures
        flags.bits == flags_of_bytes(low, middle, high),
        flags.storable(),
{
    let bits: u32 = (low as u32) | ((middle as u32) << 8) | ((high as u32) << 16);
    assert(bits < 0x0100_0000) by (bit_vector)
        requires
            bits == (low as u32) | ((middle as u32) << 8) | ((high as u32) << 16),
    ;
    Flags::from_bits(bits)
}

/// Reads the lexicon that the bytes of a file hold.
///
/// The bytes are rejected when they are shorter than a header, when they do
/// not begin with the magic, when their version is not 0, when a block gives
/// itself a length below 4, and when the lexeme of a block is none. A last
/// block that gives itself more bytes than are left is not read, and the
/// entries before it are the result.
pub fn parse_lll(bytes: &[u8]) -> (r: Result<Vec<LexiconEntry>, DecodeError>)
    ensures
        match decoded(bytes@) {
            Ok(entries) => r is Ok && models(r->Ok_0@) == entries,
            Err(e) => r == Err::<Vec<LexiconEntry>, DecodeError>(e),
        },
        bytes@.len() < 4 ==> r == Err::<Vec<LexiconEntry>, DecodeError>(DecodeError::TooShort),
        bytes@.len() >= 4 && (bytes@[0] != 0x6c || bytes@[1] != 0x6c || bytes@[2] != 0x6c) ==> r
            == Err::<Vec<LexiconEntry>, DecodeError>(DecodeError::BadMagic),
        bytes@.len() >= 4 && bytes@[0] == 0x6c && bytes@[1] == 0x6c && bytes@[2] == 0x6c
            && bytes@[3] != 0 ==> r == Err::<Vec<LexiconEntry>, DecodeError>(
            version_error(bytes@[3]),
        ),
        r is Ok ==> all_storable(models(r->Ok_0@)),
{
    if bytes.len() < V0_HEADER.len() {
        return Err(DecodeError::TooShort);
    }
    if bytes[0] != V0_HEADER[0] || bytes[1] != V0_HEADER[1] || bytes[2] != V0_HEADER[2] {
        return Err(DecodeError::BadMagic);
    }
    if bytes[3] != 0 {
        if bytes[3] == 1 {
            return Err(DecodeError::UnsupportedVersion(UnsupportedVersion::One));
        } else if bytes[3] == 2 {
            return Err(DecodeError::UnsupportedVersion(UnsupportedVersion::Two));
        } else {
            return Err(DecodeError::UnsupportedVersion(UnsupportedVersion::Later));
        }
    }
    let mut output: Vec<LexiconEntry> = Vec::with_capacity(bytes.len() / 16);
    let mut i: usize = V0_HEADER.len();
    while i < bytes.len()
        invariant
            4 <= i <= bytes.len(),
            decoded(bytes@) == preceded(models(output@), decoded_blocks(bytes@.skip(i as int))),
            all_storable(models(output@)),
        decreases bytes.len() - i,
    {
        let ghost rest = bytes@.skip(i as int);
        let ghost so_far = models(output@);
        let first: u8 = bytes[i];
        let len: u8 = first & BLOCK_LENGTH_MASK;
        if len < V0_MIN_LENGTH {
            return Err(DecodeError::CorruptBlockLength);
        }
        if len as usize > bytes.len() - i {
            return Ok(output);
        }
        let block_end: usize = i + len as usize;
        assert(rest.skip(len as int) =~= bytes@.skip(block_end as int));
        let fef: bool = (first & FORMAT_EXTENSION_FLAG) == FORMAT_EXTENSION_FLAG;
        if fef {
            // A block of a later format: nothing of it is read.
            i = block_end;
            continue ;
        }
        let payload = slice_subrange(bytes, i + V0_MIN_LENGTH as usize, block_end);
        assert(payload@ =~= rest.subrange(V0_MIN_LENGTH as int, len as int));
        let lexeme = match Lexeme::from_bytes(payload) {
            Ok(lexeme) => lexeme,
            Err(e) => {
                return Err(DecodeError::Lexeme(e));
            },
        };
        let flags = flags_from_bytes(bytes[i + 1], bytes[i + 2], bytes[i + 3]);
        let entry = LexiconEntry { lexeme, flags };
        let ghost added = entry@;
        output.push(entry);
        proof {
            assert(models(output@) =~= so_far.push(added));
            match decoded_blocks(bytes@.skip(block_end as int)) {
                Ok(more) => {
                    assert(so_far + (seq![added] + more) =~= so_far.push(added) + more);
                },
                Err(e) => {},
            }
        }
        i = block_end;
    }
    Ok(output)
}

/// The three bytes in which a flag word is stored, low byte first.
pub fn flag_bytes(flags: Flags) -> (bytes: [u8; 3])
    ensures
        bytes@ == seq![
            (flags.bits & 0xff) as u8,
            ((flags.bits >> 8) & 0xff) as u8,
            ((flags.bits >> 16) & 0xff) as u8,
        ],
{
    let bits: u32 = flags.bits;
    [(bits & 0xff) as u8, ((bits >> 8) & 0xff) as u8, ((bits >> 16) & 0xff) as u8]
}

/// The bytes of the file of a lexicon: the header of version 0, then one
/// block for each entry, in the order of the entries. The file is always
/// written whole.
pub fn encode_lll(lll: &[LexiconEntry]) -> (bytes: Vec<u8>)
    ensures
        bytes@ == encoded(models(lll@)),
{
    let mut bytes: Vec<u8> = Vec::new();
    bytes.extend_from_slice(V0_HEADER.as_slice());
    let mut i: usize = 0;
    while i < lll.len()
        invariant
            i <= lll.len(),
            bytes@ == V0_HEADER@ + encoded_blocks(models(lll@).take(i as int)),
        decreases lll.len() - i,
    {
        let ll = &lll[i];
        assert(models(lll@).take(i + 1).drop_last() =~= models(lll@).take(i as int));
        bytes.push(V0_MIN_LENGTH + ll.lexeme.len());
        let flags = flag_bytes(ll.flags);
        bytes.extend_from_slice(flags.as_slice());
        bytes.extend_from_slice(ll.lexeme.bytes());
        i = i + 1;
    }
    assert(models(lll@).take(lll@.len() as int) =~= models(lll@));
    bytes
}

} // verus!
