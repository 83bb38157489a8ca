//! What holds of every lexicon and of every file.

use vstd::prelude::*;
use crate::codec::{
    all_storable, block_length, decoded, decoded_blocks, encoded, encoded_blocks, encoded_entry,
    flags_of_bytes, is_extension, models, preceded, DecodeError, EntryModel, LexiconEntry,
    UnsupportedVersion, V0_HEADER,
};
use crate::lexeme::V0_MIN_LENGTH;

verus! {

/// Bytes that are no whole block: none at all, or the beginning of a block
/// that gives itself a length of at least 4 and more bytes than there are.
pub open spec fn incomplete_block(bytes: Seq<u8>) -> bool {
    bytes.len() == 0 || V0_MIN_LENGTH <= block_length(bytes[0]) > bytes.len()
}

/// A whole block that is marked as one of a later format.
pub open spec fn extension_block(bytes: Seq<u8>) -> bool {
    &&& bytes.len() >= V0_MIN_LENGTH
    &&& is_extension(bytes[0])
    &&& block_length(bytes[0]) == bytes.len()
}

/// Whether the bytes begin with the magic.
pub open spec fn has_magic(bytes: Seq<u8>) -> bool {
    bytes.len() >= 3 && bytes[0] == 0x6c && bytes[1] == 0x6c && bytes[2] == 0x6c
}

/// Bytes that are shorter than a header are refused as too short, whatever
/// they are. Longer bytes that do not begin with the magic are refused for
/// that, whatever follows. Bytes that begin with the magic and a version
/// other than 0 are refused for their version: as version 1, as version 2,
/// or as a later one.
pub proof fn lemma_header_refusals(bytes: Seq<u8>)
    ensures
        bytes.len() < 4 ==> decoded(bytes) == Err::<Seq<EntryModel>, DecodeError>(
            DecodeError::TooShort,
        ),
        bytes.len() >= 4 && !has_magic(bytes) ==> decoded(bytes) == Err::<
            Seq<EntryModel>,
            DecodeError,
        >(DecodeError::BadMagic),
        bytes.len() >= 4 && has_magic(bytes) && bytes[3] == 1 ==> decoded(bytes) == Err::<
            Seq<EntryModel>,
            DecodeError,
        >(DecodeError::UnsupportedVersion(UnsupportedVersion::One)),
        bytes.len() >= 4 && has_magic(bytes) && bytes[3] == 2 ==> decoded(bytes) == Err::<
            Seq<EntryModel>,
            DecodeError,
        >(DecodeError::UnsupportedVersion(UnsupportedVersion::Two)),
        bytes.len() >= 4 && has_magic(bytes) && bytes[3] >= 3 ==> decoded(bytes) == Err::<
            Seq<EntryModel>,
            DecodeError,
        >(DecodeError::UnsupportedVersion(UnsupportedVersion::Later)),
        decoded(bytes) is Ok ==> bytes.len() >= 4 && has_magic(bytes) && bytes[3] == 0,
{
}

/// The block of an entry is read back as that entry, and what follows the
/// block is read after it.
pub proof fn lemma_entry_then(entry: EntryModel, rest: Seq<u8>)
    requires
        entry.storable(),
    ensures
        decoded_blocks(encoded_entry(entry) + rest) == preceded(seq![entry], decoded_blocks(rest)),
{
    let block = encoded_entry(entry);
    let bytes = block + rest;
    let length = V0_MIN_LENGTH + entry.text.len();
    let first = length as u8;
    let flags = entry.flags;
    assert(first & 0x7f == first && first & 0x80 != 0x80) by (bit_vector)
        requires
            first <= 127,
    ;
    assert(((flags & 0xff) as u8 as u32) | ((((flags >> 8) & 0xff) as u8 as u32) << 8) | ((((flags
        >> 16) & 0xff) as u8 as u32) << 16) == flags) by (bit_vector)
        requires
            flags < 0x0100_0000u32,
    ;
    assert(bytes.subrange(V0_MIN_LENGTH as int, length) =~= entry.text);
    assert(bytes.skip(length) =~= rest);
}

/// The blocks of entries are read back as those entries, and what follows
/// the blocks is read after them.
pub proof fn lemma_entries_then(entries: Seq<EntryModel>, rest: Seq<u8>)
    requires
        all_storable(entries),
    ensures
        decoded_blocks(encoded_blocks(entries) + rest) == preceded(entries, decoded_blocks(rest)),
    decreases entries.len(),
{
    if entries.len() > 0 {
        let front = entries.drop_last();
        let last = entries.last();
        assert(encoded_blocks(entries) + rest =~= encoded_blocks(front) + (encoded_entry(last)
            + rest));
        lemma_entries_then(front, encoded_entry(last) + rest);
        lemma_entry_then(last, rest);
        match decoded_blocks(rest) {
            Ok(more) => {
                assert(front + (seq![last] + more) =~= entries + more);
            },
            Err(e) => {},
        }
    }
}

/// The bytes of a file that begins with the header of version 0 hold what
/// its blocks hold.
pub proof fn lemma_header_then(blocks: Seq<u8>)
    ensures
        decoded(V0_HEADER@ + blocks) == decoded_blocks(blocks),
{
    let bytes = V0_HEADER@ + blocks;
    assert(bytes.skip(V0_HEADER@.len() as int) =~= blocks);
}

/// Bytes that are no whole block hold no entry and are no error.
pub proof fn lemma_incomplete_block(bytes: Seq<u8>)
    requires
        incomplete_block(bytes),
    ensures
        decoded_blocks(bytes) == Ok::<Seq<EntryModel>, DecodeError>(Seq::empty()),
{
}

/// A block of a later format is passed over: what follows it is read as if
/// the block were not there.
pub proof fn lemma_extension_block_skipped(block: Seq<u8>, rest: Seq<u8>)
    requires
        extension_block(block),
    ensures
        decoded_blocks(block + rest) == decoded_blocks(rest),
{
    let bytes = block + rest;
    assert(bytes.skip(block.len() as int) =~= rest);
}

/// Writing a lexicon and reading the bytes gives the lexicon back: every
/// entry, in the same order, with the same lexeme and the same flags.
pub proof fn lemma_round_trip(entries: Seq<EntryModel>)
    requires
        all_storable(entries),
    ensures
        decoded(encoded(entries)) == Ok::<Seq<EntryModel>, DecodeError>(entries),
{
    lemma_truncation_tolerated(entries, Seq::empty());
}

/// The bytes of a lexicon depend on nothing but what its entries hold:
/// writing the same lexicon twice gives the same bytes.
pub proof fn lemma_encoding_repeatable(
    entries: Seq<LexiconEntry>,
    again: Seq<LexiconEntry>,
    first: Seq<u8>,
    second: Seq<u8>,
)
    requires
        models(entries) == models(again),
        first == encoded(models(entries)),
        second == encoded(models(again)),
    ensures
        first == second,
{
}

/// Bytes after the last block that are no whole block are not read: the
/// lexicon is read as if they were not there.
pub proof fn lemma_truncation_tolerated(entries: Seq<EntryModel>, extra: Seq<u8>)
    requires
        all_storable(entries),
        incomplete_block(extra),
    ensures
        decoded(encoded(entries) + extra) == Ok::<Seq<EntryModel>, DecodeError>(entries),
{
    assert(encoded(entries) + extra =~= V0_HEADER@ + (encoded_blocks(entries) + extra));
    lemma_header_then(encoded_blocks(entries) + extra);
    lemma_entries_then(entries, extra);
    lemma_incomplete_block(extra);
}

/// A block of a later format between the blocks of two lexicons is passed
/// over: the entries before it and the entries after it are read as if the
/// block were not there, whatever the block holds.
pub proof fn lemma_extension_block_between(
    before: Seq<EntryModel>,
    block: Seq<u8>,
    after: Seq<EntryModel>,
)
    requires
        all_storable(before),
        all_storable(after),
        extension_block(block),
    ensures
        decoded(encoded(before) + block + encoded_blocks(after)) == Ok::<
            Seq<EntryModel>,
            DecodeError,
        >(before + after),
        decoded(encoded(before) + block + encoded_blocks(after)) == decoded(
            encoded(before) + encoded_blocks(after),
        ),
{
    let tail = encoded_blocks(after);
    assert(encoded(before) + block + tail =~= V0_HEADER@ + (encoded_blocks(before) + (block
        + tail)));
    assert(encoded(before) + tail =~= V0_HEADER@ + (encoded_blocks(before) + tail));
    lemma_header_then(encoded_blocks(before) + (block + tail));
    lemma_header_then(encoded_blocks(before) + tail);
    lemma_entries_then(before, block + tail);
    lemma_entries_then(before, tail);
    lemma_extension_block_skipped(block, tail);
    lemma_entries_then(after, Seq::empty());
}

/// A block of a later format anywhere after the entries of a lexicon is
/// passed over, whatever follows it.
pub proof fn lemma_extension_block_after(before: Seq<EntryModel>, block: Seq<u8>, rest: Seq<u8>)
    requires
        all_storable(before),
        extension_block(block),
    ensures
        decoded(encoded(before) + block + rest) == decoded(encoded(before) + rest),
{
    assert(encoded(before) + block + rest =~= V0_HEADER@ + (encoded_blocks(before) + (block
        + rest)));
    assert(encoded(before) + rest =~= V0_HEADER@ + (encoded_blocks(before) + rest));
    lemma_header_then(encoded_blocks(before) + (block + rest));
    lemma_header_then(encoded_blocks(before) + rest);
    lemma_entries_then(before, block + rest);
    lemma_entries_then(before, rest);
    lemma_extension_block_skipped(block, rest);
}

/// Every entry that is read from blocks can be written and read back.
pub proof fn lemma_decoded_blocks_storable(bytes: Seq<u8>)
    requires
        decoded_blocks(bytes) is Ok,
    ensures
        all_storable(decoded_blocks(bytes)->Ok_0),
    decreases bytes.len(),
{
    if bytes.len() > 0 {
        let length = block_length(bytes[0]);
        if V0_MIN_LENGTH <= length <= bytes.len() {
            lemma_decoded_blocks_storable(bytes.skip(length));
            if !is_extension(bytes[0]) {
                let low = bytes[1];
                let middle = bytes[2];
                let high = bytes[3];
                assert(((low as u32) | ((middle as u32) << 8) | ((high as u32) << 16))
                    < 0x0100_0000u32) by (bit_vector);
            }
        }
    }
}

/// What is read from a file can be written and read again, and is then the
/// same lexicon.
pub proof fn lemma_reread(bytes: Seq<u8>)
    requires
        decoded(bytes) is Ok,
    ensures
        all_storable(decoded(bytes)->Ok_0),
        decoded(encoded(decoded(bytes)->Ok_0)) == decoded(bytes),
{
    lemma_decoded_blocks_storable(bytes.skip(V0_HEADER@.len() as int));
    lemma_round_trip(decoded(bytes)->Ok_0);
}

} // verus!
