use llledit::codec::{
    encode_lll, flag_bytes, flags_from_bytes, parse_lll, DecodeError, LexiconEntry,
    UnsupportedVersion, V0_HEADER,
};
use llledit::flags::Flags;
use llledit::lexeme::{Lexeme, LexemeError};

fn entry(text: &str, bits: u32) -> LexiconEntry {
    LexiconEntry { lexeme: Lexeme::from_text(text).unwrap(), flags: Flags::from_bits(bits) }
}

fn held(entries: &[LexiconEntry]) -> Vec<(Vec<u8>, u32)> {
    entries.iter().map(|e| (e.lexeme.bytes().to_vec(), e.flags.bits)).collect()
}

fn sample() -> Vec<LexiconEntry> {
    vec![
        entry("cat", 0x04_0005),
        entry("na\u{ef}ve", 0),
        entry("a", 0xff_ffff),
        entry(&"z".repeat(123), 0x01_0203),
    ]
}

#[test]
fn header_is_magic_and_version() {
    assert_eq!(V0_HEADER, [b'l', b'l', b'l', 0]);
}

#[test]
fn bytes_of_a_small_lexicon() {
    let bytes = encode_lll(&[entry("cat", 0x04_0005), entry("ox", 0x01_0203)]);
    assert_eq!(
        bytes,
        vec![
            0x6c, 0x6c, 0x6c, 0x00, // header
            7, 0x05, 0x00, 0x04, b'c', b'a', b't', // first block
            6, 0x03, 0x02, 0x01, b'o', b'x', // second block
        ]
    );
}

#[test]
fn bytes_of_the_empty_lexicon() {
    assert_eq!(encode_lll(&[]), vec![0x6c, 0x6c, 0x6c, 0x00]);
    assert_eq!(parse_lll(&[0x6c, 0x6c, 0x6c, 0x00]).unwrap().len(), 0);
}

#[test]
fn longest_lexeme_gives_the_longest_block() {
    let bytes = encode_lll(&[entry(&"z".repeat(123), 0)]);
    assert_eq!(bytes.len(), 4 + 127);
    assert_eq!(bytes[4], 127);
}

#[test]
fn flag_word_above_three_bytes_loses_its_top() {
    let bytes = encode_lll(&[entry("top", 0x0102_0304)]);
    assert_eq!(&bytes[4..8], &[7, 0x04, 0x03, 0x02]);
    let back = parse_lll(&bytes).unwrap();
    assert_eq!(back[0].flags.bits, 0x02_0304);
}

#[test]
fn flag_bytes_are_low_byte_first() {
    assert_eq!(flag_bytes(Flags::from_bits(0x0a_0b0c)), [0x0c, 0x0b, 0x0a]);
    assert_eq!(flags_from_bytes(0x0c, 0x0b, 0x0a).bits, 0x0a_0b0c);
    assert_eq!(flags_from_bytes(0xff, 0xff, 0xff).bits, 0xff_ffff);
}

#[test]
fn what_is_written_is_read_back() {
    let entries = sample();
    let read = parse_lll(&encode_lll(&entries)).unwrap();
    assert_eq!(read, entries);
    assert_eq!(held(&read), held(&entries));
}

#[test]
fn entries_are_equal_when_text_and_flags_are() {
    assert_eq!(entry("cat", 5), entry(" cat\n", 5));
    assert_ne!(entry("cat", 5), entry("cat", 4));
    assert_ne!(entry("cat", 5), entry("cab", 5));
    assert_ne!(entry("cat", 5), entry("cats", 5));
}

#[test]
fn writing_twice_gives_the_same_bytes() {
    let entries = sample();
    assert_eq!(encode_lll(&entries), encode_lll(&entries));
    let read = parse_lll(&encode_lll(&entries)).unwrap();
    assert_eq!(encode_lll(&read), encode_lll(&entries));
}

#[test]
fn beginning_of_a_block_at_the_end_is_not_read() {
    let entries = sample();
    let whole = encode_lll(&entries);
    // A block of 9 bytes of which 1 to 8 are there.
    let block = [9, 1, 0, 0, b'h', b'e', b'l', b'l', b'o'];
    for kept in 1..block.len() {
        let mut bytes = whole.clone();
        bytes.extend_from_slice(&block[..kept]);
        let read = parse_lll(&bytes).unwrap();
        assert_eq!(held(&read), held(&entries));
    }
    let mut bytes = whole.clone();
    bytes.extend_from_slice(&block);
    assert_eq!(parse_lll(&bytes).unwrap().len(), entries.len() + 1);
}

#[test]
fn cut_off_file_gives_the_entries_before_the_cut() {
    let entries = sample();
    let whole = encode_lll(&entries);
    // Cut inside the second block.
    let read = parse_lll(&whole[..4 + 7 + 3]).unwrap();
    assert_eq!(held(&read), held(&entries[..1]));
}

#[test]
fn cut_off_extension_block_is_not_read() {
    let mut bytes = encode_lll(&[entry("cat", 1)]);
    bytes.extend_from_slice(&[0x80 | 10, 0xff, 0xff]);
    let read = parse_lll(&bytes).unwrap();
    assert_eq!(held(&read), vec![(b"cat".to_vec(), 1)]);
}

#[test]
fn length_below_four_at_the_end_is_an_error() {
    let mut bytes = encode_lll(&sample());
    bytes.push(0);
    assert_eq!(parse_lll(&bytes).err(), Some(DecodeError::CorruptBlockLength));
}

#[test]
fn extension_block_is_passed_over() {
    let before = vec![entry("cat", 1)];
    let after = vec![entry("dog", 2), entry("emu", 3)];
    let mut bytes = encode_lll(&before);
    // Not UTF-8, and where the flags would be as well.
    bytes.extend_from_slice(&[0x80 | 8, 0xff, 0xfe, 0xfd, 0xc0, 0x00, 0x03, 0x80]);
    bytes.extend_from_slice(&encode_lll(&after)[4..]);
    let read = parse_lll(&bytes).unwrap();
    assert_eq!(
        held(&read),
        vec![(b"cat".to_vec(), 1), (b"dog".to_vec(), 2), (b"emu".to_vec(), 3)]
    );
}

#[test]
fn extension_block_without_payload_is_passed_over() {
    let mut bytes = vec![0x6c, 0x6c, 0x6c, 0x00];
    bytes.extend_from_slice(&[0x84, 9, 9, 9]);
    bytes.extend_from_slice(&[0xff; 127]);
    bytes.extend_from_slice(&[5, 7, 0, 0, b'x']);
    let read = parse_lll(&bytes).unwrap();
    assert_eq!(held(&read), vec![(b"x".to_vec(), 7)]);
}

#[test]
fn too_short_for_a_header() {
    assert_eq!(parse_lll(&[]).err(), Some(DecodeError::TooShort));
    assert_eq!(parse_lll(&[0x6c, 0x6c, 0x6c]).err(), Some(DecodeError::TooShort));
    // Too short wins over a wrong magic.
    assert_eq!(parse_lll(&[b'x']).err(), Some(DecodeError::TooShort));
}

#[test]
fn wrong_magic() {
    assert_eq!(parse_lll(&[b'L', 0x6c, 0x6c, 0]).err(), Some(DecodeError::BadMagic));
    assert_eq!(parse_lll(&[0x6c, b'm', 0x6c, 0]).err(), Some(DecodeError::BadMagic));
    assert_eq!(parse_lll(&[0x6c, 0x6c, 0, 0]).err(), Some(DecodeError::BadMagic));
    // A wrong magic wins over a wrong version.
    assert_eq!(parse_lll(&[0, 0, 0, 1, 5, 0, 0, 0, b'a']).err(), Some(DecodeError::BadMagic));
}

#[test]
fn versions_other_than_zero() {
    let with_version = |v: u8| parse_lll(&[0x6c, 0x6c, 0x6c, v, 5, 0, 0, 0, b'a']).err();
    assert_eq!(with_version(1), Some(DecodeError::UnsupportedVersion(UnsupportedVersion::One)));
    assert_eq!(with_version(2), Some(DecodeError::UnsupportedVersion(UnsupportedVersion::Two)));
    assert_eq!(with_version(3), Some(DecodeError::UnsupportedVersion(UnsupportedVersion::Later)));
    assert_eq!(with_version(255), Some(DecodeError::UnsupportedVersion(UnsupportedVersion::Later)));
    assert_eq!(with_version(0), None);
}

#[test]
fn block_length_below_four() {
    for first in [0u8, 1, 2, 3, 0x80, 0x83] {
        let bytes = [0x6c, 0x6c, 0x6c, 0, first, 0, 0, 0, b'a'];
        assert_eq!(parse_lll(&bytes).err(), Some(DecodeError::CorruptBlockLength));
    }
    // Also after a block that is fine.
    let mut bytes = encode_lll(&[entry("ok", 0)]);
    bytes.extend_from_slice(&[3, 0, 0]);
    assert_eq!(parse_lll(&bytes).err(), Some(DecodeError::CorruptBlockLength));
}

#[test]
fn block_without_lexeme() {
    let bytes = [0x6c, 0x6c, 0x6c, 0, 4, 1, 2, 3];
    assert_eq!(parse_lll(&bytes).err(), Some(DecodeError::Lexeme(LexemeError::Empty)));
}

#[test]
fn block_with_lexeme_that_is_not_utf8() {
    let mut bytes = encode_lll(&[entry("fine", 0)]);
    bytes.extend_from_slice(&[6, 0, 0, 0, b'a', 0xff]);
    bytes.extend_from_slice(&[5, 0, 0, 0, b'b']);
    assert_eq!(parse_lll(&bytes).err(), Some(DecodeError::Lexeme(LexemeError::InvalidUtf8)));
}

#[test]
fn white_space_in_a_stored_lexeme_is_kept() {
    let bytes = [0x6c, 0x6c, 0x6c, 0, 7, 0, 0, 0, b' ', b'a', b' '];
    let read = parse_lll(&bytes).unwrap();
    assert_eq!(held(&read), vec![(b" a ".to_vec(), 0)]);
    assert_eq!(encode_lll(&read), bytes.to_vec());
}

#[test]
fn first_error_in_the_file_is_reported() {
    let bytes = [0x6c, 0x6c, 0x6c, 0, 4, 0, 0, 0, 2, 0, 0];
    assert_eq!(parse_lll(&bytes).err(), Some(DecodeError::Lexeme(LexemeError::Empty)));
    let bytes = [0x6c, 0x6c, 0x6c, 0, 2, 0, 0, 0, 4, 0, 0, 0];
    assert_eq!(parse_lll(&bytes).err(), Some(DecodeError::CorruptBlockLength));
}

#[test]
fn a_clone_of_an_entry_is_the_same_entry() {
    let ll = entry("twin", 0x12_3456);
    let copy = ll.clone();
    assert_eq!(held(&[copy]), held(&[ll]));
}

#[test]
fn messages_of_decode_errors() {
    assert_eq!(DecodeError::TooShort.message(), "File was not .lll format: Too short.");
    assert_eq!(DecodeError::BadMagic.message(), "File was not .lll format: Header wrong");
    assert_eq!(
        DecodeError::UnsupportedVersion(UnsupportedVersion::One).message(),
        "File was an unsupported version of .lll format: 1"
    );
    assert_eq!(
        DecodeError::UnsupportedVersion(UnsupportedVersion::Two).message(),
        "File was an unsupported version of .lll format: 2"
    );
    assert_eq!(
        DecodeError::UnsupportedVersion(UnsupportedVersion::Later).message(),
        "File was an unsupported version of .lll format: >2"
    );
    assert_eq!(
        DecodeError::CorruptBlockLength.message(),
        "Table seems corrupted: Block length was invalid."
    );
    assert_eq!(
        DecodeError::Lexeme(LexemeError::InvalidUtf8).message(),
        "Potential lexeme was not valid UTF-8"
    );
}
