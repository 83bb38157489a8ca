use llledit::trimming::trim_ends;

#[test]
fn white_space_at_both_ends_is_dropped() {
    assert_eq!(trim_ends("  ice cream \n"), "ice cream");
    assert_eq!(trim_ends("\t\r\nword"), "word");
    assert_eq!(trim_ends("word \u{a0}\u{2003}\u{3000}"), "word");
}

#[test]
fn text_without_white_space_at_its_ends_is_kept() {
    assert_eq!(trim_ends("word"), "word");
    assert_eq!(trim_ends("two words"), "two words");
    assert_eq!(trim_ends(""), "");
    // A zero byte and a zero-width space are no white space.
    assert_eq!(trim_ends("\0a\0"), "\0a\0");
    assert_eq!(trim_ends("\u{200b}a"), "\u{200b}a");
}

#[test]
fn white_space_alone_leaves_nothing() {
    assert_eq!(trim_ends(" "), "");
    assert_eq!(trim_ends(" \n\t \u{2028}"), "");
}

#[test]
fn trimming_twice_is_trimming_once() {
    for text in ["", " ", " a ", "a  b", "\n\na\n\n", " \u{e9} "] {
        assert_eq!(trim_ends(trim_ends(text)), trim_ends(text));
    }
}
