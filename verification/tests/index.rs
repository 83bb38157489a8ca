use llledit::index::parse_index;

#[test]
fn digits_name_a_position() {
    assert_eq!(parse_index("0"), Some(0));
    assert_eq!(parse_index("7"), Some(7));
    assert_eq!(parse_index("1234567"), Some(1234567));
}

#[test]
fn leading_zeros_do_not_count() {
    assert_eq!(parse_index("007"), Some(7));
    assert_eq!(parse_index("0000000000000000000000000000000000012"), Some(12));
}

#[test]
fn one_plus_sign_may_stand_first() {
    assert_eq!(parse_index("+5"), Some(5));
    assert_eq!(parse_index("+"), None);
    assert_eq!(parse_index("++5"), None);
    assert_eq!(parse_index("5+"), None);
    assert_eq!(parse_index("+5+"), None);
}

#[test]
fn nothing_but_digits_is_a_position() {
    assert_eq!(parse_index(""), None);
    assert_eq!(parse_index("-1"), None);
    assert_eq!(parse_index(" 1"), None);
    assert_eq!(parse_index("1 "), None);
    assert_eq!(parse_index("1_000"), None);
    assert_eq!(parse_index("12a"), None);
    assert_eq!(parse_index("0x10"), None);
    assert_eq!(parse_index("\u{663}"), None);
    assert_eq!(parse_index("1\n"), None);
}

#[test]
fn largest_position_is_the_largest_usize() {
    let largest = format!("{}", usize::MAX);
    assert_eq!(parse_index(&largest), Some(usize::MAX));
    let mut beyond = largest.clone();
    beyond.push('0');
    assert_eq!(parse_index(&beyond), None);
    assert_eq!(parse_index("99999999999999999999999999999999999999999999"), None);
}

#[test]
fn positions_are_read_as_std_reads_them() {
    let texts = ["", "0", "+0", "+", "-0", "42", "042", " 42", "4 2", "18446744073709551615",
        "18446744073709551616", "+18446744073709551615", "1e3", "٣"];
    for text in texts {
        assert_eq!(parse_index(text), usize::from_str_radix(text, 10).ok());
    }
}
