use llledit::codec::LexiconEntry;
use llledit::command::FlagsCommand::{
    CommitFlags, SetAdjectiveOrder, SetBit, SwitchToLexemeEdit, ToggleBit, UnsetBit,
};
use llledit::flags::Flags;
use llledit::interpreter::{apply_edit, handle_commands, StateSwitch};
use llledit::lexeme::Lexeme;
use llledit::parser::parse_flags_commands;

fn entry(text: &str, bits: u32) -> LexiconEntry {
    LexiconEntry { lexeme: Lexeme::from_text(text).unwrap(), flags: Flags::from_bits(bits) }
}

#[test]
fn no_command_after_commit_is_applied() {
    let mut ll = entry("run", 0);
    let switch = handle_commands(&mut ll, &[SetBit(0), CommitFlags, SetBit(1), SetBit(2)]);
    assert_eq!(switch, StateSwitch::Finished);
    assert_eq!(ll.flags.bits, 0b001);
}

#[test]
fn no_command_after_edit_lexeme_is_applied() {
    let mut ll = entry("run", 0b100);
    let switch = handle_commands(&mut ll, &[SwitchToLexemeEdit, UnsetBit(2), CommitFlags]);
    assert_eq!(switch, StateSwitch::EditLexeme);
    assert_eq!(ll.flags.bits, 0b100);
}

#[test]
fn without_terminator_editing_goes_on() {
    let mut ll = entry("run", 0);
    let switch = handle_commands(&mut ll, &[SetBit(4), SetBit(5)]);
    assert_eq!(switch, StateSwitch::Stay);
    assert_eq!(ll.flags.bits, 0b11_0000);
    assert_eq!(handle_commands(&mut ll, &[]), StateSwitch::Stay);
    assert_eq!(ll.flags.bits, 0b11_0000);
}

#[test]
fn commands_are_applied_in_order() {
    let mut ll = entry("big", 0);
    let commands = [
        SetBit(1),
        ToggleBit(1),
        ToggleBit(3),
        SetBit(8),
        UnsetBit(8),
        SetAdjectiveOrder(15),
        SetAdjectiveOrder(6),
        CommitFlags,
    ];
    assert_eq!(handle_commands(&mut ll, &commands), StateSwitch::Finished);
    assert_eq!(ll.flags.bits, 0x06_0008);
}

#[test]
fn the_lexeme_is_left_alone() {
    let mut ll = entry("stay", 0);
    handle_commands(&mut ll, &[SetBit(0), ToggleBit(2), CommitFlags]);
    assert_eq!(ll.lexeme.bytes(), b"stay");
}

#[test]
fn one_edit_at_a_time() {
    let mut flags = Flags::new();
    apply_edit(&mut flags, SetBit(2));
    assert_eq!(flags.bits, 4);
    apply_edit(&mut flags, ToggleBit(0));
    assert_eq!(flags.bits, 5);
    apply_edit(&mut flags, UnsetBit(2));
    assert_eq!(flags.bits, 1);
    apply_edit(&mut flags, SetAdjectiveOrder(10));
    assert_eq!(flags.bits, 0x0a_0001);
    apply_edit(&mut flags, CommitFlags);
    apply_edit(&mut flags, SwitchToLexemeEdit);
    assert_eq!(flags.bits, 0x0a_0001);
}

#[test]
fn a_parsed_line_is_applied() {
    let mut ll = entry("cats", 0);
    let commands = parse_flags_commands("s1 t4,5 u4 a7f").unwrap();
    assert_eq!(handle_commands(&mut ll, &commands), StateSwitch::Finished);
    assert_eq!(ll.flags.bits, 0x07_0022);
    let more = parse_flags_commands("u1,\n").unwrap();
    assert_eq!(handle_commands(&mut ll, &more), StateSwitch::Stay);
    assert_eq!(ll.flags.bits, 0x07_0020);
    let back = parse_flags_commands("e").unwrap();
    assert_eq!(handle_commands(&mut ll, &back), StateSwitch::EditLexeme);
}

#[test]
fn valid_commands_keep_the_flags_within_three_bytes() {
    let mut ll = entry("all", 0);
    let mut commands = Vec::new();
    for index in 0..24 {
        commands.push(ToggleBit(index));
    }
    assert_eq!(handle_commands(&mut ll, &commands), StateSwitch::Stay);
    assert_eq!(ll.flags.bits, 0xff_ffff);
    let more = [SetBit(23), SetAdjectiveOrder(15), UnsetBit(0), ToggleBit(22)];
    assert_eq!(handle_commands(&mut ll, &more), StateSwitch::Stay);
    assert_eq!(ll.flags.bits, 0xbf_fffe);
    assert!(ll.flags.bits < 1 << 24);
}
