use llledit::codec::LexiconEntry;
use llledit::command::ParseError;
use llledit::flags::Flags;
use llledit::lexeme::{Lexeme, LexemeError};
use llledit::shell::{first_of, step, Action, Draft, Message, State};

fn entry(text: &str, bits: u32) -> LexiconEntry {
    LexiconEntry { lexeme: Lexeme::from_text(text).unwrap(), flags: Flags::from_bits(bits) }
}

fn held(entries: &[LexiconEntry]) -> Vec<(Vec<u8>, u32)> {
    entries.iter().map(|e| (e.lexeme.bytes().to_vec(), e.flags.bits)).collect()
}

#[test]
fn first_character_of_a_line() {
    assert_eq!(first_of(""), None);
    assert_eq!(first_of("q\n"), Some('q'));
    assert_eq!(first_of("\u{e9}t\u{e9}"), Some('\u{e9}'));
}

#[test]
fn menu_offers_three_choices() {
    let mut lll = vec![entry("cat", 1)];
    let (state, message, action) = step(State::Menu, Message::UnknownChoice, &mut lll, "q\n");
    assert!(matches!(state, State::Menu));
    assert_eq!(message, Message::UnknownChoice);
    assert_eq!(action, Action::Quit);

    let (state, message, action) = step(State::Menu, Message::UnknownChoice, &mut lll, "add\n");
    match state {
        State::AddChars { draft } => {
            assert!(draft.lexeme.is_none());
            assert_eq!(draft.flags.bits, 0);
        }
        _ => panic!("a new entry should have been begun"),
    }
    assert_eq!(message, Message::Nothing);
    assert_eq!(action, Action::Continue);

    let (state, message, action) = step(State::Menu, Message::UnknownChoice, &mut lll, "e\n");
    assert!(matches!(state, State::SelectEditIndex { chosen: None }));
    assert_eq!(message, Message::Nothing);
    assert_eq!(action, Action::Continue);
    assert_eq!(held(&lll), vec![(b"cat".to_vec(), 1)]);
}

#[test]
fn menu_asks_again_for_any_other_line() {
    let mut lll = vec![];
    let (state, message, action) = step(State::Menu, Message::Nothing, &mut lll, "");
    assert!(matches!(state, State::Menu));
    assert_eq!(message, Message::TypeALetter);
    assert_eq!(action, Action::Continue);
    for line in ["\n", "x\n", "Q\n", " q\n", "1\n"] {
        let (state, message, action) = step(State::Menu, Message::Nothing, &mut lll, line);
        assert!(matches!(state, State::Menu));
        assert_eq!(message, Message::UnknownChoice);
        assert_eq!(action, Action::Continue);
    }
}

#[test]
fn an_entry_is_added_at_the_end() {
    let mut lll = vec![entry("cat", 1)];
    let draft = Draft { lexeme: None, flags: Flags::new() };
    let (state, message, action) =
        step(State::AddChars { draft }, Message::Nothing, &mut lll, "  dog \n");
    assert_eq!((message, action), (Message::Nothing, Action::Continue));
    let (state, message, action) = step(state, message, &mut lll, "s0,2\n");
    assert_eq!((message, action), (Message::Nothing, Action::Continue));
    match &state {
        State::AddFlags { ll } => {
            assert_eq!(ll.lexeme.bytes(), b"dog");
            assert_eq!(ll.flags.bits, 0b101);
        }
        _ => panic!("the flags should still be edited"),
    }
    assert_eq!(lll.len(), 1);
    let (state, message, action) = step(state, message, &mut lll, "a4f\n");
    assert!(matches!(state, State::Menu));
    assert_eq!((message, action), (Message::Nothing, Action::Save));
    assert_eq!(held(&lll), vec![(b"cat".to_vec(), 1), (b"dog".to_vec(), 0x04_0005)]);
}

#[test]
fn a_line_that_is_no_lexeme_is_asked_for_again() {
    let mut lll = vec![];
    let draft = Draft { lexeme: None, flags: Flags::from_bits(6) };
    let (state, message, action) =
        step(State::AddChars { draft }, Message::Nothing, &mut lll, " \n");
    assert_eq!((message, action), (Message::Lexeme(LexemeError::Empty), Action::Continue));
    let long = "a".repeat(124);
    let (state, message, action) = step(state, message, &mut lll, &long);
    assert_eq!((message, action), (Message::Lexeme(LexemeError::TooLong), Action::Continue));
    match state {
        State::AddChars { draft } => {
            assert!(draft.lexeme.is_none());
            assert_eq!(draft.flags.bits, 6);
        }
        _ => panic!("the lexeme should still be asked for"),
    }
}

#[test]
fn a_line_that_is_no_shorthand_changes_nothing() {
    let mut lll = vec![];
    let ll = entry("owl", 0b10);
    let (state, message, action) =
        step(State::AddFlags { ll }, Message::Nothing, &mut lll, "s0,x\n");
    assert_eq!(message, Message::Flags(ParseError::UnrecognizedPrintableChar));
    assert_eq!(action, Action::Continue);
    match &state {
        State::AddFlags { ll } => assert_eq!(ll.flags.bits, 0b10),
        _ => panic!("the flags should still be edited"),
    }
    // The message stays until another takes its place.
    let (state, message, _) = step(state, message, &mut lll, "s0\n");
    assert_eq!(message, Message::Flags(ParseError::UnrecognizedPrintableChar));
    match &state {
        State::AddFlags { ll } => assert_eq!(ll.flags.bits, 0b11),
        _ => panic!("the flags should still be edited"),
    }
    assert!(lll.is_empty());
}

#[test]
fn from_the_flags_back_to_the_lexeme() {
    let mut lll = vec![];
    let ll = entry("owl", 0);
    let (state, _, action) = step(State::AddFlags { ll }, Message::Nothing, &mut lll, "s3e\n");
    assert_eq!(action, Action::Continue);
    match &state {
        State::AddChars { draft } => {
            assert_eq!(draft.lexeme.as_ref().map(|l| l.bytes().to_vec()), Some(b"owl".to_vec()));
            assert_eq!(draft.flags.bits, 8);
        }
        _ => panic!("the lexeme should be asked for"),
    }
    let (state, _, _) = step(state, Message::Nothing, &mut lll, "owls\n");
    match &state {
        State::AddFlags { ll } => {
            assert_eq!(ll.lexeme.bytes(), b"owls");
            assert_eq!(ll.flags.bits, 8);
        }
        _ => panic!("the flags should be edited"),
    }
}

#[test]
fn an_entry_is_chosen_by_its_position() {
    let mut lll = vec![entry("cat", 1), entry("dog", 2)];
    let select = State::SelectEditIndex { chosen: None };
    let (state, message, _) = step(select, Message::Nothing, &mut lll, "e\n");
    assert!(matches!(state, State::SelectEditIndex { chosen: None }));
    assert_eq!(message, Message::CouldNotParseIndex);
    let (state, message, _) = step(state, message, &mut lll, " 1 \n");
    assert!(matches!(state, State::SelectEditIndex { chosen: Some(1) }));
    assert_eq!(message, Message::Nothing);
    let (state, message, _) = step(state, message, &mut lll, "one\n");
    assert!(matches!(state, State::SelectEditIndex { chosen: Some(1) }));
    assert_eq!(message, Message::CouldNotParseIndex);
    let (state, message, action) = step(state, message, &mut lll, "f\n");
    assert_eq!((message, action), (Message::Nothing, Action::Continue));
    match &state {
        State::EditFlags { ll, index } => {
            assert_eq!(*index, 1);
            assert_eq!(held(&[ll.clone()]), vec![(b"dog".to_vec(), 2)]);
        }
        _ => panic!("the flags of the entry should be edited"),
    }
}

#[test]
fn a_position_without_entry_is_refused() {
    let mut lll = vec![entry("cat", 1)];
    let select = State::SelectEditIndex { chosen: Some(1) };
    let (state, message, _) = step(select, Message::Nothing, &mut lll, "e\n");
    assert!(matches!(state, State::SelectEditIndex { chosen: Some(1) }));
    assert_eq!(message, Message::NoLexemeAtIndex);
    let (state, message, _) = step(state, message, &mut lll, "f\n");
    assert!(matches!(state, State::SelectEditIndex { chosen: Some(1) }));
    assert_eq!(message, Message::NoLexemeAtIndex);
    let (state, message, _) = step(state, message, &mut lll, "quit\n");
    assert!(matches!(state, State::Menu));
    assert_eq!(message, Message::Nothing);
}

#[test]
fn an_edited_entry_keeps_its_position() {
    let mut lll = vec![entry("cat", 1), entry("dog", 2), entry("emu", 3)];
    let select = State::SelectEditIndex { chosen: Some(1) };
    let (state, message, _) = step(select, Message::Nothing, &mut lll, "e\n");
    match &state {
        State::EditChars { ll, index } => {
            assert_eq!(*index, 1);
            assert_eq!(ll.lexeme.bytes(), b"dog");
        }
        _ => panic!("the lexeme of the entry should be edited"),
    }
    let (state, message, _) = step(state, message, &mut lll, "\n");
    assert!(matches!(state, State::EditChars { index: 1, .. }));
    assert_eq!(message, Message::Lexeme(LexemeError::Empty));
    let (state, message, _) = step(state, message, &mut lll, "hound\n");
    assert!(matches!(state, State::EditFlags { index: 1, .. }));
    assert_eq!(message, Message::Nothing);
    let (state, message, action) = step(state, message, &mut lll, "t0,1\n");
    assert!(matches!(state, State::EditFlags { index: 1, .. }));
    assert_eq!(action, Action::Continue);
    assert_eq!(held(&lll)[1], (b"dog".to_vec(), 2));
    let (state, _, action) = step(state, message, &mut lll, "f\n");
    assert!(matches!(state, State::Menu));
    assert_eq!(action, Action::Save);
    assert_eq!(
        held(&lll),
        vec![(b"cat".to_vec(), 1), (b"hound".to_vec(), 1), (b"emu".to_vec(), 3)]
    );
}

#[test]
fn an_edited_entry_without_position_is_added() {
    let mut lll = vec![entry("cat", 1)];
    let state = State::EditFlags { ll: entry("late", 0), index: 5 };
    let (state, _, action) = step(state, Message::Nothing, &mut lll, "s1f\n");
    assert!(matches!(state, State::Menu));
    assert_eq!(action, Action::Save);
    assert_eq!(held(&lll), vec![(b"cat".to_vec(), 1), (b"late".to_vec(), 2)]);
}

#[test]
fn from_the_flags_of_an_entry_back_to_its_lexeme() {
    let mut lll = vec![entry("cat", 1)];
    let state = State::EditFlags { ll: entry("cat", 1), index: 0 };
    let (state, _, action) = step(state, Message::Nothing, &mut lll, "u0 e\n");
    assert_eq!(action, Action::Continue);
    match &state {
        State::EditChars { ll, index } => {
            assert_eq!(*index, 0);
            assert_eq!(held(&[ll.clone()]), vec![(b"cat".to_vec(), 0)]);
        }
        _ => panic!("the lexeme of the entry should be edited"),
    }
    assert_eq!(held(&lll), vec![(b"cat".to_vec(), 1)]);
}

#[test]
fn texts_of_the_messages() {
    assert_eq!(Message::Nothing.as_str(), "");
    assert_eq!(Message::TypeALetter.as_str(), "Type a letter to select an option");
    assert_eq!(Message::UnknownChoice.as_str(), "???");
    assert_eq!(Message::NoLexemeAtIndex.as_str(), "No lexeme at that index");
    assert_eq!(Message::CouldNotParseIndex.as_str(), "Could not parse index");
    assert_eq!(
        Message::Lexeme(LexemeError::InvalidUtf8).as_str(),
        "Potential lexeme was not valid UTF-8"
    );
    assert_eq!(
        Message::Flags(ParseError::UnexpectedControlChar).as_str(),
        "got unexpected char less than ' '"
    );
}

#[test]
fn what_the_dialogue_saves_is_read_back() {
    let mut lll = llledit::codec::parse_lll(&[0x6c, 0x6c, 0x6c, 0]).unwrap();
    let mut state = State::Menu;
    let mut message = Message::Nothing;
    let lines = [
        "a\n", "  first \n", "s0,1 a3f\n", // add an entry
        "a\n", "second\n", "t23e\n", "2nd\n", "f\n", // add another, with its lexeme changed
        "e\n", "0\n", "f\n", "u0 a15\n", "f\n", // edit the flags of the first
        "e\n", "1\n", "e\n", "third\n", "t23 f\n", // edit the second
    ];
    let mut saves = 0;
    for line in lines {
        let (next, said, action) = step(state, message, &mut lll, line);
        state = next;
        message = said;
        if action == Action::Save {
            saves += 1;
            let bytes = llledit::codec::encode_lll(&lll);
            assert_eq!(llledit::codec::parse_lll(&bytes).unwrap(), lll);
        }
        assert_ne!(action, Action::Quit);
    }
    assert_eq!(saves, 4);
    assert!(matches!(state, State::Menu));
    assert_eq!(
        held(&lll),
        vec![(b"first".to_vec(), 0x0f_0002), (b"third".to_vec(), 0)]
    );
    let (_, _, action) = step(state, message, &mut lll, "q\n");
    assert_eq!(action, Action::Quit);
}
