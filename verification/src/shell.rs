//! The dialogue in which a lexicon is edited: what each typed line does.
//!
//! The dialogue is in one of six states. A line of input leads to the next
//! state, may change the lexicon, and says whether the lexicon has to be
//! saved or the dialogue is over. Showing a state and reading a line are
//! left to the caller.

use vstd::prelude::*;
use crate::codec::LexiconEntry;
use crate::command::{parsed, ParseError};
use crate::flags::Flags;
use crate::index::{index_of_text, parse_index};
use crate::interpreter::{handle_commands, interpreted, StateSwitch};
use crate::lexeme::{checked_text, lexeme_of, Lexeme, LexemeError};
use crate::parser::parse_flags_commands;
use crate::trimming::{trim_ends, trimmed};

verus! {

/// An entry that is being added and may have no lexeme yet.
#[derive(Debug)]
pub struct Draft {
    pub lexeme: Option<Lexeme>,
    pub flags: Flags,
}

/// Where the dialogue stands.
#[derive(Debug)]
pub enum State {
    /// Choosing what to do.
    Menu,
    /// Typing the lexeme of a new entry.
    AddChars { draft: Draft },
    /// Typing the flags of a new entry.
    AddFlags { ll: LexiconEntry },
    /// Choosing the entry to edit.
    SelectEditIndex { chosen: Option<usize> },
    /// Typing the new lexeme of the entry at `index`.
    EditChars { ll: LexiconEntry, index: usize },
    /// Typing the flags of the entry at `index`.
    EditFlags { ll: LexiconEntry, index: usize },
}

/// What is said to the user about the last line.
#[derive(Clone, Copy, Debug, PartialEq, Eq, Structural)]
pub enum Message {
    /// Nothing.
    Nothing,
    /// The line held no character.
    TypeALetter,
    /// The line chose nothing that the menu offers.
    UnknownChoice,
    /// The lexicon has no entry at the chosen position.
    NoLexemeAtIndex,
    /// The line named no position.
    CouldNotParseIndex,
    /// The line was no lexeme.
    Lexeme(LexemeError),
    /// The line was no shorthand for flags.
    Flags(ParseError),
}

/// What the caller has to do after a line.
#[derive(Clone, Copy, Debug, PartialEq, Eq, Structural)]
pub enum Action {
    /// Show the state and read the next line.
    Continue,
    /// Write the lexicon, then go on; end the dialogue if it cannot be
    /// written.
    Save,
    /// End the dialogue.
    Quit,
}

/// What a line leads to.
pub struct Outcome {
    pub state: State,
    pub message: Message,
    pub lexicon: Seq<LexiconEntry>,
    pub action: Action,
}

impl Message {
    /// The text of the message.
    pub open spec fn text(self) -> Seq<char> {
        match self {
            Message::Nothing => ""@,
            Message::TypeALetter => "Type a letter to select an option"@,
            Message::UnknownChoice => "???"@,
            Message::NoLexemeAtIndex => "No lexeme at that index"@,
            Message::CouldNotParseIndex => "Could not parse index"@,
            Message::Lexeme(e) => e.message_text(),
            Message::Flags(e) => e.message_text(),
        }
    }

    /// The text to show.
    pub fn as_str(&self) -> (text: &'static str)
        ensures
            text@ == self.text(),
    {
        match self {
            Message::Nothing => "",
            Message::TypeALetter => "Type a letter to select an option",
            Message::UnknownChoice => "???",
            Message::NoLexemeAtIndex => "No lexeme at that index",
            Message::CouldNotParseIndex => "Could not parse index",
            Message::Lexeme(e) => e.message(),
            Message::Flags(e) => e.message(),
        }
    }
}

/// The first character of a line, if it has one.
pub open spec fn first_char(input: Seq<char>) -> Option<char> {
    if input.len() == 0 {
        None
    } else {
        Some(input[0])
    }
}

/// What a line does in the menu: `q` ends the dialogue, `a` begins a new
/// entry, `e` begins the choice of an entry to edit.
pub open spec fn after_menu(
    message: Message,
    lexicon: Seq<LexiconEntry>,
    input: Seq<char>,
) -> Outcome {
    match first_char(input) {
        None => Outcome {
            state: State::Menu,
            message: Message::TypeALetter,
            lexicon,
            action: Action::Continue,
        },
        Some(c) => if c == 'q' {
            Outcome { state: State::Menu, message, lexicon, action: Action::Quit }
        } else if c == 'a' {
            Outcome {
                state: State::AddChars { draft: Draft { lexeme: None, flags: Flags { bits: 0 } } },
                message: Message::Nothing,
                lexicon,
                action: Action::Continue,
            }
        } else if c == 'e' {
            Outcome {
                state: State::SelectEditIndex { chosen: None },
                message: Message::Nothing,
                lexicon,
                action: Action::Continue,
            }
        } else {
            Outcome {
                state: State::Menu,
                message: Message::UnknownChoice,
                lexicon,
                action: Action::Continue,
            }
        },
    }
}

/// What a line does where the lexeme of a new entry is typed: a line that
/// is a lexeme leads on to the flags, which are kept.
pub open spec fn after_add_chars(
    draft: Draft,
    lexicon: Seq<LexiconEntry>,
    input: Seq<char>,
) -> Outcome {
    match lexeme_of(checked_text(trimmed(input))) {
        Ok(lexeme) => Outcome {
            state: State::AddFlags { ll: LexiconEntry { lexeme, flags: draft.flags } },
            message: Message::Nothing,
            lexicon,
            action: Action::Continue,
        },
        Err(e) => Outcome {
            state: State::AddChars { draft },
            message: Message::Lexeme(e),
            lexicon,
            action: Action::Continue,
        },
    }
}

/// What a line does where the flags of a new entry are typed: its commands
/// are applied, and a complete entry is put at the end of the lexicon.
pub open spec fn after_add_flags(
    ll: LexiconEntry,
    message: Message,
    lexicon: Seq<LexiconEntry>,
    input: Seq<char>,
) -> Outcome {
    match parsed(input) {
        Err(e) => Outcome {
            state: State::AddFlags { ll },
            message: Message::Flags(e),
            lexicon,
            action: Action::Continue,
        },
        Ok(commands) => {
            let (flags, switch) = interpreted(ll.flags, commands);
            let edited = LexiconEntry { lexeme: ll.lexeme, flags };
            match switch {
                StateSwitch::Stay => Outcome {
                    state: State::AddFlags { ll: edited },
                    message,
                    lexicon,
                    action: Action::Continue,
                },
                StateSwitch::EditLexeme => Outcome {
                    state: State::AddChars { draft: Draft { lexeme: Some(ll.lexeme), flags } },
                    message,
                    lexicon,
                    action: Action::Continue,
                },
                StateSwitch::Finished => Outcome {
                    state: State::Menu,
                    message,
                    lexicon: lexicon.push(edited),
                    action: Action::Save,
                },
            }
        },
    }
}

/// What a line does where an entry is chosen: `q` leads back to the menu;
/// once a position is chosen, `e` leads to the lexeme of the entry there and
/// `f` to its flags; any other line is read as a position.
pub open spec fn after_select(
    chosen: Option<usize>,
    lexicon: Seq<LexiconEntry>,
    input: Seq<char>,
) -> Outcome {
    if first_char(input) == Some('q') {
        Outcome { state: State::Menu, message: Message::Nothing, lexicon, action: Action::Continue }
    } else if chosen is Some && (first_char(input) == Some('e') || first_char(input) == Some('f')) {
        let i = chosen->0;
        if i < lexicon.len() {
            Outcome {
                state: if first_char(input) == Some('e') {
                    State::EditChars { ll: lexicon[i as int], index: i }
                } else {
                    State::EditFlags { ll: lexicon[i as int], index: i }
                },
                message: Message::Nothing,
                lexicon,
                action: Action::Continue,
            }
        } else {
            Outcome {
                state: State::SelectEditIndex { chosen },
                message: Message::NoLexemeAtIndex,
                lexicon,
                action: Action::Continue,
            }
        }
    } else {
        match index_of_text(trimmed(input)) {
            Some(i) => Outcome {
                state: State::SelectEditIndex { chosen: Some(i) },
                message: Message::Nothing,
                lexicon,
                action: Action::Continue,
            },
            None => Outcome {
                state: State::SelectEditIndex { chosen },
                message: Message::CouldNotParseIndex,
                lexicon,
                action: Action::Continue,
            },
        }
    }
}

/// What a line does where the lexeme of an entry is changed: a line that is
/// a lexeme takes the place of the old one and leads on to the flags.
pub open spec fn after_edit_chars(
    ll: LexiconEntry,
    index: usize,
    lexicon: Seq<LexiconEntry>,
    input: Seq<char>,
) -> Outcome {
    match lexeme_of(checked_text(trimmed(input))) {
        Ok(lexeme) => Outcome {
            state: State::EditFlags { ll: LexiconEntry { lexeme, flags: ll.flags }, index },
            message: Message::Nothing,
            lexicon,
            action: Action::Continue,
        },
        Err(e) => Outcome {
            state: State::EditChars { ll, index },
            message: Message::Lexeme(e),
            lexicon,
            action: Action::Continue,
        },
    }
}

/// What a line does where the flags of an entry are changed: its commands
/// are applied, and a complete entry takes the place of the entry at its
/// position, or is put at the end where there is no such entry.
pub open spec fn after_edit_flags(
    ll: LexiconEntry,
    index: usize,
    message: Message,
    lexicon: Seq<LexiconEntry>,
    input: Seq<char>,
) -> Outcome {
    match parsed(input) {
        Err(e) => Outcome {
            state: State::EditFlags { ll, index },
            message: Message::Flags(e),
            lexicon,
            action: Action::Continue,
        },
        Ok(commands) => {
            let (flags, switch) = interpreted(ll.flags, commands);
            let edited = LexiconEntry { lexeme: ll.lexeme, flags };
            match switch {
                StateSwitch::Stay => Outcome {
                    state: State::EditFlags { ll: edited, index },
                    message,
                    lexicon,
                    action: Action::Continue,
                },
                StateSwitch::EditLexeme => Outcome {
                    state: State::EditChars { ll: edited, index },
                    message,
                    lexicon,
                    action: Action::Continue,
                },
                StateSwitch::Finished => Outcome {
                    state: State::Menu,
                    message,
                    lexicon: if index < lexicon.len() {
                        lexicon.update(index as int, edited)
                    } else {
                        lexicon.push(edited)
                    },
                    action: Action::Save,
                },
            }
        },
    }
}

/// What a line of input leads to, from a state, the message shown with it
/// and the lexicon.
pub open spec fn after_line(
    state: State,
    message: Message,
    lexicon: Seq<LexiconEntry>,
    input: Seq<char>,
) -> Outcome {
    match state {
        State::Menu => after_menu(message, lexicon, input),
        State::AddChars { draft } => after_add_chars(draft, lexicon, input),
        State::AddFlags { ll } => after_add_flags(ll, message, lexicon, input),
        State::SelectEditIndex { chosen } => after_select(chosen, lexicon, input),
        State::EditChars { ll, index } => after_edit_chars(ll, index, lexicon, input),
        State::EditFlags { ll, index } => after_edit_flags(ll, index, message, lexicon, input),
    }
}

/// Whether three results are what an outcome says, and the lexicon as well.
pub open spec fn is_outcome(
    next: (State, Message, Action),
    lexicon: Seq<LexiconEntry>,
    outcome: Outcome,
) -> bool {
    &&& next.0 == outcome.state
    &&& next.1 == outcome.message
    &&& next.2 == outcome.action
    &&& lexicon == outcome.lexicon
}

/// The first character of a line.
pub fn first_of(input: &str) -> (c: Option<char>)
    ensures
        c == first_char(input@),
{
    for c in it: input.chars()
        invariant
            it.seq() == input@,
            it.index() == 0,
    {
        return Some(c);
    }
    None
}

fn step_menu(message: Message, input: &str) -> (next: (State, Message, Action))
    ensures
        forall|lexicon: Seq<LexiconEntry>|
            is_outcome(next, lexicon, #[trigger] after_menu(message, lexicon, input@)),
{
    match first_of(input) {
        None => (State::Menu, Message::TypeALetter, Action::Continue),
        Some(c) => {
            if c == 'q' {
                (State::Menu, message, Action::Quit)
            } else if c == 'a' {
                let draft = Draft { lexeme: None, flags: Flags::new() };
                (State::AddChars { draft }, Message::Nothing, Action::Continue)
            } else if c == 'e' {
                (State::SelectEditIndex { chosen: None }, Message::Nothing, Action::Continue)
            } else {
                (State::Menu, Message::UnknownChoice, Action::Continue)
            }
        },
    }
}

fn step_add_chars(draft: Draft, input: &str) -> (next: (State, Message, Action))
    ensures
        forall|lexicon: Seq<LexiconEntry>|
            is_outcome(next, lexicon, #[trigger] after_add_chars(draft, lexicon, input@)),
{
    match Lexeme::from_text(input) {
        Ok(lexeme) => {
            let ll = LexiconEntry { lexeme, flags: draft.flags };
            (State::AddFlags { ll }, Message::Nothing, Action::Continue)
        },
        Err(e) => (State::AddChars { draft }, Message::Lexeme(e), Action::Continue),
    }
}

fn step_add_flags(
    ll: LexiconEntry,
    message: Message,
    lll: &mut Vec<LexiconEntry>,
    input: &str,
) -> (next: (State, Message, Action))
    ensures
        is_outcome(next, final(lll)@, after_add_flags(ll, message, old(lll)@, input@)),
{
    let mut ll = ll;
    match parse_flags_commands(input) {
        Err(e) => (State::AddFlags { ll }, Message::Flags(e), Action::Continue),
        Ok(commands) => {
            match handle_commands(&mut ll, commands.as_slice()) {
                StateSwitch::Stay => (State::AddFlags { ll }, message, Action::Continue),
                StateSwitch::EditLexeme => {
                    let draft = Draft { lexeme: Some(ll.lexeme), flags: ll.flags };
                    (State::AddChars { draft }, message, Action::Continue)
                },
                StateSwitch::Finished => {
                    lll.push(ll);
                    (State::Menu, message, Action::Save)
                },
            }
        },
    }
}

fn step_select(chosen: Option<usize>, lll: &Vec<LexiconEntry>, input: &str) -> (next: (
    State,
    Message,
    Action,
))
    ensures
        is_outcome(next, lll@, after_select(chosen, lll@, input@)),
{
    let first = first_of(input);
    if first == Some('q') {
        return (State::Menu, Message::Nothing, Action::Continue);
    }
    if let Some(i) = chosen {
        if first == Some('e') || first == Some('f') {
            if i < lll.len() {
                let ll = lll[i].clone();
                if first == Some('e') {
                    return (State::EditChars { ll, index: i }, Message::Nothing, Action::Continue);
                } else {
                    return (State::EditFlags { ll, index: i }, Message::Nothing, Action::Continue);
                }
            } else {
                return (
                    State::SelectEditIndex { chosen },
                    Message::NoLexemeAtIndex,
                    Action::Continue,
                );
            }
        }
    }
    match parse_index(trim_ends(input)) {
        Some(i) => (State::SelectEditIndex { chosen: Some(i) }, Message::Nothing, Action::Continue),
        None => (State::SelectEditIndex { chosen }, Message::CouldNotParseIndex, Action::Continue),
    }
}

fn step_edit_chars(ll: LexiconEntry, index: usize, input: &str) -> (next: (State, Message, Action))
    ensures
        forall|lexicon: Seq<LexiconEntry>|
            is_outcome(next, lexicon, #[trigger] after_edit_chars(ll, index, lexicon, input@)),
{
    match Lexeme::from_text(input) {
        Ok(lexeme) => {
            let ll = LexiconEntry { lexeme, flags: ll.flags };
            (State::EditFlags { ll, index }, Message::Nothing, Action::Continue)
        },
        Err(e) => (State::EditChars { ll, index }, Message::Lexeme(e), Action::Continue),
    }
}

fn step_edit_flags(
    ll: LexiconEntry,
    index: usize,
    message: Message,
    lll: &mut Vec<LexiconEntry>,
    input: &str,
) -> (next: (State, Message, Action))
    ensures
        is_outcome(next, final(lll)@, after_edit_flags(ll, index, message, old(lll)@, input@)),
{
    let mut ll = ll;
    match parse_flags_commands(input) {
        Err(e) => (State::EditFlags { ll, index }, Message::Flags(e), Action::Continue),
        Ok(commands) => {
            match handle_commands(&mut ll, commands.as_slice()) {
                StateSwitch::Stay => (State::EditFlags { ll, index }, message, Action::Continue),
                StateSwitch::EditLexeme => (
                    State::EditChars { ll, index },
                    message,
                    Action::Continue,
                ),
                StateSwitch::Finished => {
                    if index < lll.len() {
                        lll[index] = ll;
                    } else {
                        lll.push(ll);
                    }
                    (State::Menu, message, Action::Save)
                },
            }
        },
    }
}

/// Takes one line of input: gives the next state, the message to show with
/// it and what the caller has to do, and changes the lexicon where an entry
/// is complete.
pub fn step(state: State, message: Message, lll: &mut Vec<LexiconEntry>, input: &str) -> (next: (
    State,
    Message,
    Action,
))
    ensures
        is_outcome(next, final(lll)@, after_line(state, message, old(lll)@, input@)),
{
    match state {
        State::Menu => step_menu(message, input),
        State::AddChars { draft } => step_add_chars(draft, input),
        State::AddFlags { ll } => step_add_flags(ll, message, lll, input),
        State::SelectEditIndex { chosen } => step_select(chosen, lll, input),
        State::EditChars { ll, index } => step_edit_chars(ll, index, input),
        State::EditFlags { ll, index } => step_edit_flags(ll, index, message, lll, input),
    }
}

} // verus!
