//! The shorthand in which edits of a flag word are typed, and what a line of
//! it means.
//!
//! A line such as `s0,1,2a4f` is read one character at a time. A prefix
//! letter chooses what the numerals after it mean: `s` sets bits, `t`
//! toggles them, `u` unsets them, and `a` sets the adjective-order category.
//! A numeral is completed by a separator, by the next prefix or by a
//! terminator, and `e` or `f` ends the line: whatever follows them is not
//! read.

use vstd::prelude::*;
use crate::flags::{ADJECTIVE_ORDER_CATEGORIES, FLAG_BITS};

verus! {

/// One edit of a flag word, or one of the two ways of ending the edits.
#[derive(Clone, Copy, Debug, PartialEq, Eq, Structural)]
pub enum FlagsCommand {
    /// Set the bit with this index.
    SetBit(u8),
    /// Invert the bit with this index.
    ToggleBit(u8),
    /// Clear the bit with this index.
    UnsetBit(u8),
    /// Replace the adjective-order category by this one.
    SetAdjectiveOrder(u8),
    /// Leave the flags and edit the lexeme.
    SwitchToLexemeEdit,
    /// The flags are complete.
    CommitFlags,
}

impl FlagsCommand {
    /// A command is valid when its bit index lies within the flag word, or
    /// its category within the adjective-order categories.
    pub open spec fn valid(self) -> bool {
        match self {
            FlagsCommand::SetBit(index) => index < FLAG_BITS,
            FlagsCommand::ToggleBit(index) => index < FLAG_BITS,
            FlagsCommand::UnsetBit(index) => index < FLAG_BITS,
            FlagsCommand::SetAdjectiveOrder(category) => category < ADJECTIVE_ORDER_CATEGORIES,
            FlagsCommand::SwitchToLexemeEdit => true,
            FlagsCommand::CommitFlags => true,
        }
    }

    /// Whether the command ends a sequence of edits.
    pub open spec fn terminal(self) -> bool {
        self is SwitchToLexemeEdit || self is CommitFlags
    }

    /// Tests `valid`.
    pub fn is_valid(&self) -> (ok: bool)
        ensures
            ok == self.valid(),
    {
        match self {
            FlagsCommand::SetBit(index) => *index < FLAG_BITS,
            FlagsCommand::ToggleBit(index) => *index < FLAG_BITS,
            FlagsCommand::UnsetBit(index) => *index < FLAG_BITS,
            FlagsCommand::SetAdjectiveOrder(category) => *category < ADJECTIVE_ORDER_CATEGORIES,
            FlagsCommand::SwitchToLexemeEdit => true,
            FlagsCommand::CommitFlags => true,
        }
    }
}

/// Every command of the sequence is valid.
pub open spec fn all_valid(commands: Seq<FlagsCommand>) -> bool {
    forall|i: int| 0 <= i < commands.len() ==> (#[trigger] commands[i]).valid()
}

/// Why a line of shorthand was rejected.
#[derive(Clone, Copy, Debug, PartialEq, Eq, Structural)]
pub enum ParseError {
    /// A character below the space character.
    UnexpectedControlChar,
    /// A character above U+007F.
    UnexpectedHighChar,
    /// A character from the space character to U+007F that the shorthand
    /// gives no meaning.
    UnrecognizedPrintableChar,
    /// A numeral that has more digits than an index can have, or that names
    /// no bit of the flag word or no adjective-order category.
    DigitBufferNotDecimal,
}

impl ParseError {
    /// The message for the error.
    pub open spec fn message_text(self) -> Seq<char> {
        match self {
            ParseError::UnexpectedControlChar => "got unexpected char less than ' '"@,
            ParseError::UnexpectedHighChar => "got unexpected char more than \\u{{7f}}"@,
            ParseError::UnrecognizedPrintableChar =>
                "got unexpected char between ' ' and \\u{{7f}} inclusive"@,
            ParseError::DigitBufferNotDecimal => "non-decimal-digit numeral byte in digit_buffer"@,
        }
    }

    /// The message to show for the error.
    pub fn message(&self) -> (text: &'static str)
        ensures
            text@ == self.message_text(),
    {
        match self {
            ParseError::UnexpectedControlChar => "got unexpected char less than ' '",
            ParseError::UnexpectedHighChar => "got unexpected char more than \\u{{7f}}",
            ParseError::UnrecognizedPrintableChar =>
                "got unexpected char between ' ' and \\u{{7f}} inclusive",
            ParseError::DigitBufferNotDecimal => "non-decimal-digit numeral byte in digit_buffer",
        }
    }
}

/// What the numerals being read stand for.
#[derive(Clone, Copy, Debug, PartialEq, Eq, Structural)]
pub enum ParseState {
    /// The index of a bit to set. This is the state in which a line begins.
    SetIndex,
    /// The index of a bit to invert.
    ToggleIndex,
    /// The index of a bit to clear.
    UnsetIndex,
    /// An adjective-order category.
    SetAdjectiveOrderCategory,
}

/// The most digits that a numeral may have: the decimal digits of the
/// largest 8-bit value.
pub const MAX_INDEX_DIGITS: usize = 3;

/// The value of a numeral given by its decimal digits, first digit first.
pub open spec fn numeral_value(digits: Seq<u8>) -> nat
    decreases digits.len(),
{
    if digits.len() == 0 {
        0
    } else {
        numeral_value(digits.drop_last()) * 10 + digits.last() as nat
    }
}

/// The values that a numeral may take in a state: those below the limit.
pub open spec fn numeral_limit(state: ParseState) -> nat {
    match state {
        ParseState::SetAdjectiveOrderCategory => ADJECTIVE_ORDER_CATEGORIES as nat,
        _ => FLAG_BITS as nat,
    }
}

/// The command that a numeral of the given value completes in a state.
pub open spec fn command_of(state: ParseState, value: u8) -> FlagsCommand {
    match state {
        ParseState::SetIndex => FlagsCommand::SetBit(value),
        ParseState::ToggleIndex => FlagsCommand::ToggleBit(value),
        ParseState::UnsetIndex => FlagsCommand::UnsetBit(value),
        ParseState::SetAdjectiveOrderCategory => FlagsCommand::SetAdjectiveOrder(value),
    }
}

/// The parser between two characters: the state, the digits of the numeral
/// being read, and the commands completed so far.
pub struct Progress {
    pub state: ParseState,
    pub digits: Seq<u8>,
    pub output: Seq<FlagsCommand>,
}

/// The parser before the first character: numerals without a prefix set
/// bits.
pub open spec fn start() -> Progress {
    Progress { state: ParseState::SetIndex, digits: Seq::empty(), output: Seq::empty() }
}

/// Completes the numeral being read, if there is one: the commands so far,
/// with the numeral's command added.
pub open spec fn flushed(p: Progress) -> Result<Seq<FlagsCommand>, ParseError> {
    if p.digits.len() == 0 {
        Ok(p.output)
    } else if numeral_value(p.digits) >= numeral_limit(p.state) {
        Err(ParseError::DigitBufferNotDecimal)
    } else {
        Ok(p.output.push(command_of(p.state, numeral_value(p.digits) as u8)))
    }
}

/// What one character does to the parser.
pub enum Step {
    /// Reading goes on.
    Continue(Progress),
    /// The line is complete; the rest of it is not read.
    Done(Seq<FlagsCommand>),
    /// The line is rejected.
    Fail(ParseError),
}

/// The state that a prefix letter selects.
pub open spec fn prefix_state(c: char) -> Option<ParseState> {
    if c == 's' {
        Some(ParseState::SetIndex)
    } else if c == 't' {
        Some(ParseState::ToggleIndex)
    } else if c == 'u' {
        Some(ParseState::UnsetIndex)
    } else if c == 'a' {
        Some(ParseState::SetAdjectiveOrderCategory)
    } else {
        None
    }
}

/// The command that a terminator letter appends.
pub open spec fn terminator_command(c: char) -> Option<FlagsCommand> {
    if c == 'e' {
        Some(FlagsCommand::SwitchToLexemeEdit)
    } else if c == 'f' {
        Some(FlagsCommand::CommitFlags)
    } else {
        None
    }
}

/// The characters that only separate numerals.
pub open spec fn is_separator(c: char) -> bool {
    c == ',' || c == ' ' || c == '\n'
}

/// The decimal digits.
pub open spec fn is_digit(c: char) -> bool {
    '0' <= c <= '9'
}

/// The value of a decimal digit.
pub open spec fn digit_value(c: char) -> u8 {
    (c as u8 - 0x30) as u8
}

/// The error for a character that the shorthand gives no meaning.
pub open spec fn stray_char_error(c: char) -> ParseError {
    if ' ' > c {
        ParseError::UnexpectedControlChar
    } else if c > '\u{7f}' {
        ParseError::UnexpectedHighChar
    } else {
        ParseError::UnrecognizedPrintableChar
    }
}

/// The transition of the parser on one character.
pub open spec fn step(p: Progress, c: char) -> Step {
    if is_digit(c) {
        if p.digits.len() >= MAX_INDEX_DIGITS {
            Step::Fail(ParseError::DigitBufferNotDecimal)
        } else {
            Step::Continue(Progress { digits: p.digits.push(digit_value(c)), ..p })
        }
    } else if is_separator(c) || prefix_state(c) is Some || terminator_command(c) is Some {
        match flushed(p) {
            Err(e) => Step::Fail(e),
            Ok(output) => {
                if terminator_command(c) is Some {
                    Step::Done(output.push(terminator_command(c)->0))
                } else {
                    Step::Continue(
                        Progress {
                            state: if prefix_state(c) is Some {
                                prefix_state(c)->0
                            } else {
                                p.state
                            },
                            digits: Seq::empty(),
                            output,
                        },
                    )
                }
            },
        }
    } else {
        Step::Fail(stray_char_error(c))
    }
}

/// The result of reading `input` from the given point on. Digits that no
/// later character completes give no command.
pub open spec fn parse_from(p: Progress, input: Seq<char>) -> Result<Seq<FlagsCommand>, ParseError>
    decreases input.len(),
{
    if input.len() == 0 {
        Ok(p.output)
    } else {
        match step(p, input[0]) {
            Step::Continue(next) => parse_from(next, input.drop_first()),
            Step::Done(output) => Ok(output),
            Step::Fail(e) => Err(e),
        }
    }
}

/// The commands that a line of shorthand stands for, or the reason why it
/// stands for none.
pub open spec fn parsed(input: Seq<char>) -> Result<Seq<FlagsCommand>, ParseError> {
    parse_from(start(), input)
}

} // verus!
