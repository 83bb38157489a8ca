//! The parser of the shorthand: one pass over the characters of a line.

use vstd::prelude::*;
use crate::command::{
    all_valid, command_of, flushed, numeral_limit, numeral_value, parse_from, parsed,
    prefix_state, step, stray_char_error, FlagsCommand, ParseError, ParseState, Progress, Step,
    MAX_INDEX_DIGITS,
};
use crate::flags::{ADJECTIVE_ORDER_CATEGORIES, FLAG_BITS};

verus! {

/// The largest value of a numeral of so many digits.
pub open spec fn largest_numeral(digits: nat) -> nat
    decreases digits,
{
    if digits == 0 {
        0
    } else {
        largest_numeral((digits - 1) as nat) * 10 + 9
    }
}

/// The digits of the numeral being read: at most `MAX_INDEX_DIGITS` of them,
/// each a value from 0 to 9.
pub struct DigitBuffer {
    digits: [u8; 3],
    len: usize,
}

impl View for DigitBuffer {
    type V = Seq<u8>;

    closed spec fn view(&self) -> Seq<u8> {
        self.digits@.take(self.len as int)
    }
}

impl DigitBuffer {
    /// The invariant of the type: the buffer holds no more digits than it
    /// has room for, and each is a decimal digit.
    #[verifier::type_invariant]
    pub closed spec fn wf(&self) -> bool {
        &&& self.len <= MAX_INDEX_DIGITS
        &&& forall|i: int| 0 <= i < self.len ==> self.digits@[i] <= 9
    }

    /// What `wf` says, over the view.
    pub proof fn lemma_wf(&self)
        requires
            self.wf(),
        ensures
            self@.len() <= MAX_INDEX_DIGITS,
            forall|i: int| 0 <= i < self@.len() ==> self@[i] <= 9,
    {
    }

    /// The empty buffer.
    pub fn new() -> (buffer: DigitBuffer)
        ensures
            buffer.wf(),
            buffer@ == Seq::<u8>::empty(),
    {
        DigitBuffer { digits: [0u8; 3], len: 0 }
    }

    /// The number of digits held.
    pub fn len(&self) -> (n: usize)
        ensures
            n == self@.len(),
            n <= MAX_INDEX_DIGITS,
    {
        proof {
            use_type_invariant(self);
        }
        self.len
    }

    /// Appends a digit, unless the buffer is full: then it is left as it was
    /// and the result is `false`.
    pub fn push(&mut self, digit: u8) -> (pushed: bool)
        requires
            digit <= 9,
        ensures
            final(self).wf(),
            pushed == (old(self)@.len() < MAX_INDEX_DIGITS),
            pushed ==> final(self)@ == old(self)@.push(digit),
            !pushed ==> final(self)@ == old(self)@,
    {
        proof {
            use_type_invariant(&*self);
        }
        if self.len >= MAX_INDEX_DIGITS {
            false
        } else {
            self.digits[self.len] = digit;
            self.len = self.len + 1;
            true
        }
    }

    /// The value of the numeral held.
    pub fn value(&self) -> (value: u16)
        ensures
            value == numeral_value(self@),
            value <= 999,
    {
        proof {
            use_type_invariant(self);
        }
        let mut value: u16 = 0;
        let mut i: usize = 0;
        while i < self.len
            invariant
                self.wf(),
                i <= self.len,
                value == numeral_value(self@.take(i as int)),
                value <= largest_numeral(i as nat),
            decreases self.len - i,
        {
            proof {
                reveal_with_fuel(largest_numeral, 4);
                assert(self@.take(i + 1).drop_last() =~= self@.take(i as int));
            }
            value = value * 10 + self.digits[i] as u16;
            i = i + 1;
        }
        proof {
            reveal_with_fuel(largest_numeral, 4);
            assert(self@.take(self.len as int) =~= self@);
        }
        value
    }

    /// Empties the buffer.
    pub fn clear(&mut self)
        ensures
            final(self).wf(),
            final(self)@ == Seq::<u8>::empty(),
    {
        self.len = 0;
    }
}

/// The limit of `numeral_limit`.
pub fn limit_of(state: ParseState) -> (limit: u8)
    ensures
        limit == numeral_limit(state),
{
    match state {
        ParseState::SetAdjectiveOrderCategory => ADJECTIVE_ORDER_CATEGORIES,
        _ => FLAG_BITS,
    }
}

/// The command of `command_of`.
pub fn make_command(state: ParseState, value: u8) -> (command: FlagsCommand)
    ensures
        command == command_of(state, value),
{
    match state {
        ParseState::SetIndex => FlagsCommand::SetBit(value),
        ParseState::ToggleIndex => FlagsCommand::ToggleBit(value),
        ParseState::UnsetIndex => FlagsCommand::UnsetBit(value),
        ParseState::SetAdjectiveOrderCategory => FlagsCommand::SetAdjectiveOrder(value),
    }
}

/// Completes the numeral in the buffer, if there is one: its command is
/// appended to `output` and the buffer emptied. A numeral that names no bit
/// or no category is an error, and `output` is then left as it was.
pub fn push_buffered(
    state: ParseState,
    buffer: &mut DigitBuffer,
    output: &mut Vec<FlagsCommand>,
) -> (r: Result<(), ParseError>)
    ensures
        final(buffer).wf(),
        match flushed(Progress { state, digits: old(buffer)@, output: old(output)@ }) {
            Ok(commands) => r is Ok && final(output)@ == commands && final(buffer)@
                == Seq::<u8>::empty(),
            Err(e) => r == Err::<(), ParseError>(e) && final(output)@ == old(output)@
                && final(buffer)@ == old(buffer)@,
        },
        all_valid(old(output)@) ==> all_valid(final(output)@),
{
    proof {
        use_type_invariant(&*buffer);
    }
    if buffer.len() == 0 {
        return Ok(());
    }
    let value: u16 = buffer.value();
    if value >= limit_of(state) as u16 {
        return Err(ParseError::DigitBufferNotDecimal);
    }
    let command = make_command(state, value as u8);
    output.push(command);
    buffer.clear();
    Ok(())
}

/// The state that a prefix letter selects, as `prefix_state` has it.
pub fn state_of_prefix(c: char) -> (state: Option<ParseState>)
    ensures
        state == prefix_state(c),
{
    if c == 's' {
        Some(ParseState::SetIndex)
    } else if c == 't' {
        Some(ParseState::ToggleIndex)
    } else if c == 'u' {
        Some(ParseState::UnsetIndex)
    } else if c == 'a' {
        Some(ParseState::SetAdjectiveOrderCategory)
    } else {
        None
    }
}

/// The error for a character that the shorthand gives no meaning, as
/// `stray_char_error` has it.
pub fn error_of_stray_char(c: char) -> (error: ParseError)
    ensures
        error == stray_char_error(c),
{
    if ' ' > c {
        ParseError::UnexpectedControlChar
    } else if c > '\u{7f}' {
        ParseError::UnexpectedHighChar
    } else {
        ParseError::UnrecognizedPrintableChar
    }
}

/// Parses a line of shorthand into the commands it stands for.
///
/// The line is read up to its first `e` or `f`, or to its end. A numeral is
/// completed by the character after it, so digits at the very end of the
/// line give no command. Every command of the result is valid.
pub fn parse_flags_commands(input: &str) -> (r: Result<Vec<FlagsCommand>, ParseError>)
    ensures
        match parsed(input@) {
            Ok(commands) => r is Ok && r->Ok_0@ == commands,
            Err(e) => r == Err::<Vec<FlagsCommand>, ParseError>(e),
        },
        r is Ok ==> all_valid(r->Ok_0@),
{
    let mut state = ParseState::SetIndex;
    // The shortest command takes two characters, as in `s0`.
    let mut output: Vec<FlagsCommand> = Vec::with_capacity(input.len() / 2);
    let mut buffer = DigitBuffer::new();
    assert(input@.skip(0) =~= input@);

    for c in it: input.chars()
        invariant
            it.seq() == input@,
            all_valid(output@),
            parsed(input@) == parse_from(
                Progress { state, digits: buffer@, output: output@ },
                input@.skip(it.index() as int),
            ),
    {
        proof {
            use_type_invariant(&buffer);
            buffer.lemma_wf();
            assert(input@.skip(it.index() as int).drop_first() =~= input@.skip(it.index() + 1));
        }
        if c >= '0' && c <= '9' {
            if !buffer.push((c as u8) - 0x30) {
                return Err(ParseError::DigitBufferNotDecimal);
            }
        } else if c == ',' || c == ' ' || c == '\n' {
            if let Err(e) = push_buffered(state, &mut buffer, &mut output) {
                return Err(e);
            }
        } else if let Some(selected) = state_of_prefix(c) {
            if let Err(e) = push_buffered(state, &mut buffer, &mut output) {
                return Err(e);
            }
            state = selected;
        } else if c == 'e' {
            if let Err(e) = push_buffered(state, &mut buffer, &mut output) {
                return Err(e);
            }
            output.push(FlagsCommand::SwitchToLexemeEdit);
            return Ok(output);
        } else if c == 'f' {
            if let Err(e) = push_buffered(state, &mut buffer, &mut output) {
                return Err(e);
            }
            output.push(FlagsCommand::CommitFlags);
            return Ok(output);
        } else {
            return Err(error_of_stray_char(c));
        }
    }
    Ok(output)
}

} // verus!
