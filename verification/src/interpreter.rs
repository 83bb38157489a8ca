//! Applying the commands of a line to the flags of an entry.

use vstd::prelude::*;
use crate::codec::LexiconEntry;
use crate::command::{all_valid, FlagsCommand};
use crate::flags::Flags;

verus! {

/// What is to be done once the commands of a line are applied.
#[derive(Clone, Copy, Debug, PartialEq, Eq, Structural)]
pub enum StateSwitch {
    /// Go on editing the flags.
    Stay,
    /// Edit the lexeme.
    EditLexeme,
    /// The entry is complete.
    Finished,
}

/// The flag word after one edit. The two commands that end the edits change
/// nothing.
pub open spec fn edited(flags: Flags, command: FlagsCommand) -> Flags {
    match command {
        FlagsCommand::SetBit(index) => flags.with_bit_set(index),
        FlagsCommand::ToggleBit(index) => flags.with_bit_toggled(index),
        FlagsCommand::UnsetBit(index) => flags.with_bit_unset(index),
        FlagsCommand::SetAdjectiveOrder(category) => flags.with_adjective_order(category),
        FlagsCommand::SwitchToLexemeEdit => flags,
        FlagsCommand::CommitFlags => flags,
    }
}

/// What a command that ends the edits asks for.
pub open spec fn switch_of(command: FlagsCommand) -> StateSwitch {
    match command {
        FlagsCommand::SwitchToLexemeEdit => StateSwitch::EditLexeme,
        FlagsCommand::CommitFlags => StateSwitch::Finished,
        _ => StateSwitch::Stay,
    }
}

/// The flag word after the commands, and what to do then. The commands are
/// applied in their order up to the first that ends the edits; the commands
/// after that one are not applied.
pub open spec fn interpreted(flags: Flags, commands: Seq<FlagsCommand>) -> (Flags, StateSwitch)
    decreases commands.len(),
{
    if commands.len() == 0 {
        (flags, StateSwitch::Stay)
    } else if commands[0].terminal() {
        (flags, switch_of(commands[0]))
    } else {
        interpreted(edited(flags, commands[0]), commands.drop_first())
    }
}

/// Applies one edit to a flag word.
pub fn apply_edit(flags: &mut Flags, command: FlagsCommand)
    requires
        command.valid(),
    ensures
        *final(flags) == edited(*old(flags), command),
{
    match command {
        FlagsCommand::SetBit(index) => flags.set_bit(index),
        FlagsCommand::ToggleBit(index) => flags.toggle_bit(index),
        FlagsCommand::UnsetBit(index) => flags.unset_bit(index),
        FlagsCommand::SetAdjectiveOrder(category) => flags.set_adjective_order(category),
        FlagsCommand::SwitchToLexemeEdit => {},
        FlagsCommand::CommitFlags => {},
    }
}

/// Applies the commands of a line to the flags of an entry and says what to
/// do next. The lexeme of the entry is left as it was.
pub fn handle_commands(ll: &mut LexiconEntry, commands: &[FlagsCommand]) -> (switch: StateSwitch)
    requires
        all_valid(commands@),
    ensures
        (final(ll).flags, switch) == interpreted(old(ll).flags, commands@),
        final(ll).lexeme == old(ll).lexeme,
{
    let mut i: usize = 0;
    assert(commands@.skip(0) =~= commands@);
    while i < commands.len()
        invariant
            i <= commands.len(),
            all_valid(commands@),
            ll.lexeme == old(ll).lexeme,
            interpreted(old(ll).flags, commands@) == interpreted(
                ll.flags,
                commands@.skip(i as int),
            ),
        decreases commands.len() - i,
    {
        let command = commands[i];
        assert(commands@.skip(i as int).drop_first() =~= commands@.skip(i + 1));
        match command {
            FlagsCommand::SwitchToLexemeEdit => {
                return StateSwitch::EditLexeme;
            },
            FlagsCommand::CommitFlags => {
                return StateSwitch::Finished;
            },
            _ => {
                apply_edit(&mut ll.flags, command);
            },
        }
        i = i + 1;
    }
    StateSwitch::Stay
}

} // verus!
