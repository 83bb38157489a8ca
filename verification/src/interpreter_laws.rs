//! What holds of every sequence of commands.

use vstd::prelude::*;
use crate::command::{all_valid, FlagsCommand};
use crate::command_laws::{none_terminal, terminal_only_last};
use crate::flags::Flags;
use crate::flags_laws::lemma_edits_keep_storable;
use crate::interpreter::{edited, interpreted, switch_of, StateSwitch};

verus! {

/// The flag word after every one of the commands, in their order.
pub open spec fn edited_by_all(flags: Flags, commands: Seq<FlagsCommand>) -> Flags
    decreases commands.len(),
{
    if commands.len() == 0 {
        flags
    } else {
        edited_by_all(edited(flags, commands[0]), commands.drop_first())
    }
}

/// No command after the first that ends the edits is applied: whatever
/// follows `CommitFlags` or `SwitchToLexemeEdit` changes neither the flags
/// nor what is done next.
pub proof fn lemma_interpreted_stops(
    flags: Flags,
    before: Seq<FlagsCommand>,
    last: FlagsCommand,
    after: Seq<FlagsCommand>,
)
    requires
        last.terminal(),
    ensures
        interpreted(flags, before.push(last) + after) == interpreted(flags, before.push(last)),
    decreases before.len(),
{
    let long = before.push(last) + after;
    let short = before.push(last);
    if before.len() > 0 {
        assert(long.drop_first() =~= before.drop_first().push(last) + after);
        assert(short.drop_first() =~= before.drop_first().push(last));
        if !before[0].terminal() {
            lemma_interpreted_stops(edited(flags, before[0]), before.drop_first(), last, after);
        }
    }
}

/// Where only the last command can end the edits, as in the commands of a
/// parsed line, no command is left out: the flags are those after all the
/// commands, and what is done next is what the last command asks for.
pub proof fn lemma_interpreted_applies_all(flags: Flags, commands: Seq<FlagsCommand>)
    requires
        terminal_only_last(commands),
    ensures
        interpreted(flags, commands).0 == edited_by_all(flags, commands),
        interpreted(flags, commands).1 == if commands.len() == 0 {
            StateSwitch::Stay
        } else {
            switch_of(commands.last())
        },
    decreases commands.len(),
{
    if commands.len() > 1 {
        let rest = commands.drop_first();
        assert forall|i: int| 0 <= i < rest.len() - 1 implies !(#[trigger] rest[i]).terminal() by {
            assert(rest[i] == commands[i + 1]);
        }
        assert(!commands[0].terminal());
        lemma_interpreted_applies_all(edited(flags, commands[0]), rest);
    } else if commands.len() == 1 {
        reveal_with_fuel(edited_by_all, 2);
        reveal_with_fuel(interpreted, 2);
    }
}

/// The editing of the flags goes on exactly when no command ends it.
pub proof fn lemma_interpreted_stay(flags: Flags, commands: Seq<FlagsCommand>)
    ensures
        interpreted(flags, commands).1 is Stay <==> none_terminal(commands),
    decreases commands.len(),
{
    if commands.len() > 0 && !commands[0].terminal() {
        let rest = commands.drop_first();
        lemma_interpreted_stay(edited(flags, commands[0]), rest);
        if none_terminal(rest) {
            assert forall|i: int| 0 <= i < commands.len() implies !(
            #[trigger] commands[i]).terminal() by {
                if i > 0 {
                    assert(commands[i] == rest[i - 1]);
                }
            }
        }
    }
}

/// Valid commands keep a flag word within the three bytes that are stored.
pub proof fn lemma_interpreted_storable(flags: Flags, commands: Seq<FlagsCommand>)
    requires
        flags.storable(),
        all_valid(commands),
    ensures
        interpreted(flags, commands).0.storable(),
    decreases commands.len(),
{
    if commands.len() > 0 && !commands[0].terminal() {
        let command = commands[0];
        match command {
            FlagsCommand::SetBit(index) => lemma_edits_keep_storable(flags, index, 0),
            FlagsCommand::ToggleBit(index) => lemma_edits_keep_storable(flags, index, 0),
            FlagsCommand::UnsetBit(index) => lemma_edits_keep_storable(flags, index, 0),
            FlagsCommand::SetAdjectiveOrder(category) => lemma_edits_keep_storable(
                flags,
                0,
                category,
            ),
            _ => {},
        }
        lemma_interpreted_storable(edited(flags, command), commands.drop_first());
    }
}

} // verus!
