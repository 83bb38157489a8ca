//! What holds of the dialogue in every state.

use vstd::prelude::*;
use crate::codec::{all_storable, decoded, encoded, models, DecodeError, EntryModel, LexiconEntry};
use crate::codec_laws::lemma_round_trip;
use crate::command::parsed;
use crate::command_laws::lemma_parsed_shape;
use crate::interpreter_laws::lemma_interpreted_storable;
use crate::lexeme::{checked_text, Lexeme};
use crate::shell::{after_line, first_char, Action, Message, State};
use crate::trimming::trimmed;

verus! {

/// The entry can be written and read back: its lexeme is one, and its flags
/// fit in the stored bits.
pub open spec fn sound_entry(entry: LexiconEntry) -> bool {
    entry.lexeme.wf() && entry.flags.storable()
}

/// Every entry of the lexicon can be written and read back.
pub open spec fn sound_lexicon(lexicon: Seq<LexiconEntry>) -> bool {
    forall|i: int| 0 <= i < lexicon.len() ==> sound_entry(#[trigger] lexicon[i])
}

/// The entry that is being typed, if there is one, can be written and read
/// back once it is complete.
pub open spec fn sound_state(state: State) -> bool {
    match state {
        State::Menu => true,
        State::AddChars { draft } => draft.flags.storable() && (draft.lexeme is Some
            ==> draft.lexeme->0.wf()),
        State::AddFlags { ll } => sound_entry(ll),
        State::SelectEditIndex { chosen } => true,
        State::EditChars { ll, index } => sound_entry(ll),
        State::EditFlags { ll, index } => sound_entry(ll),
    }
}

/// A lexicon of which every entry can be written and read back is read back
/// whole from its bytes.
pub proof fn lemma_sound_lexicon_round_trip(lexicon: Seq<LexiconEntry>)
    requires
        sound_lexicon(lexicon),
    ensures
        all_storable(models(lexicon)),
        decoded(encoded(models(lexicon))) == Ok::<Seq<EntryModel>, DecodeError>(models(lexicon)),
{
    assert forall|i: int| 0 <= i < models(lexicon).len() implies (#[trigger] models(
        lexicon,
    )[i]).storable() by {
        lexicon[i].lexeme.lemma_wf();
    }
    lemma_round_trip(models(lexicon));
}

/// Whatever is typed, the lexicon stays one that is read back whole from its
/// bytes, and so does the entry that is being typed.
pub proof fn lemma_line_keeps_sound(
    state: State,
    message: Message,
    lexicon: Seq<LexiconEntry>,
    input: Seq<char>,
)
    requires
        sound_state(state),
        sound_lexicon(lexicon),
    ensures
        sound_state(after_line(state, message, lexicon, input).state),
        sound_lexicon(after_line(state, message, lexicon, input).lexicon),
{
    let typed = checked_text(trimmed(input));
    if typed is Ok {
        Lexeme::lemma_lexeme_exists(typed->Ok_0);
    }
    if parsed(input) is Ok {
        lemma_parsed_shape(input);
    }
    match state {
        State::AddFlags { ll } => {
            if parsed(input) is Ok {
                lemma_interpreted_storable(ll.flags, parsed(input)->Ok_0);
            }
        },
        State::EditFlags { ll, index } => {
            if parsed(input) is Ok {
                lemma_interpreted_storable(ll.flags, parsed(input)->Ok_0);
            }
        },
        _ => {},
    }
}

/// The position at which a complete entry is put: its own, where the
/// lexicon has an entry there, and else the end.
pub open spec fn place_of(state: State, lexicon: Seq<LexiconEntry>) -> int {
    match state {
        State::EditFlags { ll, index } => if index < lexicon.len() {
            index as int
        } else {
            lexicon.len() as int
        },
        _ => lexicon.len() as int,
    }
}

/// The lexicon changes only where it has to be saved, and then in one
/// place: an entry is put at its end, or takes the place of another. No
/// entry moves.
pub proof fn lemma_line_changes_one_entry(
    state: State,
    message: Message,
    lexicon: Seq<LexiconEntry>,
    input: Seq<char>,
)
    ensures
        ({
            let after = after_line(state, message, lexicon, input);
            &&& after.action != Action::Save ==> after.lexicon == lexicon
            &&& after.action == Action::Save ==> {
                &&& after.state is Menu
                &&& state is AddFlags || state is EditFlags
                &&& lexicon.len() <= after.lexicon.len() <= lexicon.len() + 1
                &&& 0 <= place_of(state, lexicon) < after.lexicon.len()
                &&& forall|i: int|
                    0 <= i < lexicon.len() && i != place_of(state, lexicon)
                        ==> #[trigger] after.lexicon[i] == lexicon[i]
            }
        }),
{
}

/// The dialogue ends only in the menu, on a line that begins with `q`.
pub proof fn lemma_quit_only_from_menu(
    state: State,
    message: Message,
    lexicon: Seq<LexiconEntry>,
    input: Seq<char>,
)
    ensures
        after_line(state, message, lexicon, input).action == Action::Quit <==> state is Menu
            && first_char(input) == Some('q'),
{
}

} // verus!
