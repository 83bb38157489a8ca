//! What holds of every line of shorthand.

use vstd::prelude::*;
use crate::command::{
    all_valid, flushed, parse_from, parsed, start, step, terminator_command, FlagsCommand,
    Progress, Step,
};

verus! {

/// No command but the last ends the edits.
pub open spec fn terminal_only_last(commands: Seq<FlagsCommand>) -> bool {
    forall|i: int| 0 <= i < commands.len() - 1 ==> !(#[trigger] commands[i]).terminal()
}

/// No command ends the edits.
pub open spec fn none_terminal(commands: Seq<FlagsCommand>) -> bool {
    forall|i: int| 0 <= i < commands.len() ==> !(#[trigger] commands[i]).terminal()
}

/// Completing a numeral adds a valid command that does not end the edits.
pub proof fn lemma_flushed_keeps(p: Progress)
    requires
        flushed(p) is Ok,
    ensures
        all_valid(p.output) ==> all_valid(flushed(p)->Ok_0),
        none_terminal(p.output) ==> none_terminal(flushed(p)->Ok_0),
        p.output.len() <= flushed(p)->Ok_0.len() <= p.output.len() + 1,
        p.digits.len() == 0 ==> flushed(p)->Ok_0 == p.output,
{
}

/// Reading on from any point keeps the commands valid, and ends the edits
/// with the last command or not at all.
pub proof fn lemma_parse_from_shape(p: Progress, input: Seq<char>)
    requires
        all_valid(p.output),
        none_terminal(p.output),
        parse_from(p, input) is Ok,
    ensures
        all_valid(parse_from(p, input)->Ok_0),
        terminal_only_last(parse_from(p, input)->Ok_0),
    decreases input.len(),
{
    if input.len() > 0 {
        match step(p, input[0]) {
            Step::Continue(next) => {
                if flushed(p) is Ok {
                    lemma_flushed_keeps(p);
                }
                lemma_parse_from_shape(next, input.drop_first());
            },
            Step::Done(output) => {
                lemma_flushed_keeps(p);
            },
            Step::Fail(e) => {},
        }
    }
}

/// Every command that a line stands for is valid: its index names a bit of
/// the flag word, or its category an adjective-order category. Only the
/// last command can be one that ends the edits.
pub proof fn lemma_parsed_shape(input: Seq<char>)
    requires
        parsed(input) is Ok,
    ensures
        all_valid(parsed(input)->Ok_0),
        terminal_only_last(parsed(input)->Ok_0),
{
    lemma_parse_from_shape(start(), input);
}

/// Reading stops at `e` and at `f`: what follows them changes nothing.
pub proof fn lemma_parse_from_stops(p: Progress, before: Seq<char>, c: char, after: Seq<char>)
    requires
        terminator_command(c) is Some,
    ensures
        parse_from(p, before.push(c) + after) == parse_from(p, before.push(c)),
    decreases before.len(),
{
    let long = before.push(c) + after;
    let short = before.push(c);
    if before.len() > 0 {
        assert(long.drop_first() =~= before.drop_first().push(c) + after);
        assert(short.drop_first() =~= before.drop_first().push(c));
        match step(p, before[0]) {
            Step::Continue(next) => {
                lemma_parse_from_stops(next, before.drop_first(), c, after);
            },
            _ => {},
        }
    }
}

/// A line is read up to its first `e` or `f`: the characters after it are
/// ignored, whatever they are.
pub proof fn lemma_parsed_stops_at_terminator(before: Seq<char>, c: char, after: Seq<char>)
    requires
        c == 'e' || c == 'f',
    ensures
        parsed(before.push(c) + after) == parsed(before.push(c)),
{
    lemma_parse_from_stops(start(), before, c, after);
}

/// Reading stops at the first character that is rejected: what follows it
/// changes nothing.
pub proof fn lemma_parse_from_error_is_final(p: Progress, before: Seq<char>, after: Seq<char>)
    requires
        parse_from(p, before) is Err,
    ensures
        parse_from(p, before + after) == parse_from(p, before),
    decreases before.len(),
{
    if before.len() > 0 {
        let long = before + after;
        assert(long.drop_first() =~= before.drop_first() + after);
        match step(p, before[0]) {
            Step::Continue(next) => {
                lemma_parse_from_error_is_final(next, before.drop_first(), after);
            },
            _ => {},
        }
    }
}

/// A line that is rejected stays rejected, for the same reason, whatever is
/// appended to it.
pub proof fn lemma_parsed_error_is_final(before: Seq<char>, after: Seq<char>)
    requires
        parsed(before) is Err,
    ensures
        parsed(before + after) == parsed(before),
{
    lemma_parse_from_error_is_final(start(), before, after);
}

} // verus!
