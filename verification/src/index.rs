//! Reading the position of an entry from a typed numeral.

use vstd::prelude::*;
use crate::command::{digit_value, is_digit};

verus! {

/// Every character is a decimal digit.
pub open spec fn all_digits(text: Seq<char>) -> bool {
    forall|i: int| 0 <= i < text.len() ==> is_digit(#[trigger] text[i])
}

/// The value of a numeral given by its decimal digits, first digit first.
pub open spec fn decimal_value(digits: Seq<char>) -> nat
    decreases digits.len(),
{
    if digits.len() == 0 {
        0
    } else {
        decimal_value(digits.drop_last()) * 10 + digit_value(digits.last()) as nat
    }
}

/// The digits of a numeral: the text without the plus sign that may stand
/// before them.
pub open spec fn unsigned_part(text: Seq<char>) -> Seq<char> {
    if text.len() > 0 && text[0] == '+' {
        text.drop_first()
    } else {
        text
    }
}

/// The position that a text names: the text is one or more decimal digits,
/// with or without a plus sign before them and with nothing else around
/// them, and their value is a `usize`.
pub open spec fn index_of_text(text: Seq<char>) -> Option<usize> {
    let digits = unsigned_part(text);
    if digits.len() > 0 && all_digits(digits) && decimal_value(digits) <= usize::MAX {
        Some(decimal_value(digits) as usize)
    } else {
        None
    }
}

/// More digits make a numeral no smaller.
pub proof fn lemma_decimal_value_grows(digits: Seq<char>, shorter: int)
    requires
        0 <= shorter <= digits.len(),
    ensures
        decimal_value(digits.take(shorter)) <= decimal_value(digits),
    decreases digits.len() - shorter,
{
    if shorter < digits.len() {
        lemma_decimal_value_grows(digits, shorter + 1);
        assert(digits.take(shorter + 1).drop_last() =~= digits.take(shorter));
    } else {
        assert(digits.take(shorter) =~= digits);
    }
}

/// Reads the position that a text names, if it names one.
pub fn parse_index(text: &str) -> (index: Option<usize>)
    ensures
        index == index_of_text(text@),
{
    let mut value: usize = 0;
    let mut any_digit: bool = false;
    let mut signed: bool = false;
    let ghost mut from: int = 0;
    for c in it: text.chars()
        invariant
            it.seq() == text@,
            signed <==> it.index() > 0 && text@[0] == '+',
            from == if signed { 1int } else { 0int },
            any_digit <==> it.index() > from,
            unsigned_part(text@.take(it.index() as int)) == text@.subrange(from, it.index() as int),
            all_digits(text@.subrange(from, it.index() as int)),
            value == decimal_value(text@.subrange(from, it.index() as int)),
    {
        let ghost at = it.index() as int;
        let ghost whole = unsigned_part(text@);
        if c == '+' && !signed && !any_digit {
            signed = true;
            proof {
                from = 1;
            }
        } else {
            let ghost more = text@.subrange(from, at + 1);
            assert(more.drop_last() =~= text@.subrange(from, at));
            assert(whole.len() > at - from && whole[at - from] == c);
            if !(c >= '0' && c <= '9') {
                return None;
            }
            let digit: usize = ((c as u8) - 0x30) as usize;
            let next = match value.checked_mul(10) {
                None => None,
                Some(tens) => tens.checked_add(digit),
            };
            match next {
                None => {
                    proof {
                        assert(whole.take(at - from + 1) =~= more);
                        lemma_decimal_value_grows(whole, at - from + 1);
                    }
                    return None;
                },
                Some(sum) => {
                    value = sum;
                },
            }
            any_digit = true;
        }
    }
    assert(text@.take(text@.len() as int) =~= text@);
    if any_digit {
        Some(value)
    } else {
        None
    }
}

} // verus!
