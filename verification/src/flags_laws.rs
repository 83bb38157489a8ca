//! What holds of every flag word.

use vstd::prelude::*;
use crate::flags::{Flags, ADJECTIVE_ORDER_CATEGORIES, FLAG_BITS};

verus! {

/// Setting a bit makes that bit read as set and leaves every other bit as it
/// was.
pub proof fn lemma_set_bit(flags: Flags, index: u8, other: u8)
    requires
        index < 32,
        other < 32,
    ensures
        flags.with_bit_set(index).bit(index),
        other != index ==> flags.with_bit_set(index).bit(other) == flags.bit(other),
{
    let b = flags.bits;
    let i = index as u32;
    let o = other as u32;
    assert(((b | (1u32 << i)) >> i) & 1 == 1) by (bit_vector)
        requires
            i < 32,
    ;
    assert(o != i ==> (((b | (1u32 << i)) >> o) & 1 == 1) == ((b >> o) & 1 == 1)) by (bit_vector)
        requires
            i < 32,
            o < 32,
    ;
}

/// Clearing a bit makes that bit read as clear and leaves every other bit as
/// it was.
pub proof fn lemma_unset_bit(flags: Flags, index: u8, other: u8)
    requires
        index < 32,
        other < 32,
    ensures
        !flags.with_bit_unset(index).bit(index),
        other != index ==> flags.with_bit_unset(index).bit(other) == flags.bit(other),
{
    let b = flags.bits;
    let i = index as u32;
    let o = other as u32;
    assert(((b & !(1u32 << i)) >> i) & 1 == 0) by (bit_vector)
        requires
            i < 32,
    ;
    assert(o != i ==> (((b & !(1u32 << i)) >> o) & 1 == 1) == ((b >> o) & 1 == 1)) by (bit_vector)
        requires
            i < 32,
            o < 32,
    ;
}

/// Toggling a bit inverts that bit and leaves every other bit as it was;
/// toggling the same bit twice restores the word.
pub proof fn lemma_toggle_bit(flags: Flags, index: u8, other: u8)
    requires
        index < 32,
        other < 32,
    ensures
        flags.with_bit_toggled(index).bit(index) == !flags.bit(index),
        other != index ==> flags.with_bit_toggled(index).bit(other) == flags.bit(other),
        flags.with_bit_toggled(index).with_bit_toggled(index) == flags,
{
    let b = flags.bits;
    let i = index as u32;
    let o = other as u32;
    assert((((b ^ (1u32 << i)) >> i) & 1 == 1) == !((b >> i) & 1 == 1)) by (bit_vector)
        requires
            i < 32,
    ;
    assert(o != i ==> (((b ^ (1u32 << i)) >> o) & 1 == 1) == ((b >> o) & 1 == 1)) by (bit_vector)
        requires
            i < 32,
            o < 32,
    ;
    assert((b ^ (1u32 << i)) ^ (1u32 << i) == b) by (bit_vector);
}

/// Writing an adjective-order category stores exactly that category, leaves
/// every bit outside the category as it was, and does not accumulate: only
/// the last of two writes counts.
pub proof fn lemma_adjective_order(flags: Flags, first: u8, second: u8, other: u8)
    requires
        first < ADJECTIVE_ORDER_CATEGORIES,
        second < ADJECTIVE_ORDER_CATEGORIES,
        other < 32,
    ensures
        flags.with_adjective_order(second).category() == second,
        !(16 <= other < 20) ==> flags.with_adjective_order(second).bit(other) == flags.bit(other),
        flags.with_adjective_order(first).with_adjective_order(second)
            == flags.with_adjective_order(second),
{
    let b = flags.bits;
    let f = first as u32;
    let s = second as u32;
    let o = other as u32;
    assert((((b & !0x000f_0000u32) | (s << 16)) >> 16) & 0xf == s) by (bit_vector)
        requires
            s < 16,
    ;
    assert(!(16 <= o && o < 20) ==> (((((b & !0x000f_0000u32) | (s << 16)) >> o) & 1 == 1) == ((b
        >> o) & 1 == 1))) by (bit_vector)
        requires
            s < 16,
            o < 32,
    ;
    assert(((((b & !0x000f_0000u32) | (f << 16)) & !0x000f_0000u32) | (s << 16)) == ((b
        & !0x000f_0000u32) | (s << 16))) by (bit_vector)
        requires
            f < 16,
            s < 16,
    ;
}

/// A word that fits in the stored bits still fits after any of the four
/// edits.
pub proof fn lemma_edits_keep_storable(flags: Flags, index: u8, category: u8)
    requires
        flags.storable(),
        index < FLAG_BITS,
        category < ADJECTIVE_ORDER_CATEGORIES,
    ensures
        flags.with_bit_set(index).storable(),
        flags.with_bit_toggled(index).storable(),
        flags.with_bit_unset(index).storable(),
        flags.with_adjective_order(category).storable(),
{
    let b = flags.bits;
    let i = index as u32;
    let c = category as u32;
    assert((b | (1u32 << i)) < 0x0100_0000u32) by (bit_vector)
        requires
            b < 0x0100_0000u32,
            i < 24,
    ;
    assert((b ^ (1u32 << i)) < 0x0100_0000u32) by (bit_vector)
        requires
            b < 0x0100_0000u32,
            i < 24,
    ;
    assert((b & !(1u32 << i)) < 0x0100_0000u32) by (bit_vector)
        requires
            b < 0x0100_0000u32,
            i < 24,
    ;
    assert(((b & !0x000f_0000u32) | (c << 16)) < 0x0100_0000u32) by (bit_vector)
        requires
            b < 0x0100_0000u32,
            c < 16,
    ;
}

} // verus!
