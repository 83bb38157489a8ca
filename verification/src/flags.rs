//! The bit-field of grammatical properties attached to a lexeme.

use vstd::prelude::*;
use vstd::string::StringExecFns;

verus! {

/// Number of bits of a flag word that the file format stores.
pub const FLAG_BITS: u8 = 24;

/// Position of the lowest bit of the adjective-order category.
pub const ADJECTIVE_ORDER_SHIFT: u8 = 16;

/// Number of adjective-order categories, the category "none" included.
pub const ADJECTIVE_ORDER_CATEGORIES: u8 = 16;

/// The bits of the adjective-order category within a flag word.
pub const ADJECTIVE_ORDER_MASK: u32 = 0x000f_0000;

/// A flag word: sixteen single-bit flags in bits 0..16 and the
/// adjective-order category in bits 16..20.
#[derive(Clone, Copy, Debug, PartialEq, Eq, Structural)]
pub struct Flags {
    pub bits: u32,
}

impl Flags {
    /// Whether bit `index` of the word is set.
    pub open spec fn bit(self, index: u8) -> bool {
        (self.bits >> (index as u32)) & 1 == 1
    }

    /// The adjective-order category stored in the word.
    pub open spec fn category(self) -> u8 {
        ((self.bits >> 16) & 0xf) as u8
    }

    /// Whether the word fits in the bits that the file format stores.
    pub open spec fn storable(self) -> bool {
        self.bits < 0x0100_0000
    }

    /// The word with bit `index` set.
    pub open spec fn with_bit_set(self, index: u8) -> Flags {
        Flags { bits: self.bits | (1u32 << (index as u32)) }
    }

    /// The word with bit `index` inverted.
    pub open spec fn with_bit_toggled(self, index: u8) -> Flags {
        Flags { bits: self.bits ^ (1u32 << (index as u32)) }
    }

    /// The word with bit `index` cleared.
    pub open spec fn with_bit_unset(self, index: u8) -> Flags {
        Flags { bits: self.bits & !(1u32 << (index as u32)) }
    }

    /// The word with its adjective-order category replaced by `category`.
    pub open spec fn with_adjective_order(self, category: u8) -> Flags {
        Flags { bits: (self.bits & !ADJECTIVE_ORDER_MASK) | ((category as u32) << 16) }
    }

    /// The word as a binary literal of fixed width: `0b` and then the
    /// stored bits, the highest first.
    pub open spec fn binary_literal(self) -> Seq<char> {
        seq!['0', 'b'] + Seq::new(
            FLAG_BITS as nat,
            |k: int| if self.bit((FLAG_BITS - 1 - k) as u8) { '1' } else { '0' },
        )
    }

    /// The flag word with no bit set.
    pub fn new() -> (flags: Flags)
        ensures
            flags.bits == 0,
    {
        Flags { bits: 0 }
    }

    /// The flag word made of the given bits.
    pub fn from_bits(bits: u32) -> (flags: Flags)
        ensures
            flags.bits == bits,
    {
        Flags { bits }
    }

    /// Sets bit `index`.
    pub fn set_bit(&mut self, index: u8)
        requires
            index < FLAG_BITS,
        ensures
            *final(self) == old(self).with_bit_set(index),
    {
        let flag: u32 = 1u32 << (index as u32);
        self.bits = self.bits | flag;
    }

    /// Inverts bit `index`.
    pub fn toggle_bit(&mut self, index: u8)
        requires
            index < FLAG_BITS,
        ensures
            *final(self) == old(self).with_bit_toggled(index),
    {
        let flag: u32 = 1u32 << (index as u32);
        self.bits = self.bits ^ flag;
    }

    /// Clears bit `index`.
    pub fn unset_bit(&mut self, index: u8)
        requires
            index < FLAG_BITS,
        ensures
            *final(self) == old(self).with_bit_unset(index),
    {
        let flag: u32 = 1u32 << (index as u32);
        self.bits = self.bits & !flag;
    }

    /// Replaces the adjective-order category: the four bits of the
    /// category are cleared before the new value is written.
    pub fn set_adjective_order(&mut self, category: u8)
        requires
            category < ADJECTIVE_ORDER_CATEGORIES,
        ensures
            *final(self) == old(self).with_adjective_order(category),
    {
        let cleared: u32 = self.bits & !ADJECTIVE_ORDER_MASK;
        self.bits = cleared | ((category as u32) << 16u32);
    }

    /// Reads bit `index`.
    pub fn get_bit(&self, index: u8) -> (set: bool)
        requires
            index < FLAG_BITS,
        ensures
            set == self.bit(index),
    {
        (self.bits >> (index as u32)) & 1 == 1
    }

    /// Writes the word as a binary literal of fixed width, for showing it.
    pub fn binary_text(&self) -> (text: String)
        ensures
            text@ == self.binary_literal(),
    {
        let bits: u32 = self.bits;
        let mut text = "0b".to_owned();
        proof {
            reveal_strlit("0b");
        }
        let mut written: u8 = 0;
        while written < FLAG_BITS
            invariant
                written <= FLAG_BITS,
                bits == self.bits,
                text@ == seq!['0', 'b'] + Seq::new(
                    written as nat,
                    |k: int| if self.bit((FLAG_BITS - 1 - k) as u8) { '1' } else { '0' },
                ),
            decreases FLAG_BITS - written,
        {
            let index: u8 = FLAG_BITS - 1 - written;
            proof {
                reveal_strlit("0");
                reveal_strlit("1");
            }
            if (bits >> (index as u32)) & 1 == 1 {
                text.append("1");
            } else {
                text.append("0");
            }
            written = written + 1;
        }
        text
    }

    /// Reads the adjective-order category.
    pub fn adjective_order(&self) -> (category: u8)
        ensures
            category == self.category(),
            category < ADJECTIVE_ORDER_CATEGORIES,
    {
        let bits: u32 = self.bits;
        let field: u32 = (bits >> 16u32) & 0xf;
        assert(field < 16) by (bit_vector)
            requires
                field == (bits >> 16u32) & 0xf,
        ;
        field as u8
    }
}

impl Default for Flags {
    fn default() -> (flags: Flags)
        ensures
            flags.bits == 0,
    {
        Flags { bits: 0 }
    }
}

} // verus!
