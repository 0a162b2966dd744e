//! Plain-integer models of the VM's 160-bit addresses and 256-bit words.

use vstd::prelude::*;

verus! {

/// A 160-bit contract address, held as its top 32 bits and low 128 bits.
/// The value of the address is `hi * 2^128 + lo`.
#[derive(Debug, Clone, Copy, PartialEq, Eq, Hash, Structural)]
pub struct Address {
    /// Bits 128..160 of the address.
    pub hi: u32,
    /// Bits 0..128 of the address.
    pub lo: u128,
}

impl Address {
    /// Build an address from its top 32 and low 128 bits.
    pub fn new(hi: u32, lo: u128) -> (r: Address)
        ensures
            r.hi == hi,
            r.lo == lo,
    {
        Address { hi, lo }
    }
}

/// A 256-bit VM word, held as its high and low 128-bit halves.
/// The value of the word is `hi * 2^128 + lo`.
#[derive(Debug, Clone, Copy, PartialEq, Eq, Hash, Structural)]
pub struct Word256 {
    /// Bits 128..256 of the word.
    pub hi: u128,
    /// Bits 0..128 of the word.
    pub lo: u128,
}

impl Word256 {
    /// Build a word from its high and low 128-bit halves.
    pub fn new(hi: u128, lo: u128) -> (r: Word256)
        ensures
            r.hi == hi,
            r.lo == lo,
    {
        Word256 { hi, lo }
    }

    /// Widen a 128-bit value to a full word.
    pub fn from_u128(lo: u128) -> (r: Word256)
        ensures
            r.hi == 0,
            r.lo == lo,
    {
        Word256 { hi: 0, lo }
    }

    /// The low 128 bits of the word.
    pub fn low_u128(&self) -> (r: u128)
        ensures
            r == self.lo,
    {
        self.lo
    }

    /// Whether bit `bit` (counted from the least significant end) of the
    /// low half of the word is set.
    pub fn low_bit(&self, bit: u32) -> (r: bool)
        requires
            bit < 128,
        ensures
            r == (self.lo >> (bit as u128) & 1 == 1),
    {
        self.lo >> (bit as u128) & 1 == 1
    }

    /// Narrow the word to an address: its low 160 bits.
    pub fn to_address(&self) -> (r: Address)
        ensures
            r.hi == self.hi & 0xFFFF_FFFF,
            r.lo == self.lo,
    {
        let hi: u128 = self.hi;
        let masked: u128 = hi & 0xFFFF_FFFF;
        proof {
            assert(hi & 0xFFFF_FFFF <= 0xFFFF_FFFF) by (bit_vector);
        }
        Address { hi: masked as u32, lo: self.lo }
    }
}

} // verus!
