//! Field elements and 4-element words, the basic units of account state.
//!
//! A word is the fixed-width value held by a storage slot; a digest produced
//! by the commitment primitive is also a word. Elements are values of a prime
//! field; a value is canonical when it is strictly below the field modulus.

use vstd::prelude::*;

verus! {

/// Order of the prime field that all state elements live in.
pub const FIELD_MODULUS: u64 = 0xFFFF_FFFF_0000_0001;

/// A single field element, stored in canonical form.
#[derive(Clone, Copy, PartialEq, Eq, Structural, Debug)]
pub struct Felt {
    pub value: u64,
}

impl Felt {
    /// True when the stored representative is canonical.
    pub open spec fn wf(self) -> bool {
        self.value < FIELD_MODULUS
    }

    /// Reduces an arbitrary integer into the field.
    pub fn new(value: u64) -> (r: Felt)
        ensures
            r.value == value % FIELD_MODULUS,
            r.wf(),
    {
        Felt { value: value % FIELD_MODULUS }
    }

    /// The additive identity.
    pub fn zero() -> (r: Felt)
        ensures
            r.value == 0,
            r.wf(),
    {
        Felt { value: 0 }
    }

    /// The multiplicative identity.
    pub fn one() -> (r: Felt)
        ensures
            r.value == 1,
            r.wf(),
    {
        Felt { value: 1 }
    }
}

/// The word whose elements are the first four values of a sequence.
pub open spec fn word_from_seq(s: Seq<u64>) -> Word {
    Word { e0: s[0], e1: s[1], e2: s[2], e3: s[3] }
}

/// A unit of data consisting of four field elements.
#[derive(Clone, Copy, PartialEq, Eq, Structural, Debug)]
pub struct Word {
    pub e0: u64,
    pub e1: u64,
    pub e2: u64,
    pub e3: u64,
}

impl View for Word {
    type V = Seq<u64>;

    open spec fn view(&self) -> Seq<u64> {
        seq![self.e0, self.e1, self.e2, self.e3]
    }
}

impl Word {
    /// True when every element is canonical.
    pub open spec fn wf(self) -> bool {
        self.e0 < FIELD_MODULUS && self.e1 < FIELD_MODULUS && self.e2 < FIELD_MODULUS
            && self.e3 < FIELD_MODULUS
    }

    pub fn new(e0: u64, e1: u64, e2: u64, e3: u64) -> (r: Word)
        ensures
            r == (Word { e0, e1, e2, e3 }),
    {
        Word { e0, e1, e2, e3 }
    }

    /// Decides whether every element is canonical.
    pub fn is_canonical(&self) -> (r: bool)
        ensures
            r == self.wf(),
    {
        self.e0 < FIELD_MODULUS && self.e1 < FIELD_MODULUS && self.e2 < FIELD_MODULUS
            && self.e3 < FIELD_MODULUS
    }

    /// The all-zero word, also the content of an unset storage slot.
    pub fn zeros() -> (r: Word)
        ensures
            r == (Word { e0: 0u64, e1: 0u64, e2: 0u64, e3: 0u64 }),
            r.wf(),
    {
        Word { e0: 0, e1: 0, e2: 0, e3: 0 }
    }
}

} // verus!
