//! A set of longhands in the bits of one word.

use vstd::prelude::*;
use crate::registry::Longhand;

verus! {

/// A set of longhands: one bit for each, at the place of its ordinal.
#[derive(Clone, Copy, Debug, PartialEq, Eq)]
pub struct PropertyBitField {
    bits: u16,
}

/// The bit that stands for a longhand.
spec fn mask_of(property: Longhand) -> u16 {
    1u16 << (property.ordinal() as u16)
}

proof fn lemma_masks(a: u16, b: u16)
    requires
        a < 8,
        b < 8,
    ensures
        (1u16 << a) != 0,
        a != b ==> (1u16 << a) & (1u16 << b) == 0,
{
    assert((1u16 << a) != 0) by (bit_vector)
        requires
            a < 8,
    ;
    if a != b {
        assert((1u16 << a) & (1u16 << b) == 0) by (bit_vector)
            requires
                a < 8,
                b < 8,
                a != b,
        ;
    }
}

proof fn lemma_set_bit(bits: u16, mask: u16, other: u16)
    ensures
        ((bits & !mask) | mask) & mask == mask,
        (bits & !mask) & mask == 0,
        mask & other == 0 ==> ((bits & !mask) | mask) & other == bits & other,
        mask & other == 0 ==> (bits & !mask) & other == bits & other,
{
    assert(((bits & !mask) | mask) & mask == mask) by (bit_vector);
    assert((bits & !mask) & mask == 0) by (bit_vector);
    if mask & other == 0 {
        assert(((bits & !mask) | mask) & other == bits & other) by (bit_vector)
            requires
                mask & other == 0,
        ;
        assert((bits & !mask) & other == bits & other) by (bit_vector)
            requires
                mask & other == 0,
        ;
    }
}

impl PropertyBitField {
    /// Whether the longhand is in the set.
    pub closed spec fn contains(self, property: Longhand) -> bool {
        self.bits & mask_of(property) != 0
    }

    /// The empty set.
    pub fn new() -> (empty: PropertyBitField)
        ensures
            forall|property: Longhand| !empty.contains(property),
    {
        assert forall|mask: u16| 0u16 & mask == 0 by {
            assert(0u16 & mask == 0) by (bit_vector);
        }
        PropertyBitField { bits: 0 }
    }

    /// Whether the longhand is in the set.
    pub fn get(self, property: Longhand) -> (member: bool)
        ensures
            member == self.contains(property),
    {
        let mask: u16 = 1u16 << (property.index() as u16);
        (self.bits & mask) != 0
    }

    /// Puts the longhand into the set, or takes it out.
    pub fn set(&mut self, property: Longhand, value: bool)
        ensures
            final(self).contains(property) == value,
            forall|other: Longhand|
                other != property ==> final(self).contains(other) == old(self).contains(other),
    {
        let mask: u16 = 1u16 << (property.index() as u16);
        let bits = self.bits;
        proof {
            lemma_masks(property.ordinal() as u16, property.ordinal() as u16);
            lemma_set_bit(bits, mask, mask);
            assert forall|other: Longhand| other != property implies mask & mask_of(other)
                == 0 by {
                lemma_masks(property.ordinal() as u16, other.ordinal() as u16);
            }
            assert forall|other: Longhand| other != property implies ((bits & !mask) | mask)
                & mask_of(other) == bits & mask_of(other) && (bits & !mask) & mask_of(other)
                == bits & mask_of(other) by {
                lemma_set_bit(bits, mask, mask_of(other));
            }
        }
        self.bits = (bits & !mask) | (if value {
            mask
        } else {
            0
        });
        proof {
            assert((bits & !mask) | 0u16 == bits & !mask) by (bit_vector);
        }
    }
}

} // verus!
