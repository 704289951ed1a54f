//! The condition-code register: one of three mutually exclusive states,
//! reflecting the sign of the most recently written result value.

use vstd::prelude::*;

verus! {

/// The three condition states. Each occupies its own bit of the condition
/// register so that a branch instruction can test any subset at once.
#[allow(non_camel_case_types)]
#[derive(Clone, Copy, Debug, PartialEq, Eq, Structural)]
pub enum ConditionFlag {
    POS,
    ZRO,
    NEG,
}

/// The bit that each condition state occupies in the condition register.
pub open spec fn flag_bits(f: ConditionFlag) -> u16 {
    match f {
        ConditionFlag::POS => 1,
        ConditionFlag::ZRO => 2,
        ConditionFlag::NEG => 4,
    }
}

impl ConditionFlag {
    /// The flag's bit in the condition register.
    pub fn bits(self) -> (r: u16)
        ensures
            r == flag_bits(self),
    {
        match self {
            ConditionFlag::POS => 1,
            ConditionFlag::ZRO => 2,
            ConditionFlag::NEG => 4,
        }
    }
}

/// The condition-register value that a result `x` gives: ZRO for zero, NEG
/// when bit 15 of `x` is set, POS otherwise. Zero is checked first, so 0 is
/// never classified as positive.
pub open spec fn flag_of(x: u16) -> u16 {
    if x == 0 {
        flag_bits(ConditionFlag::ZRO)
    } else if x >> 15 == 1 {
        flag_bits(ConditionFlag::NEG)
    } else {
        flag_bits(ConditionFlag::POS)
    }
}

/// Computes the condition-register value for a result `x`.
pub fn get_cond_flag(x: u16) -> (r: u16)
    ensures
        r == flag_of(x),
{
    if x == 0 {
        ConditionFlag::ZRO.bits()
    } else if x >> 15 == 1 {
        ConditionFlag::NEG.bits()
    } else {
        ConditionFlag::POS.bits()
    }
}

/// The condition-flag law: a result maps to ZRO exactly when it is zero, to
/// NEG exactly when it is nonzero with bit 15 set, and to POS exactly when
/// it is nonzero with bit 15 clear.
pub proof fn lemma_condition_flag(x: u16)
    ensures
        flag_of(x) == flag_bits(ConditionFlag::ZRO) <==> x == 0,
        flag_of(x) == flag_bits(ConditionFlag::NEG) <==> (x != 0 && (x >> 15) & 1 == 1),
        flag_of(x) == flag_bits(ConditionFlag::POS) <==> (x != 0 && (x >> 15) & 1 == 0),
{
    crate::bits::lemma_top_bit(x);
    assert((x >> 15) & 1 == x >> 15) by (bit_vector);
}

} // verus!
