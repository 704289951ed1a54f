//! Word-level primitives shared by every instruction: sign extension of an
//! instruction field and 16-bit wraparound addition.

use vstd::arithmetic::div_mod::{lemma_add_mod_noop, lemma_add_mod_noop_right};
use vstd::prelude::*;

verus! {

/// The low `b` bits of `x` kept as they are, every higher bit overwritten
/// with bit `b - 1` of `x` (the field's sign bit).
pub open spec fn sext(x: u16, b: u16) -> u16
    recommends
        1 <= b <= 15,
{
    if (x >> (b - 1) as u16) & 1 == 1 {
        x | (0xFFFFu16 << b)
    } else {
        x & !(0xFFFFu16 << b)
    }
}

/// Addition modulo 65536.
pub open spec fn wrap_add(a: u16, b: u16) -> u16 {
    ((a as int + b as int) % 65536) as u16
}

/// The address `d` words past `a`, wrapping around the address space.
pub open spec fn wrap_off(a: u16, d: int) -> u16 {
    ((a as int + d) % 65536) as u16
}

/// Walking one address on and dropping one step reaches the same
/// addresses, one step later.
pub proof fn lemma_wrap_off_step(a: u16, d: int)
    requires
        1 <= d,
    ensures
        wrap_off(a, d) == wrap_off(wrap_add(a, 1), d - 1),
{
    lemma_add_mod_noop(a as int + 1, d - 1, 65536);
    lemma_add_mod_noop_right((a as int + 1) % 65536, d - 1, 65536);
}

/// One more wrapping increment lands one word further along.
pub proof fn lemma_wrap_off_snoc(a: u16, d: int)
    requires
        0 <= d,
    ensures
        wrap_add(wrap_off(a, d), 1) == wrap_off(a, d + 1),
{
    lemma_add_mod_noop(a as int + d, 1, 65536);
    lemma_add_mod_noop_right((a as int + d) % 65536, 1, 65536);
}

/// Masking with a constant keeps a value at or under the mask.
pub proof fn lemma_mask_bound(x: u16, m: u16)
    ensures
        x & m <= m,
{
    assert(x & m <= m) by (bit_vector);
}

/// The top bit read by a 15-place right shift is a single bit.
pub proof fn lemma_top_bit(x: u16)
    ensures
        x >> 15 == 0 || x >> 15 == 1,
{
    assert(x >> 15 == 0 || x >> 15 == 1) by (bit_vector);
}

/// Treats the low `bit_count` bits of `x` as a two's-complement number and
/// extends it to 16 bits: every bit from `bit_count` upward becomes a copy
/// of the field's sign bit.
pub fn sign_extend(x: u16, bit_count: u8) -> (r: u16)
    requires
        1 <= bit_count <= 15,
    ensures
        r == sext(x, bit_count as u16),
{
    let b: u16 = bit_count as u16;
    let first_bit = (x >> (b - 1)) & 1;
    if first_bit == 1 {
        x | (0xFFFFu16 << b)
    } else {
        x & !(0xFFFFu16 << b)
    }
}

/// Bit `i` of `sext(v, b)` is bit `i` of `v` below the field width and a
/// copy of bit `b - 1` of `v` from the field width upward.
pub proof fn lemma_sign_extend_bits(v: u16, b: u16, i: u16)
    requires
        1 <= b <= 15,
        i < 16,
    ensures
        (sext(v, b) >> i) & 1 == if i < b {
            (v >> i) & 1
        } else {
            (v >> (b - 1) as u16) & 1
        },
{
    assert((1 <= b && b <= 15 && i < 16) ==> ((if (v >> (b - 1) as u16) & 1 == 1 {
        v | (0xFFFFu16 << b)
    } else {
        v & !(0xFFFFu16 << b)
    } >> i) & 1 == if i < b {
        (v >> i) & 1
    } else {
        (v >> (b - 1) as u16) & 1
    })) by (bit_vector);
}

/// The low byte of a word: what a character-printing trap hands to the
/// console for each memory word.
pub fn low_byte(x: u16) -> (r: u8)
    ensures
        r == (x & 0xFF) as u8,
        r as u16 == x & 0xFF,
{
    proof {
        lemma_mask_bound(x, 0xFF);
    }
    (x & 0xFF) as u8
}

/// The high byte of a word: the second packed character of a two-character
/// memory word.
pub fn high_byte(x: u16) -> (r: u8)
    ensures
        r == (x >> 8) as u8,
        r as u16 == x >> 8,
{
    proof {
        assert(x >> 8 < 256) by (bit_vector);
    }
    (x >> 8) as u8
}

/// Adds two 16-bit values with wraparound modulo 65536; there is no
/// overflow fault.
pub fn safe_u16_add(x: u16, y: u16) -> (r: u16)
    ensures
        r == wrap_add(x, y),
        r as int == (x as int + y as int) % 65536,
{
    let s: u32 = x as u32 + y as u32;
    if s >= 65536 {
        (s - 65536) as u16
    } else {
        s as u16
    }
}

} // verus!
