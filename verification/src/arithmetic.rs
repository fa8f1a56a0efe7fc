//! The 8-bit arithmetic of the register-to-register instructions: each
//! operation gives the new register value and the flag that goes to `VF`.

use vstd::prelude::*;

verus! {

/// `a + b` modulo 256, and whether the sum did not fit in a byte.
pub fn add_with_carry(a: u8, b: u8) -> (out: (u8, bool))
    ensures
        out.0 == (a + b) % 256,
        out.1 == (a + b > 255),
{
    (a.wrapping_add(b), a as u16 + b as u16 > 255)
}

/// `a - b` modulo 256, and whether no borrow was needed, that is `a >= b`.
pub fn subtract_with_borrow(a: u8, b: u8) -> (out: (u8, bool))
    ensures
        out.0 == (a - b) % 256,
        out.1 == (a >= b),
{
    (a.wrapping_sub(b), a >= b)
}

/// `a` shifted right by one bit, and whether the bit shifted out was set.
pub fn shift_right(a: u8) -> (out: (u8, bool))
    ensures
        out.0 == a / 2,
        out.1 == (a % 2 == 1),
{
    assert(a >> 1 == a / 2 && (a & 1 == 1) == (a % 2 == 1)) by (bit_vector);
    (a >> 1, a & 1 == 1)
}

/// `a` shifted left by one bit modulo 256, and whether the bit shifted out
/// was set.
pub fn shift_left(a: u8) -> (out: (u8, bool))
    ensures
        out.0 == (a * 2) % 256,
        out.1 == (a >= 128),
{
    assert(a << 1 == (a * 2) % 256 && (a & 0x80 != 0) == (a >= 128)) by (bit_vector);
    (a << 1, a & 0x80 != 0)
}

} // verus!
