//! Arithmetic and logic primitives of the execution engine: 32-bit wrapping
//! arithmetic with carry and overflow flags, and rotation.

use vstd::prelude::*;

verus! {

/// Truncates an unbounded integer to 32 bits, two's-complement style.
pub open spec fn wrap32(x: int) -> u32 {
    (((x % 0x1_0000_0000) + 0x1_0000_0000) % 0x1_0000_0000) as u32
}

/// Truncates an unbounded integer to 64 bits.
pub open spec fn wrap64(x: int) -> u64 {
    (((x % 0x1_0000_0000_0000_0000) + 0x1_0000_0000_0000_0000) % 0x1_0000_0000_0000_0000) as u64
}

/// The sign bit of a 32-bit value under a signed reading.
pub open spec fn sign32(x: u32) -> bool {
    x >= 0x8000_0000
}

/// Carry out of a 32-bit addition with carry-in: set iff the true sum does
/// not fit in 32 bits.
pub open spec fn spec_add_carry(a: u32, b: u32, c: bool) -> bool {
    a + b + (if c { 1int } else { 0int }) > 0xFFFF_FFFF
}

/// Signed overflow of a 32-bit addition: the operands agree in sign and the
/// result disagrees with them.
pub open spec fn spec_add_overflow(a: u32, b: u32, c: bool) -> bool {
    sign32(a) == sign32(b) && sign32(wrap32(a + b + (if c { 1int } else { 0int }))) != sign32(a)
}

/// Carry out of a 32-bit subtraction with carry-in (borrow-free condition):
/// `a - b - (1 - c)` needs no borrow.
pub open spec fn spec_sub_carry(a: u32, b: u32, c: bool) -> bool {
    a - b - (if c { 0int } else { 1int }) >= 0
}

/// Signed overflow of a 32-bit subtraction: the operands disagree in sign and
/// the result disagrees with the minuend.
pub open spec fn spec_sub_overflow(a: u32, b: u32, c: bool) -> bool {
    sign32(a) != sign32(b) && sign32(wrap32(a - b - (if c { 0int } else { 1int }))) != sign32(a)
}

/// Adds with carry-in; returns the truncated result and the carry and
/// overflow flags of the full-width addition.
pub fn adc32(a: u32, b: u32, c: bool) -> (r: (u32, bool, bool))
    ensures
        r.0 == wrap32(a + b + (if c { 1int } else { 0int })),
        r.1 == spec_add_carry(a, b, c),
        r.2 == spec_add_overflow(a, b, c),
{
    let cin: u64 = if c { 1 } else { 0 };
    let wide: u64 = a as u64 + b as u64 + cin;
    let value: u32 = (wide & 0xFFFF_FFFF) as u32;
    let carry: bool = wide > 0xFFFF_FFFF;
    let overflow: bool = (a >= 0x8000_0000) == (b >= 0x8000_0000) && (value >= 0x8000_0000) != (a
        >= 0x8000_0000);
    proof {
        assert(wide & 0xFFFF_FFFF == wide % 0x1_0000_0000) by (bit_vector);
    }
    (value, carry, overflow)
}

/// Subtracts with carry-in (carry set means no borrow pending); returns the
/// truncated result and the carry and overflow flags.
pub fn sbc32(a: u32, b: u32, c: bool) -> (r: (u32, bool, bool))
    ensures
        r.0 == wrap32(a - b - (if c { 0int } else { 1int })),
        r.1 == spec_sub_carry(a, b, c),
        r.2 == spec_sub_overflow(a, b, c),
{
    let borrow: u64 = if c { 0 } else { 1 };
    let wide: u64 = 0x1_0000_0000u64 + a as u64 - b as u64 - borrow;
    let value: u32 = (wide & 0xFFFF_FFFF) as u32;
    let carry: bool = wide > 0xFFFF_FFFF;
    let overflow: bool = (a >= 0x8000_0000) != (b >= 0x8000_0000) && (value >= 0x8000_0000) != (a
        >= 0x8000_0000);
    proof {
        assert(wide & 0xFFFF_FFFF == wide % 0x1_0000_0000) by (bit_vector);
    }
    (value, carry, overflow)
}

/// Rotates a 32-bit value right by `n` bit positions (modulo 32).
pub open spec fn spec_ror32(x: u32, n: u32) -> u32 {
    if n % 32 == 0 {
        x
    } else {
        (x >> (n % 32)) | (x << (32 - n % 32))
    }
}

/// Rotates a 32-bit value right by `n` bit positions (modulo 32).
pub fn ror32(x: u32, n: u32) -> (r: u32)
    ensures
        r == spec_ror32(x, n),
{
    let s: u32 = n % 32;
    if s == 0 {
        x
    } else {
        (x >> s) | (x << (32 - s))
    }
}

/// Flag semantics of the arithmetic instructions: a subtraction sets the
/// carry flag exactly when no borrow occurred (the minuend is at least the
/// subtrahend, read as unsigned values), and an addition sets the overflow
/// flag exactly when both operands share a sign and the truncated sum's sign
/// disagrees with it.
pub proof fn lemma_flag_semantics(a: u32, b: u32)
    ensures
        spec_sub_carry(a, b, true) <==> a >= b,
        spec_add_overflow(a, b, false) <==> (sign32(a) == sign32(b) && sign32(
            wrap32(a + b),
        ) != sign32(a)),
{
}

} // verus!
