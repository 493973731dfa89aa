//! Splitting bytes into 4-bit fields and assembling fields back into bytes
//! and addresses.

use vstd::prelude::*;

verus! {

/// The upper four bits of `b`.
pub open spec fn high_of(b: u8) -> u8 {
    b / 16
}

/// The lower four bits of `b`.
pub open spec fn low_of(b: u8) -> u8 {
    b % 16
}

pub fn high_nibble(b: u8) -> (r: u8)
    ensures
        r == high_of(b),
        r < 16,
{
    let r = (b >> 4) & 0x0F;
    assert((b >> 4u8) & 0x0Fu8 == b / 16) by (bit_vector);
    r
}

pub fn low_nibble(b: u8) -> (r: u8)
    ensures
        r == low_of(b),
        r < 16,
{
    let r = b & 0x0F;
    assert(b & 0x0Fu8 == b % 16) by (bit_vector);
    r
}

/// The two nibbles of `b`, the upper one first.
pub fn low_and_high_nibbles(b: u8) -> (r: [u8; 2])
    ensures
        r@ == seq![high_of(b), low_of(b)],
{
    let r = [high_nibble(b), low_nibble(b)];
    assert(r@ =~= seq![high_of(b), low_of(b)]);
    r
}

/// The byte whose upper nibble is `a` and lower nibble is `b`.
pub fn from_low_and_high(a: u8, b: u8) -> (r: u8)
    requires
        a < 16,
        b < 16,
    ensures
        r == a * 16 + b,
{
    assert(a < 16 && b < 16 ==> (a << 4u8) | b == a * 16 + b) by (bit_vector);
    a << 4 | b
}

/// The 16-bit word made of the nibbles `a`, `b`, `c`, `d`, most significant first.
pub fn from_nibbles(a: u8, b: u8, c: u8, d: u8) -> (r: u16)
    requires
        a < 16,
        b < 16,
        c < 16,
        d < 16,
    ensures
        r == a * 4096 + b * 256 + c * 16 + d,
{
    let hi = from_low_and_high(a, b);
    let lo = from_low_and_high(c, d);
    (hi as u16) * 256 + lo as u16
}

/// The 12-bit address made of the nibbles `a`, `b`, `c`, most significant first.
pub fn address_from_nibbles(a: u8, b: u8, c: u8) -> (r: u16)
    requires
        a < 16,
        b < 16,
        c < 16,
    ensures
        r == a * 256 + b * 16 + c,
        r < 4096,
{
    let (a, b, c) = (a as u16, b as u16, c as u16);
    assert(a < 16 && b < 16 && c < 16 ==> (a << 8u16) == a * 256 && (b << 4u16) == b * 16)
        by (bit_vector);
    (a << 8) + (b << 4) + c
}

} // verus!
