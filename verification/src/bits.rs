//! Fixed-width narrowing and reinterpretation, stated as arithmetic.

use vstd::prelude::*;

verus! {

/// The low sixteen bits of `x`.
pub(crate) fn low16(x: u32) -> (r: u16)
    ensures
        r == x % 0x1_0000,
{
    assert(x as u16 == x % 0x1_0000) by (bit_vector);
    #[verifier::truncate]
    (x as u16)
}

/// The low eight bits of `x`.
pub(crate) fn low8(x: u16) -> (r: u8)
    ensures
        r == x % 0x100,
{
    assert(x as u8 == x % 0x100) by (bit_vector);
    #[verifier::truncate]
    (x as u8)
}

/// The low 32 bits of `x`.
pub(crate) fn low32(x: u64) -> (r: u32)
    ensures
        r == x % 0x1_0000_0000,
{
    assert(x as u32 == x % 0x1_0000_0000) by (bit_vector);
    #[verifier::truncate]
    (x as u32)
}

/// Reinterprets the bits of `x` as unsigned.
pub(crate) fn to_unsigned32(x: i32) -> (r: u32)
    ensures
        x >= 0 ==> r == x,
        x < 0 ==> r == x + 0x1_0000_0000,
{
    assert(x as u32 == if x < 0 {
        x + 0x1_0000_0000
    } else {
        x as int
    }) by (bit_vector);
    #[verifier::truncate]
    (x as u32)
}

/// `x` read as a two's complement number.
pub open spec fn signed32(x: u32) -> int {
    if x >= 0x8000_0000 {
        x - 0x1_0000_0000
    } else {
        x as int
    }
}

/// Reinterprets the bits of `x` as a signed number.
pub(crate) fn to_signed32(x: u32) -> (r: i32)
    ensures
        r == signed32(x),
{
    assert(x as i32 == if x >= 0x8000_0000u32 {
        x - 0x1_0000_0000
    } else {
        x as int
    }) by (bit_vector);
    #[verifier::truncate]
    (x as i32)
}

/// Byte `0` of the little-endian form of `x`, which is `x` modulo 256.
pub open spec fn byte0(x: int) -> u8 {
    (x % 0x100) as u8
}

/// Byte `1` of the little-endian two's complement form of `x`.
pub open spec fn byte1(x: int) -> u8 {
    (x / 0x100 % 0x100) as u8
}

/// The unsigned 16-bit number whose little-endian bytes are `lo`, `hi`.
pub open spec fn join16(lo: u8, hi: u8) -> int {
    lo + 0x100 * hi
}

/// `x` in `[0, 0x1_0000)` read as a two's complement number.
pub open spec fn signed16(x: int) -> int {
    if x >= 0x8000 {
        x - 0x1_0000
    } else {
        x
    }
}

/// The low byte of `x`.
pub(crate) fn lo_byte(x: u16) -> (r: u8)
    ensures
        r == byte0(x as int),
{
    low8(x)
}

/// The high byte of `x`.
pub(crate) fn hi_byte(x: u16) -> (r: u8)
    ensures
        r == byte1(x as int),
{
    assert(x >> 8 == x / 0x100) by (bit_vector);
    low8(x >> 8)
}

/// The high half of `x`.
pub(crate) fn hi16(x: u32) -> (r: u16)
    ensures
        r == x / 0x1_0000,
{
    assert(x >> 16 == x / 0x1_0000) by (bit_vector);
    low16(x >> 16)
}

/// Joins two little-endian bytes.
pub(crate) fn from_le16(lo: u8, hi: u8) -> (r: u16)
    ensures
        r == join16(lo, hi),
{
    lo as u16 + 0x100 * (hi as u16)
}

/// Reinterprets the bits of `x` as unsigned.
pub(crate) fn to_unsigned16(x: i16) -> (r: u16)
    ensures
        byte0(r as int) == byte0(x as int),
        byte1(r as int) == byte1(x as int),
        signed16(r as int) == x,
{
    assert(x as u16 == if x < 0 {
        x + 0x1_0000
    } else {
        x as int
    }) by (bit_vector);
    #[verifier::truncate]
    (x as u16)
}

/// Reinterprets the bits of `x` as signed.
pub(crate) fn to_signed16(x: u16) -> (r: i16)
    ensures
        r == signed16(x as int),
{
    assert(x as i16 == if x >= 0x8000u16 {
        x - 0x1_0000
    } else {
        x as int
    }) by (bit_vector);
    #[verifier::truncate]
    (x as i16)
}

/// Signed division by a positive divisor, rounding toward zero.
pub open spec fn div_trunc(a: int, b: int) -> int {
    if a >= 0 {
        a / b
    } else {
        -((-a) / b)
    }
}

/// The smaller of two numbers.
pub open spec fn min_of(a: int, b: int) -> int {
    if a <= b {
        a
    } else {
        b
    }
}

/// The larger of two numbers.
pub open spec fn max_of(a: int, b: int) -> int {
    if a >= b {
        a
    } else {
        b
    }
}

/// `x` held inside `[lo, hi]`.
pub open spec fn clamp_of(x: int, lo: int, hi: int) -> int {
    if x < lo {
        lo
    } else if x > hi {
        hi
    } else {
        x
    }
}

/// Two bytes and their number: the number is the low byte and 256 times the
/// high one, and has those bytes.
pub proof fn law_bytes_join_and_split(lo: u8, hi: u8)
    ensures
        join16(lo, hi) == hi * 256 + lo,
        byte0(join16(lo, hi)) == lo,
        byte1(join16(lo, hi)) == hi,
{
}

/// Two's complement: the upper half of the range is the negative numbers,
/// and both readings differ by the whole range or not at all.
pub proof fn law_signed_readings_wrap(x: u32, y: int)
    requires
        0 <= y <= 0xFFFF,
    ensures
        -0x8000_0000 <= signed32(x) <= 0x7FFF_FFFF,
        signed32(x) == x || signed32(x) + 0x1_0000_0000 == x,
        -0x8000 <= signed16(y) <= 0x7FFF,
        signed16(y) == y || signed16(y) + 0x1_0000 == y,
{
}

/// Division toward zero never overshoots: what is left has the sign of the
/// dividend and is smaller than the divisor; and it is odd.
pub proof fn law_truncated_division(a: int, b: int)
    requires
        b > 0,
    ensures
        a >= 0 ==> 0 <= a - b * div_trunc(a, b) < b,
        a <= 0 ==> -b < a - b * div_trunc(a, b) <= 0,
        div_trunc(-a, b) == -div_trunc(a, b),
{
    let n = if a >= 0 {
        a
    } else {
        -a
    };
    vstd::arithmetic::div_mod::lemma_fundamental_div_mod(n, b);
    assert(b * (-(n / b)) == -(b * (n / b))) by (nonlinear_arith);
    assert(0int / b == 0) by (nonlinear_arith)
        requires
            b > 0,
    ;
}

/// The smaller and the larger of two numbers are those two, in order, and a
/// clamp takes the nearest number of its range.
pub proof fn law_bounds_are_the_nearest(x: int, lo: int, hi: int, other: int)
    requires
        lo <= other <= hi,
    ensures
        min_of(x, lo) <= max_of(x, lo),
        min_of(x, lo) + max_of(x, lo) == x + lo,
        min_of(x, lo) == x || min_of(x, lo) == lo,
        lo <= clamp_of(x, lo, hi) <= hi,
        lo <= x <= hi ==> clamp_of(x, lo, hi) == x,
        x <= other ==> clamp_of(x, lo, hi) <= other,
        x >= other ==> clamp_of(x, lo, hi) >= other,
{
}

} // verus!
