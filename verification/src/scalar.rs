//! Floating-point values, seen as their IEEE-754 bit patterns.
//!
//! Nothing here computes with such a value. A pattern is classified (zero,
//! not-a-number) and two patterns are compared, with the outcome that the
//! comparison operators of the standard give on the values they encode.
//! Single precision comes first; the few rules that are stated in double
//! precision use the items whose names end in `64`.

use vstd::prelude::*;

verus! {

/// The sign bit of a pattern.
pub const SIGN_MASK: u32 = 0x8000_0000;

/// Every bit of a pattern but the sign.
pub const MAGNITUDE_MASK: u32 = 0x7fff_ffff;

/// Positive infinity. A larger magnitude encodes no number.
pub const INFINITY: u32 = 0x7f80_0000;

/// Positive zero.
pub const ZERO: u32 = 0;

/// The value one.
pub const ONE: u32 = 0x3f80_0000;

/// The largest finite value.
pub const MAX: u32 = 0x7f7f_ffff;

/// The pattern without its sign bit.
pub open spec fn magnitude(bits: u32) -> int {
    (bits & MAGNITUDE_MASK) as int
}

/// Whether the sign bit is set.
pub open spec fn is_negative(bits: u32) -> bool {
    bits & SIGN_MASK != 0
}

/// Whether the pattern encodes no number.
pub open spec fn is_nan(bits: u32) -> bool {
    magnitude(bits) > INFINITY
}

/// Whether the pattern encodes zero, of either sign.
pub open spec fn is_zero(bits: u32) -> bool {
    magnitude(bits) == 0
}

/// The place of a number among all numbers: patterns of numbers are ordered
/// as their ranks are. Both zeros have rank 0; magnitudes grow with the
/// pattern, and the sign bit mirrors them.
pub open spec fn rank(bits: u32) -> int {
    if is_negative(bits) {
        -magnitude(bits)
    } else {
        magnitude(bits)
    }
}

/// `a < b` on the encoded values. False when either is not a number.
pub open spec fn less(a: u32, b: u32) -> bool {
    !is_nan(a) && !is_nan(b) && rank(a) < rank(b)
}

/// `a <= b` on the encoded values. False when either is not a number.
pub open spec fn less_eq(a: u32, b: u32) -> bool {
    !is_nan(a) && !is_nan(b) && rank(a) <= rank(b)
}

/// `a == b` on the encoded values. False when either is not a number; true
/// of the two zeros.
pub open spec fn same(a: u32, b: u32) -> bool {
    !is_nan(a) && !is_nan(b) && rank(a) == rank(b)
}

/// Two patterns encode equal numbers exactly when both are numbers and
/// either the patterns are the same or both encode zero.
pub proof fn lemma_same_patterns(a: u32, b: u32)
    ensures
        same(a, b) <==> !is_nan(a) && !is_nan(b) && (a == b || (is_zero(a) && is_zero(b))),
{
    assert((a & 0x7fff_ffff) == (b & 0x7fff_ffff) && ((a & 0x8000_0000 != 0) == (b & 0x8000_0000
        != 0)) ==> a == b) by (bit_vector);
}

/// Numbers are totally ordered: of two numbers, exactly one of "below",
/// "equal" and "above" holds. A pattern that encodes no number is neither
/// below, equal to nor above anything.
pub proof fn lemma_order_is_total(a: u32, b: u32)
    ensures
        !is_nan(a) && !is_nan(b) ==> (less(a, b) || same(a, b) || less(b, a)),
        !(less(a, b) && same(a, b)) && !(less(a, b) && less(b, a)) && !(same(a, b) && less(b, a)),
        less_eq(a, b) <==> less(a, b) || same(a, b),
        is_nan(a) || is_nan(b) ==> !less(a, b) && !same(a, b) && !less_eq(a, b),
{
}

/// The named constants are numbers, in the order `ZERO < ONE < MAX <
/// INFINITY`.
pub proof fn lemma_constants()
    ensures
        !is_nan(ZERO) && rank(ZERO) == 0,
        !is_nan(ONE) && rank(ONE) == 0x3f80_0000,
        !is_nan(MAX) && rank(MAX) == 0x7f7f_ffff,
        !is_nan(INFINITY) && rank(INFINITY) == 0x7f80_0000,
{
    assert(0u32 & 0x7fff_ffffu32 == 0) by (bit_vector);
    assert(0u32 & 0x8000_0000u32 == 0) by (bit_vector);
    assert(0x3f80_0000u32 & 0x7fff_ffffu32 == 0x3f80_0000u32) by (bit_vector);
    assert(0x3f80_0000u32 & 0x8000_0000u32 == 0) by (bit_vector);
    assert(0x7f7f_ffffu32 & 0x7fff_ffffu32 == 0x7f7f_ffffu32) by (bit_vector);
    assert(0x7f7f_ffffu32 & 0x8000_0000u32 == 0) by (bit_vector);
    assert(0x7f80_0000u32 & 0x7fff_ffffu32 == 0x7f80_0000u32) by (bit_vector);
    assert(0x7f80_0000u32 & 0x8000_0000u32 == 0) by (bit_vector);
}

/// Tells whether a pattern encodes no number.
pub fn nan(bits: u32) -> (r: bool)
    ensures
        r == is_nan(bits),
{
    (bits & MAGNITUDE_MASK) > INFINITY
}

/// Tells whether a pattern encodes zero, of either sign.
pub fn zero(bits: u32) -> (r: bool)
    ensures
        r == is_zero(bits),
{
    (bits & MAGNITUDE_MASK) == 0
}

/// Computes the rank of a pattern.
pub fn rank_of(bits: u32) -> (r: i64)
    ensures
        r == rank(bits),
        -0x7fff_ffff <= r <= 0x7fff_ffff,
{
    let m: u32 = bits & MAGNITUDE_MASK;
    assert(m <= 0x7fff_ffff) by (bit_vector)
        requires
            m == bits & 0x7fff_ffff,
    ;
    if bits & SIGN_MASK != 0 {
        -(m as i64)
    } else {
        m as i64
    }
}

/// Decides `a < b`.
pub fn lt(a: u32, b: u32) -> (r: bool)
    ensures
        r == less(a, b),
{
    !nan(a) && !nan(b) && rank_of(a) < rank_of(b)
}

/// Decides `a <= b`.
pub fn le(a: u32, b: u32) -> (r: bool)
    ensures
        r == less_eq(a, b),
{
    !nan(a) && !nan(b) && rank_of(a) <= rank_of(b)
}

/// Decides `a == b` on the encoded values.
pub fn eq(a: u32, b: u32) -> (r: bool)
    ensures
        r == same(a, b),
{
    !nan(a) && !nan(b) && rank_of(a) == rank_of(b)
}

/// The sign bit of a double-precision pattern.
pub const SIGN_MASK64: u64 = 0x8000_0000_0000_0000;

/// Every bit of a double-precision pattern but the sign.
pub const MAGNITUDE_MASK64: u64 = 0x7fff_ffff_ffff_ffff;

/// Positive infinity in double precision.
pub const INFINITY64: u64 = 0x7ff0_0000_0000_0000;

/// Whether the double-precision pattern encodes no number.
pub open spec fn is_nan64(bits: u64) -> bool {
    bits & MAGNITUDE_MASK64 > INFINITY64
}

/// The place of a double-precision number among all such numbers.
pub open spec fn rank64(bits: u64) -> int {
    if bits & SIGN_MASK64 != 0 {
        -((bits & MAGNITUDE_MASK64) as int)
    } else {
        (bits & MAGNITUDE_MASK64) as int
    }
}

/// `a < b` on the encoded double-precision values. False when either is not
/// a number.
pub open spec fn less64(a: u64, b: u64) -> bool {
    !is_nan64(a) && !is_nan64(b) && rank64(a) < rank64(b)
}

/// Computes the rank of a double-precision pattern.
pub fn rank_of64(bits: u64) -> (r: i64)
    ensures
        r == rank64(bits),
{
    let m: u64 = bits & MAGNITUDE_MASK64;
    assert(m <= 0x7fff_ffff_ffff_ffff) by (bit_vector)
        requires
            m == bits & 0x7fff_ffff_ffff_ffff,
    ;
    if bits & SIGN_MASK64 != 0 {
        -(m as i64)
    } else {
        m as i64
    }
}

/// Decides `a < b` in double precision.
pub fn lt64(a: u64, b: u64) -> (r: bool)
    ensures
        r == less64(a, b),
{
    (a & MAGNITUDE_MASK64) <= INFINITY64 && (b & MAGNITUDE_MASK64) <= INFINITY64 && rank_of64(a)
        < rank_of64(b)
}

} // verus!
