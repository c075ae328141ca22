//! Single-precision numbers by their IEEE 754 bit patterns.
//!
//! The library handles vector entries as `u32` bit patterns. What a pattern
//! stands for is read off its sign bit and its magnitude, the other 31 bits:
//! magnitudes order as the numbers do, infinity is the magnitude `0x7f80_0000`,
//! and everything above that is not a number.
use vstd::prelude::*;

verus! {

/// The lowest pattern with the sign bit set: minus zero.
pub const SIGN: u32 = 0x8000_0000;

/// The pattern of positive infinity.
pub const INFINITY: u32 = 0x7f80_0000;

/// The magnitude of `bits`: the pattern without its sign bit.
pub open spec fn magnitude(bits: u32) -> int {
    if bits < SIGN {
        bits as int
    } else {
        bits - SIGN
    }
}

/// An integer that orders patterns of numbers as the numbers are ordered; the
/// two zeros share theirs.
pub open spec fn rank(bits: u32) -> int {
    if bits < SIGN {
        magnitude(bits)
    } else {
        -magnitude(bits)
    }
}

/// `bits` stands for a number that is neither infinite nor "not a number".
pub open spec fn finite(bits: u32) -> bool {
    magnitude(bits) < INFINITY
}

/// `bits` is one of the "not a number" patterns.
pub open spec fn nan(bits: u32) -> bool {
    magnitude(bits) > INFINITY
}

/// The number `a` is less than the number `b`; never so when one is "not a number".
pub open spec fn less(a: u32, b: u32) -> bool {
    !nan(a) && !nan(b) && rank(a) < rank(b)
}

/// The exponent field of `bits`.
pub open spec fn exponent(bits: u32) -> int {
    (bits as int / 0x80_0000) % 0x100
}

/// The fraction field of `bits`.
pub open spec fn fraction(bits: u32) -> int {
    bits as int % 0x80_0000
}

/// The number that `bits` stands for, in units of 2 to the power of -149, which
/// every finite number is a whole multiple of.
pub open spec fn number(bits: u32) -> int {
    let size = if exponent(bits) == 0 {
        fraction(bits)
    } else {
        (0x80_0000 + fraction(bits)) * vstd::arithmetic::power2::pow2((exponent(bits) - 1) as nat)
    };
    if bits < 0x8000_0000 {
        size
    } else {
        -size
    }
}

/// A pattern with a larger magnitude stands for a number of larger size.
proof fn lemma_number_grows(a: u32, b: u32)
    requires
        a < b < 0x8000_0000,
    ensures
        0 <= number(a) < number(b),
{
    lemma_fields(a);
    lemma_fields(b);
    let (x, y) = (exponent(a), exponent(b));
    let (f, g) = (fraction(a), fraction(b));
    assert(a == x * 0x80_0000 + f);
    assert(b == y * 0x80_0000 + g);
    if x == y {
        if x > 0 {
            let p = vstd::arithmetic::power2::pow2((x - 1) as nat) as int;
            assert((0x80_0000 + f) * p < (0x80_0000 + g) * p) by (nonlinear_arith)
                requires
                    f < g,
                    p > 0,
            ;
            assert(0 <= (0x80_0000 + f) * p) by (nonlinear_arith)
                requires
                    0 <= f,
                    p > 0,
            ;
        }
    } else {
        assert(x < y);
        let q = vstd::arithmetic::power2::pow2((y - 1) as nat) as int;
        assert((0x80_0000 + g) * q >= 0x80_0000 * q) by (nonlinear_arith)
            requires
                0 <= g,
                q > 0,
        ;
        if x > 0 {
            let p = vstd::arithmetic::power2::pow2((x - 1) as nat) as int;
            vstd::arithmetic::power2::lemma_pow2_unfold(x as nat);
            if x < y - 1 {
                vstd::arithmetic::power2::lemma_pow2_strictly_increases(x as nat, (y - 1) as nat);
            }
            assert(2 * p <= q);
            assert(0 <= (0x80_0000 + f) * p < 0x80_0000 * q) by (nonlinear_arith)
                requires
                    0 <= f < 0x80_0000,
                    p > 0,
                    2 * p <= q,
            ;
        }
    }
}

/// The ranges of the fields, and the sign of the number.
proof fn lemma_fields(bits: u32)
    ensures
        exponent(bits) > 0 ==> vstd::arithmetic::power2::pow2((exponent(bits) - 1) as nat) > 0,
        0 <= exponent(bits) < 0x100,
        0 <= fraction(bits) < 0x80_0000,
        bits < 0x8000_0000 ==> number(bits) >= 0,
        bits >= 0x8000_0000 ==> number(bits) <= 0,
{
    if exponent(bits) > 0 {
        let p = vstd::arithmetic::power2::pow2((exponent(bits) - 1) as nat) as int;
        vstd::arithmetic::power2::lemma_pow2_pos((exponent(bits) - 1) as nat);
        assert((0x80_0000 + fraction(bits)) * p >= 0) by (nonlinear_arith)
            requires
                fraction(bits) >= 0,
                p > 0,
        ;
    }
}

/// What a pattern is, by its fields: it stands for a finite number unless the
/// exponent has all bits set, and is "not a number" where the fraction is not
/// zero besides. The sign, and the size of the number, have no part in it.
pub proof fn law_pattern_classes(bits: u32)
    ensures
        finite(bits) <==> exponent(bits) != 0xff,
        nan(bits) <==> exponent(bits) == 0xff && fraction(bits) != 0,
{
}

/// Patterns are compared as the numbers that they stand for; infinity is above
/// every finite number and minus infinity below it, and a pattern that is "not
/// a number" is never less, nor is anything less than it.
pub proof fn law_less_compares_numbers(a: u32, b: u32)
    ensures
        finite(a) && finite(b) ==> (less(a, b) <==> number(a) < number(b)),
        finite(a) && b == 0x7f80_0000 ==> less(a, b) && !less(b, a),
        finite(a) && b == 0xff80_0000 ==> less(b, a) && !less(a, b),
        less(0xff80_0000, 0x7f80_0000),
        nan(a) || nan(b) ==> !less(a, b),
        !less(a, a),
{
    lemma_fields(a);
    lemma_fields(b);
    let (x, y) = (magnitude(a) as u32, magnitude(b) as u32);
    if finite(a) && finite(b) {
        lemma_number_of_magnitude(a);
        lemma_number_of_magnitude(b);
        if x < y {
            lemma_number_grows(x, y);
        } else if y < x {
            lemma_number_grows(y, x);
        }
        if 0 < x {
            lemma_number_grows(0, x);
        }
        if 0 < y {
            lemma_number_grows(0, y);
        }
        assert(number(0) == 0);
    }
}

proof fn lemma_number_of_magnitude(bits: u32)
    ensures
        number(bits) == if bits < 0x8000_0000 {
            number(magnitude(bits) as u32)
        } else {
            -number(magnitude(bits) as u32)
        },
{
    let m = magnitude(bits) as u32;
    assert(exponent(m) == exponent(bits));
    assert(fraction(m) == fraction(bits));
}

fn magnitude_of(bits: u32) -> (m: u32)
    ensures
        m == magnitude(bits),
{
    if bits < SIGN {
        bits
    } else {
        bits - SIGN
    }
}

/// Whether `bits` stands for a finite number.
pub fn is_finite(bits: u32) -> (r: bool)
    ensures
        r == finite(bits),
{
    magnitude_of(bits) < INFINITY
}

/// Whether the number `a` is less than the number `b`.
pub fn is_less(a: u32, b: u32) -> (r: bool)
    ensures
        r == less(a, b),
{
    let x: u32 = magnitude_of(a);
    let y: u32 = magnitude_of(b);
    if x > INFINITY || y > INFINITY {
        false
    } else if a < SIGN {
        b < SIGN && x < y
    } else if b < SIGN {
        x > 0 || y > 0
    } else {
        y < x
    }
}

} // verus!
