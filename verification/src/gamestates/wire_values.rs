use vstd::prelude::*;
use vstd::arithmetic::power2::{
    lemma2_to64, lemma_pow2_pos, lemma_pow2_strictly_increases, lemma_pow2_unfold, pow2,
};

verus! {

// The game sends 32-bit floats. Their bit patterns are read here with the
// conversions the state decoding applies to them: a cast to an integer
// (truncating toward zero, saturating at the integer type's bounds, `0` for
// NaN), a test for being greater than zero, and an order key for positions.

/// Biased exponent of a 32-bit float (bits 23 to 30).
pub open spec fn spec_exponent(bits: u32) -> int {
    (bits as int / 0x80_0000) % 256
}

/// Fraction of a 32-bit float (bits 0 to 22).
pub open spec fn spec_fraction(bits: u32) -> int {
    bits as int % 0x80_0000
}

/// Whether the sign bit is set.
pub open spec fn spec_sign(bits: u32) -> bool {
    bits >= 0x8000_0000
}

/// Whether the float is a NaN.
pub open spec fn spec_is_nan(bits: u32) -> bool {
    spec_exponent(bits) == 255 && spec_fraction(bits) != 0
}

/// The magnitude of a finite float's value rounded toward zero: `0` below
/// one, else the significand `1.fraction` scaled by its exponent. (For an
/// infinity this is a value far beyond any integer bound.)
pub open spec fn spec_trunc_magnitude(bits: u32) -> nat {
    let e = spec_exponent(bits);
    let significand = 0x80_0000 + spec_fraction(bits);
    if e < 127 {
        0
    } else if e < 150 {
        (significand / (pow2((150 - e) as nat) as int)) as nat
    } else {
        (significand * pow2((e - 150) as nat)) as nat
    }
}

/// The float cast to an integer type with bounds `lo..=hi`: NaN gives `0`,
/// other values are truncated toward zero and saturate at the bounds.
pub open spec fn spec_cast_to(bits: u32, lo: int, hi: int) -> int {
    if spec_is_nan(bits) {
        0
    } else if spec_sign(bits) {
        if spec_trunc_magnitude(bits) > -lo {
            lo
        } else {
            -spec_trunc_magnitude(bits)
        }
    } else if spec_trunc_magnitude(bits) > hi {
        hi
    } else {
        spec_trunc_magnitude(bits) as int
    }
}

/// Whether the float is greater than zero: a positive, nonzero value that is
/// not NaN.
pub open spec fn spec_is_positive(bits: u32) -> bool {
    !spec_sign(bits) && bits != 0 && !spec_is_nan(bits)
}

/// The order key of a float: its magnitude bits, negated for negative
/// values, so both zeros have the key `0`.
pub open spec fn spec_order_key(bits: u32) -> i64 {
    let magnitude = bits as int % 0x8000_0000;
    if spec_sign(bits) {
        (-magnitude) as i64
    } else {
        magnitude as i64
    }
}

/// `2` to the power `k`.
fn pow2_u128(k: u32) -> (p: u128)
    requires
        k <= 64,
    ensures
        p == pow2(k as nat),
{
    proof {
        lemma2_to64();
    }
    let mut p: u128 = 1;
    let mut i: u32 = 0;
    while i < k
        invariant
            i <= k <= 64,
            p == pow2(i as nat),
            pow2(64) == 0x1_0000_0000_0000_0000,
        decreases k - i,
    {
        proof {
            lemma_pow2_unfold((i + 1) as nat);
            if i < 64 {
                lemma_pow2_strictly_increases(i as nat, 64);
            }
        }
        p = p * 2;
        i = i + 1;
    }
    p
}

/// The magnitude of the value rounded toward zero, for exponents that keep
/// it below `2^65`.
fn trunc_magnitude(bits: u32) -> (r: u128)
    requires
        spec_exponent(bits) < 192,
    ensures
        r == spec_trunc_magnitude(bits),
{
    let e: u32 = (bits / 0x80_0000) % 256;
    let significand: u128 = 0x80_0000 + (bits % 0x80_0000) as u128;
    if e < 127 {
        0
    } else if e < 150 {
        let p = pow2_u128(150 - e);
        proof {
            lemma_pow2_pos((150 - e) as nat);
        }
        significand / p
    } else {
        let p = pow2_u128(e - 150);
        proof {
            lemma2_to64();
            if e - 150 < 41 {
                lemma_pow2_strictly_increases((e - 150) as nat, 41);
            }
            assert(pow2(41) == 2 * pow2(40)) by {
                lemma_pow2_unfold(41);
            }
            assert(pow2(40) == 0x100_0000_0000) by {
                lemma_pow2_unfold(40);
                lemma_pow2_unfold(39);
                lemma_pow2_unfold(38);
                lemma_pow2_unfold(37);
                lemma_pow2_unfold(36);
                lemma_pow2_unfold(35);
                lemma_pow2_unfold(34);
                lemma_pow2_unfold(33);
            }
            assert(significand * p <= 0x100_0000 * 0x200_0000_0000) by (nonlinear_arith)
                requires
                    significand < 0x100_0000,
                    p <= 0x200_0000_0000,
            ;
        }
        significand * p
    }
}

/// A float cast to `i32` (`as i32`): truncated toward zero, saturating, `0`
/// for NaN.
pub fn f32_bits_to_i32(bits: u32) -> (r: i32)
    ensures
        r == spec_cast_to(bits, i32::MIN as int, i32::MAX as int),
{
    let e: u32 = (bits / 0x80_0000) % 256;
    let negative = bits >= 0x8000_0000;
    if e == 255 && bits % 0x80_0000 != 0 {
        return 0;
    }
    if e >= 159 {
        proof {
            lemma_magnitude_at_least(bits, 32);
            lemma2_to64();
        }
        return if negative {
            i32::MIN
        } else {
            i32::MAX
        };
    }
    let magnitude = trunc_magnitude(bits);
    if negative {
        if magnitude > 0x8000_0000 {
            i32::MIN
        } else {
            (0 - magnitude as i64) as i32
        }
    } else if magnitude > 0x7fff_ffff {
        i32::MAX
    } else {
        magnitude as i32
    }
}

/// A float cast to `i64` (`as i64`): truncated toward zero, saturating, `0`
/// for NaN.
pub fn f32_bits_to_i64(bits: u32) -> (r: i64)
    ensures
        r == spec_cast_to(bits, i64::MIN as int, i64::MAX as int),
{
    let e: u32 = (bits / 0x80_0000) % 256;
    let negative = bits >= 0x8000_0000;
    if e == 255 && bits % 0x80_0000 != 0 {
        return 0;
    }
    if e >= 191 {
        proof {
            lemma_magnitude_at_least(bits, 64);
            lemma2_to64();
        }
        return if negative {
            i64::MIN
        } else {
            i64::MAX
        };
    }
    let magnitude = trunc_magnitude(bits);
    if negative {
        if magnitude > 0x8000_0000_0000_0000 {
            i64::MIN
        } else {
            (0 - magnitude as i128) as i64
        }
    } else if magnitude > 0x7fff_ffff_ffff_ffff {
        i64::MAX
    } else {
        magnitude as i64
    }
}

/// From exponent `127 + k` on, the magnitude is at least `2^k`.
proof fn lemma_magnitude_at_least(bits: u32, k: nat)
    requires
        23 <= k,
        spec_exponent(bits) >= 127 + k,
    ensures
        spec_trunc_magnitude(bits) >= pow2(k),
{
    let e = spec_exponent(bits);
    let shift = (e - 150) as nat;
    let significand = 0x80_0000 + spec_fraction(bits);
    lemma2_to64();
    if shift > (k - 23) as nat {
        lemma_pow2_strictly_increases((k - 23) as nat, shift);
    }
    vstd::arithmetic::power2::lemma_pow2_adds(23, (k - 23) as nat);
    assert(significand * pow2(shift) >= pow2(23) * pow2((k - 23) as nat)) by (nonlinear_arith)
        requires
            significand >= pow2(23),
            pow2(shift) >= pow2((k - 23) as nat),
            pow2(23) > 0,
    ;
}

/// Whether the float is greater than zero (`> 0.`).
pub fn f32_bits_positive(bits: u32) -> (r: bool)
    ensures
        r == spec_is_positive(bits),
{
    let nan = (bits / 0x80_0000) % 256 == 255 && bits % 0x80_0000 != 0;
    bits < 0x8000_0000 && bits != 0 && !nan
}

/// The order key of a float: keys compare as the (non-NaN) floats do, and
/// both zeros have the key `0`.
pub fn f32_order_key(bits: u32) -> (k: i64)
    ensures
        k == spec_order_key(bits),
{
    let magnitude = (bits % 0x8000_0000) as i64;
    if bits >= 0x8000_0000 {
        -magnitude
    } else {
        magnitude
    }
}

/// Whether an order key is that of a NaN: NaN bit patterns are exactly those
/// whose magnitude lies above that of infinity, `0x7F80_0000`.
pub open spec fn spec_key_is_nan(k: i64) -> bool {
    k > 0x7F80_0000 || k < -0x7F80_0000
}

/// The key of a float marks a NaN exactly when the float is one.
pub proof fn lemma_key_nan_iff(bits: u32)
    ensures
        spec_key_is_nan(spec_order_key(bits)) == spec_is_nan(bits),
{
    assert(bits % 0x8000_0000 == ((bits / 0x80_0000) % 256) * 0x80_0000 + bits % 0x80_0000)
        by (bit_vector);
    assert((bits / 0x80_0000) % 256 < 256 && bits % 0x80_0000 < 0x80_0000) by (bit_vector);
}

/// `a > b` for the floats whose keys these are: false where either is NaN.
pub open spec fn spec_key_gt(a: i64, b: i64) -> bool {
    !spec_key_is_nan(a) && !spec_key_is_nan(b) && a > b
}

/// `a >= b` for the floats whose keys these are: false where either is NaN.
pub open spec fn spec_key_ge(a: i64, b: i64) -> bool {
    !spec_key_is_nan(a) && !spec_key_is_nan(b) && a >= b
}

/// `a > b` for the floats whose keys these are: false where either is NaN.
pub fn key_gt(a: i64, b: i64) -> (r: bool)
    ensures
        r == spec_key_gt(a, b),
{
    let a_nan = a > 0x7F80_0000 || a < -0x7F80_0000;
    let b_nan = b > 0x7F80_0000 || b < -0x7F80_0000;
    !a_nan && !b_nan && a > b
}

/// `a >= b` for the floats whose keys these are: false where either is NaN.
pub fn key_ge(a: i64, b: i64) -> (r: bool)
    ensures
        r == spec_key_ge(a, b),
{
    let a_nan = a > 0x7F80_0000 || a < -0x7F80_0000;
    let b_nan = b > 0x7F80_0000 || b < -0x7F80_0000;
    !a_nan && !b_nan && a >= b
}

} // verus!
