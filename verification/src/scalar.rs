use vstd::prelude::*;

verus! {

/// A number of the scene, held as its order key.
///
/// The key of a binary64 number is its bit pattern read as a signed
/// integer, with the patterns of negative numbers mirrored, so that two
/// keys compare as the numbers they stand for (see [`key_of`]). Zero has
/// the key `0`, whatever its sign. A value that is not a number has no
/// key. The library orders, selects and stores numbers; it never does
/// arithmetic on them.
pub type Scalar = i64;

/// The key of zero.
pub const ZERO: Scalar = 0;

/// The key of one.
pub const ONE: Scalar = 0x3FF0_0000_0000_0000;

/// The key of one half.
pub const HALF: Scalar = 0x3FE0_0000_0000_0000;

/// The key of positive infinity, above the key of every finite number.
pub const INFINITY: Scalar = 0x7FF0_0000_0000_0000;

/// The key of negative infinity, below the key of every finite number.
pub const NEG_INFINITY: Scalar = -0x7FF0_0000_0000_0001;

/// The smaller of two numbers.
pub open spec fn min_of(a: Scalar, b: Scalar) -> Scalar {
    if a < b {
        a
    } else {
        b
    }
}

/// The larger of two numbers.
pub open spec fn max_of(a: Scalar, b: Scalar) -> Scalar {
    if a > b {
        a
    } else {
        b
    }
}

/// `x` held to the closed range from `lo` to `hi`.
pub open spec fn clamp_of(x: Scalar, lo: Scalar, hi: Scalar) -> Scalar {
    if x < lo {
        lo
    } else if x > hi {
        hi
    } else {
        x
    }
}

pub fn fmin(a: Scalar, b: Scalar) -> (m: Scalar)
    ensures
        m == min_of(a, b),
{
    if a < b {
        a
    } else {
        b
    }
}

pub fn fmax(a: Scalar, b: Scalar) -> (m: Scalar)
    ensures
        m == max_of(a, b),
{
    if a > b {
        a
    } else {
        b
    }
}

/// Holds `x` to the range from `lo` to `hi`; below `lo` wins over above `hi`.
pub fn clamp(x: Scalar, lo: Scalar, hi: Scalar) -> (c: Scalar)
    ensures
        c == clamp_of(x, lo, hi),
        lo <= hi ==> lo <= c <= hi,
{
    if x < lo {
        lo
    } else if x > hi {
        hi
    } else {
        x
    }
}

/// The bit of the sign in a binary64 pattern.
pub const SIGN_BIT: u64 = 0x8000_0000_0000_0000;

/// The bits of the exponent in a binary64 pattern.
pub const EXPONENT_BITS: u64 = 0x7FF0_0000_0000_0000;

/// The bits of the fraction in a binary64 pattern.
pub const FRACTION_BITS: u64 = 0x000F_FFFF_FFFF_FFFF;

/// The pattern stands for a number: its exponent is not all ones, or its
/// fraction is zero.
pub open spec fn is_number(bits: u64) -> bool {
    (bits & EXPONENT_BITS) != EXPONENT_BITS || (bits & FRACTION_BITS) == 0
}

/// The key of the number with the given pattern: the pattern itself for
/// a number that is not negative; for a negative one the size counted
/// down from below zero, and zero for a negative zero.
pub open spec fn key_of(bits: u64) -> Scalar {
    if bits < SIGN_BIT {
        bits as Scalar
    } else if bits == SIGN_BIT {
        0
    } else {
        (-(bits - SIGN_BIT) - 1) as Scalar
    }
}

/// The pattern of the number with the given key.
pub open spec fn bits_of(key: Scalar) -> u64 {
    if key >= 0 {
        key as u64
    } else {
        (SIGN_BIT - (key + 1)) as u64
    }
}

/// The key of a binary64 pattern; `None` for a pattern that stands for
/// no number.
pub fn from_bits(bits: u64) -> (key: Option<Scalar>)
    ensures
        key == if is_number(bits) {
            Some(key_of(bits))
        } else {
            None
        },
{
    if (bits & EXPONENT_BITS) == EXPONENT_BITS && (bits & FRACTION_BITS) != 0 {
        return None;
    }
    if bits < SIGN_BIT {
        Some(bits as i64)
    } else if bits == SIGN_BIT {
        Some(ZERO)
    } else {
        let size: u64 = bits - SIGN_BIT;
        Some(-(size as i64) - 1)
    }
}

/// The binary64 pattern of a key.
pub fn to_bits(key: Scalar) -> (bits: u64)
    ensures
        bits == bits_of(key),
{
    if key >= 0 {
        key as u64
    } else {
        let size: u64 = (-(key + 1)) as u64;
        SIGN_BIT + size
    }
}

/// A pattern and its key stand for each other, but that negative zero
/// has the key of zero.
pub proof fn lemma_key_round_trip(bits: u64, key: Scalar)
    ensures
        bits != SIGN_BIT ==> bits_of(key_of(bits)) == bits,
        key != -1 ==> key_of(bits_of(key)) == key,
        key_of(SIGN_BIT) == key_of(0),
{
}

/// Among numbers that are not negative the keys are ordered as the
/// patterns, among negative ones against them, and every negative
/// number has a smaller key than every other.
pub proof fn lemma_key_order(a: u64, b: u64)
    ensures
        a < SIGN_BIT && b < SIGN_BIT ==> (key_of(a) < key_of(b) <==> a < b),
        a > SIGN_BIT && b > SIGN_BIT ==> (key_of(a) < key_of(b) <==> a > b),
        a > SIGN_BIT && b <= SIGN_BIT ==> key_of(a) < key_of(b),
{
}

/// The named keys are the keys of the patterns of their numbers.
pub proof fn lemma_named_keys()
    ensures
        key_of(0) == ZERO,
        key_of(0x3FF0_0000_0000_0000) == ONE,
        key_of(0x3FE0_0000_0000_0000) == HALF,
        key_of(0x7FF0_0000_0000_0000) == INFINITY,
        key_of(0xFFF0_0000_0000_0000) == NEG_INFINITY,
{
}

} // verus!
