//! Reading IEEE 754 binary64 bit patterns as fixed-point scores.
//!
//! A pattern holds a sign bit, an exponent field of eleven bits and a
//! fraction field of fifty-two. Where the exponent field is not all ones it
//! stands for the number `significand / 2^scale_down`, negated where the sign
//! bit is set. A score is that number in ten-thousandths, rounded to the
//! nearest integer, a half away from zero.

use vstd::prelude::*;

verus! {

/// Two to the power `k`.
pub open spec fn two_to(k: nat) -> int
    decreases k,
{
    if k == 0 {
        1
    } else {
        2 * two_to((k - 1) as nat)
    }
}

/// The sign bit of `bits`.
pub open spec fn sign_bit(bits: u64) -> int {
    bits as int / 0x8000_0000_0000_0000
}

/// The exponent field of `bits`.
pub open spec fn exponent_field(bits: u64) -> int {
    (bits as int / 0x10_0000_0000_0000) % 2048
}

/// The fraction field of `bits`.
pub open spec fn fraction_field(bits: u64) -> int {
    bits as int % 0x10_0000_0000_0000
}

/// Whether `bits` stands for a number: neither an infinity nor a NaN.
pub open spec fn is_finite(bits: u64) -> bool {
    exponent_field(bits) != 2047
}

/// The integer whose scaling gives the magnitude of `bits`.
pub open spec fn significand(bits: u64) -> int {
    if exponent_field(bits) == 0 {
        fraction_field(bits)
    } else {
        0x10_0000_0000_0000 + fraction_field(bits)
    }
}

/// The power of two by which the significand is divided; where it is
/// negative, the significand is multiplied.
pub open spec fn scale_down(bits: u64) -> int {
    if exponent_field(bits) == 0 {
        1074
    } else {
        1075 - exponent_field(bits)
    }
}

/// The magnitude of `bits` in ten-thousandths, rounded to the nearest
/// integer, a half upward.
pub open spec fn magnitude_units(bits: u64) -> int {
    let k = scale_down(bits);
    if k <= 0 {
        significand(bits) * two_to((-k) as nat) * 10000
    } else {
        (significand(bits) * 20000 + two_to(k as nat)) / two_to((k + 1) as nat)
    }
}

/// The number that `bits` stands for, in ten-thousandths, rounded to the
/// nearest integer, a half away from zero.
pub open spec fn signed_units(bits: u64) -> int {
    if sign_bit(bits) == 1 {
        -magnitude_units(bits)
    } else {
        magnitude_units(bits)
    }
}

/// Whether `bits` stands for a share: a number that, rounded, is between
/// `0` and `u32::MAX`.
pub open spec fn is_share(bits: u64) -> bool {
    is_finite(bits) && 0 <= signed_units(bits) <= u32::MAX
}

/// Whether `bits` stands for a ratio: a number that, rounded, is between
/// `0` and `10000`. A ratio is a share.
pub open spec fn is_ratio(bits: u64) -> bool {
    is_finite(bits) && 0 <= signed_units(bits) <= 10000
}

/// Whether `bits` stands for a compound score: a number that, rounded, is
/// between `-10000` and `10000`.
pub open spec fn is_compound(bits: u64) -> bool {
    is_finite(bits) && -10000 <= signed_units(bits) <= 10000
}

/// Powers of two are positive and grow with the exponent.
pub proof fn lemma_two_to_grows(a: nat, b: nat)
    requires
        a <= b,
    ensures
        0 < two_to(a) <= two_to(b),
    decreases b,
{
    if b == 0 {
    } else if a == b {
        lemma_two_to_grows(0, (b - 1) as nat);
    } else {
        lemma_two_to_grows(a, (b - 1) as nat);
    }
}

proof fn lemma_two_to_doubles(a: nat)
    ensures
        two_to(a + a) == two_to(a) * two_to(a),
        two_to(a + a + 1) == 2 * (two_to(a) * two_to(a)),
    decreases a,
{
    if a > 0 {
        lemma_two_to_doubles((a - 1) as nat);
        let p = two_to((a - 1) as nat);
        assert(two_to(a) == 2 * p);
        assert(two_to(a + a) == 2 * two_to((a + a - 1) as nat));
        assert(two_to((a + a - 1) as nat) == 2 * two_to(((a - 1) + (a - 1)) as nat));
        assert((2 * p) * (2 * p) == 4 * (p * p)) by (nonlinear_arith);
    }
}

proof fn lemma_two_to_values()
    ensures
        two_to(34) == 0x4_0000_0000,
        two_to(68) == 0x10_0000_0000_0000_0000,
{
    reveal_with_fuel(two_to, 9);
    assert(two_to(8) == 256);
    lemma_two_to_doubles(8);
    assert(two_to(17) == 2 * (256 * 256));
    lemma_two_to_doubles(17);
    assert(two_to(34) == 131072 * 131072);
    lemma_two_to_doubles(34);
    assert(0x4_0000_0000 * 0x4_0000_0000 == 0x10_0000_0000_0000_0000) by (nonlinear_arith);
}

/// The magnitude of `bits` in ten-thousandths, rounded, where `bits` stands
/// for a number and the rounded magnitude is at most `u32::MAX`.
pub fn rounded_magnitude(bits: u64) -> (r: Option<u32>)
    ensures
        r.is_some() <==> is_finite(bits) && magnitude_units(bits) <= u32::MAX,
        r.is_some() ==> r.unwrap() == magnitude_units(bits),
{
    let exponent: u64 = (bits / 0x10_0000_0000_0000) % 2048;
    let fraction: u64 = bits % 0x10_0000_0000_0000;
    if exponent == 2047 {
        return None;
    }
    let m: u128 = if exponent == 0 {
        fraction as u128
    } else {
        0x10_0000_0000_0000 + fraction as u128
    };
    proof {
        lemma_two_to_values();
    }
    if exponent >= 1042 {
        // The number is at least two to the nineteenth.
        proof {
            let k = scale_down(bits);
            if k <= 0 {
                lemma_two_to_grows(0, (-k) as nat);
                let t = two_to((-k) as nat);
                assert(m * t * 10000 > u32::MAX) by (nonlinear_arith)
                    requires
                        m >= 0x10_0000_0000_0000,
                        t >= 1,
                ;
            } else {
                lemma_two_to_grows((k + 1) as nat, 34);
                lemma_two_to_grows(0, k as nat);
                let d = two_to((k + 1) as nat);
                let x = m * 20000 + two_to(k as nat);
                assert(x / d > u32::MAX) by (nonlinear_arith)
                    requires
                        0 < d <= 0x4_0000_0000,
                        x >= 0x10_0000_0000_0000 * 20000,
                ;
            }
        }
        return None;
    }
    let k: u64 = if exponent == 0 {
        1074
    } else {
        1075 - exponent
    };
    if k >= 69 {
        proof {
            lemma_two_to_grows(68, k as nat);
            let d = two_to((k + 1) as nat);
            let x = m * 20000 + two_to(k as nat);
            assert(x / d == 0) by (nonlinear_arith)
                requires
                    0 <= x < d,
            ;
        }
        return Some(0);
    }
    let mut p: u128 = 1;
    let mut i: u64 = 0;
    while i < k
        invariant
            i <= k <= 68,
            p == two_to(i as nat),
            0 < p <= 0x10_0000_0000_0000_0000,
            two_to(68) == 0x10_0000_0000_0000_0000,
        decreases k - i,
    {
        proof {
            lemma_two_to_grows((i + 1) as nat, 68);
        }
        p = p * 2;
        i = i + 1;
    }
    let rounded: u128 = (m * 20000 + p) / (2 * p);
    if rounded > 0xffff_ffff {
        None
    } else {
        Some(rounded as u32)
    }
}

/// The number that `bits` stands for as a compound score, where it is one:
/// where `bits` stands for a number that, rounded, is between `-10000` and
/// `10000`.
pub fn compound_from_bits(bits: u64) -> (r: Option<i32>)
    ensures
        r.is_some() <==> is_compound(bits),
        r.is_some() ==> r.unwrap() == signed_units(bits),
{
    let negative: bool = bits / 0x8000_0000_0000_0000 == 1;
    match rounded_magnitude(bits) {
        Some(magnitude) => {
            if magnitude > 10000 {
                None
            } else if negative {
                Some(-(magnitude as i32))
            } else {
                Some(magnitude as i32)
            }
        },
        None => None,
    }
}

/// The number that `bits` stands for as a share, where it is one: where
/// `bits` stands for a number that, rounded, is between `0` and `u32::MAX`.
pub fn share_from_bits(bits: u64) -> (r: Option<u32>)
    ensures
        r.is_some() <==> is_share(bits),
        r.is_some() ==> r.unwrap() == signed_units(bits),
{
    let negative: bool = bits / 0x8000_0000_0000_0000 == 1;
    match rounded_magnitude(bits) {
        Some(magnitude) => {
            if negative && magnitude != 0 {
                None
            } else {
                Some(magnitude)
            }
        },
        None => None,
    }
}

} // verus!
