//! Match scores.
//!
//! A score is a single-precision IEEE 754 number, held as its 32-bit pattern:
//! one sign bit, eight exponent bits, twenty-three fraction bits. What a
//! pattern stands for is stated here as an exact integer, the represented
//! magnitude in units of 2^-149, and the comparisons are proved to order
//! scores by that number.

use vstd::arithmetic::power2::{lemma_pow2_pos, lemma_pow2_strictly_increases, lemma_pow2_unfold, pow2};
use vstd::prelude::*;

verus! {

/// The pattern's sign bit.
pub const SIGN_BIT: u32 = 0x8000_0000;

/// The magnitude bits of infinity; every larger magnitude is a NaN.
pub const INFINITY_BITS: u32 = 0x7f80_0000;

/// Two to the number of fraction bits.
pub const FRACTION_RANGE: u32 = 0x0080_0000;

/// The bits of 0.75, the confidence a match needs by default.
pub const MIN_SCORE_BITS: u32 = 0x3f40_0000;

/// The bits of 1.0, the score of a window that equals the template.
pub const FULL_SCORE_BITS: u32 = 0x3f80_0000;

/// The magnitude that the 31 bits `m` stand for, in units of 2^-149: the
/// fraction alone for a subnormal, the fraction with its leading one shifted
/// by the exponent otherwise. Infinity gets the value that the next exponent
/// would have, above every finite magnitude.
pub open spec fn scaled_magnitude(m: nat) -> nat {
    let exponent = m / (FRACTION_RANGE as nat);
    let fraction = m % (FRACTION_RANGE as nat);
    if exponent == 0 {
        fraction
    } else {
        ((FRACTION_RANGE + fraction) * pow2((exponent - 1) as nat)) as nat
    }
}

/// A larger bit pattern stands for a larger magnitude.
pub proof fn lemma_scaled_magnitude_increases(a: nat, b: nat)
    requires
        a < b,
    ensures
        scaled_magnitude(a) < scaled_magnitude(b),
{
    let r = FRACTION_RANGE as nat;
    let (ea, fa) = (a / r, a % r);
    let (eb, fb) = (b / r, b % r);
    vstd::arithmetic::div_mod::lemma_fundamental_div_mod(a as int, r as int);
    vstd::arithmetic::div_mod::lemma_fundamental_div_mod(b as int, r as int);
    assert(ea <= eb) by {
        vstd::arithmetic::div_mod::lemma_div_is_ordered(a as int, b as int, r as int);
    }
    if ea == eb {
        assert(fa < fb);
        if ea > 0 {
            let p = pow2((ea - 1) as nat);
            lemma_pow2_pos((ea - 1) as nat);
            assert((r + fa) * p < (r + fb) * p) by (nonlinear_arith)
                requires
                    fa < fb,
                    p > 0,
            ;
        }
    } else {
        let q = pow2((eb - 1) as nat);
        lemma_pow2_pos((eb - 1) as nat);
        assert(r * q <= (r + fb) * q) by (nonlinear_arith)
            requires
                fb >= 0,
                q > 0,
        ;
        assert(r <= r * q) by (nonlinear_arith)
            requires
                r > 0,
                q >= 1,
        ;
        if ea > 0 {
            let p = pow2((ea - 1) as nat);
            lemma_pow2_pos((ea - 1) as nat);
            lemma_pow2_unfold(ea);
            assert((r + fa) * p < r * (2 * p)) by (nonlinear_arith)
                requires
                    fa < r,
                    p > 0,
            ;
            if ea < eb - 1 {
                lemma_pow2_strictly_increases(ea, (eb - 1) as nat);
            }
            assert(r * pow2(ea) <= r * q) by (nonlinear_arith)
                requires
                    pow2(ea) <= q,
                    r > 0,
            ;
        }
    }
}

/// A match score, as the bits of a single-precision number.
#[derive(Debug, Clone, Copy, PartialEq, Eq, Structural)]
pub struct Score {
    pub bits: u32,
}

impl Score {
    /// The sign bit is set.
    pub open spec fn negative(&self) -> bool {
        self.bits >= SIGN_BIT
    }

    /// The pattern without its sign bit.
    pub open spec fn magnitude_bits(&self) -> nat {
        if self.bits >= SIGN_BIT {
            (self.bits - SIGN_BIT) as nat
        } else {
            self.bits as nat
        }
    }

    /// The pattern stands for no number.
    pub open spec fn spec_is_nan(&self) -> bool {
        self.magnitude_bits() > INFINITY_BITS
    }

    /// The number that the pattern stands for, in units of 2^-149. Both zeros
    /// are 0. For a NaN it has no meaning.
    pub open spec fn value(&self) -> int {
        if self.negative() {
            -(scaled_magnitude(self.magnitude_bits()) as int)
        } else {
            scaled_magnitude(self.magnitude_bits()) as int
        }
    }

    /// `self >= other` as IEEE 754 has it: both are numbers and `self` is not
    /// the smaller one.
    pub open spec fn spec_at_least(&self, other: Score) -> bool {
        &&& !self.is_nan()
        &&& !other.is_nan()
        &&& self.value() >= other.value()
    }

    /// `self > other` as IEEE 754 has it: both are numbers and `self` is the
    /// larger one.
    pub open spec fn spec_greater_than(&self, other: Score) -> bool {
        &&& !self.is_nan()
        &&& !other.is_nan()
        &&& self.value() > other.value()
    }

    /// `self == other` as IEEE 754 has it: both are numbers, and the same one.
    pub open spec fn same_number(&self, other: Score) -> bool {
        &&& !self.is_nan()
        &&& !other.is_nan()
        &&& self.value() == other.value()
    }

    /// The signed integer by which two patterns compare as their numbers do.
    pub open spec fn spec_rank(&self) -> i64 {
        if self.negative() {
            (-(self.magnitude_bits() as int)) as i64
        } else {
            self.magnitude_bits() as i64
        }
    }

    /// The score with the given bit pattern.
    pub fn from_bits(bits: u32) -> (s: Self)
        ensures
            s.bits == bits,
    {
        Self { bits }
    }

    /// The score's bit pattern.
    pub fn to_bits(&self) -> (bits: u32)
        ensures
            bits == self.bits,
    {
        self.bits
    }

    /// Whether the pattern stands for no number.
    #[verifier::when_used_as_spec(spec_is_nan)]
    pub fn is_nan(&self) -> (b: bool)
        ensures
            b == self.is_nan(),
    {
        if self.bits >= SIGN_BIT {
            self.bits - SIGN_BIT > INFINITY_BITS
        } else {
            self.bits > INFINITY_BITS
        }
    }

    /// The signed integer by which two patterns compare as their numbers do.
    #[verifier::when_used_as_spec(spec_rank)]
    pub fn rank(&self) -> (k: i64)
        ensures
            k == self.rank(),
    {
        if self.bits >= SIGN_BIT {
            -((self.bits - SIGN_BIT) as i64)
        } else {
            self.bits as i64
        }
    }

    /// Whether `self >= other`; no NaN is at least, or at most, anything.
    #[verifier::when_used_as_spec(spec_at_least)]
    pub fn at_least(&self, other: Score) -> (b: bool)
        ensures
            b == self.at_least(other),
    {
        proof {
            self.lemma_rank_orders(other);
        }
        !self.is_nan() && !other.is_nan() && self.rank() >= other.rank()
    }

    /// Whether `self > other`; no NaN is greater, or smaller, than anything.
    #[verifier::when_used_as_spec(spec_greater_than)]
    pub fn greater_than(&self, other: Score) -> (b: bool)
        ensures
            b == self.greater_than(other),
    {
        proof {
            self.lemma_rank_orders(other);
        }
        !self.is_nan() && !other.is_nan() && self.rank() > other.rank()
    }

    /// Ranks compare as the numbers do.
    pub proof fn lemma_rank_orders(&self, other: Score)
        ensures
            self.rank() >= other.rank() <==> self.value() >= other.value(),
            self.rank() > other.rank() <==> self.value() > other.value(),
    {
        let a = self.magnitude_bits();
        let b = other.magnitude_bits();
        assert(scaled_magnitude(0) == 0);
        if a < b {
            lemma_scaled_magnitude_increases(a, b);
        }
        if b < a {
            lemma_scaled_magnitude_increases(b, a);
        }
        if 0 < a {
            lemma_scaled_magnitude_increases(0, a);
        }
        if 0 < b {
            lemma_scaled_magnitude_increases(0, b);
        }
    }

    /// A score that equals the threshold passes it: the comparison includes
    /// its bound.
    pub proof fn lemma_threshold_inclusive(&self, threshold: Score)
        requires
            self.same_number(threshold),
        ensures
            self.at_least(threshold),
    {
    }
}

/// The default confidence threshold, 0.75.
pub fn min_score() -> (s: Score)
    ensures
        s.bits == MIN_SCORE_BITS,
{
    Score { bits: MIN_SCORE_BITS }
}

/// The default threshold is three quarters of a full score.
pub proof fn lemma_min_score_is_three_quarters()
    ensures
        !(Score { bits: MIN_SCORE_BITS }).is_nan(),
        4 * (Score { bits: MIN_SCORE_BITS }).value() == 3 * (Score { bits: FULL_SCORE_BITS }).value(),
        (Score { bits: FULL_SCORE_BITS }).value() == pow2(149),
{
    let r = FRACTION_RANGE as nat;
    assert(MIN_SCORE_BITS as nat / r == 126 && MIN_SCORE_BITS as nat % r == 0x40_0000);
    assert(FULL_SCORE_BITS as nat / r == 127 && FULL_SCORE_BITS as nat % r == 0);
    lemma_pow2_unfold(126);
    vstd::arithmetic::power2::lemma2_to64();
    vstd::arithmetic::power2::lemma_pow2_adds(23, 126);
    let p = pow2(125);
    assert(4 * ((r + 0x40_0000) * p) == 3 * (r * (2 * p))) by (nonlinear_arith)
        requires
            r == 0x80_0000,
    ;
}

} // verus!
