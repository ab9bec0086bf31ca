//! Numbers as the parsers hand them over: double-precision values held by
//! their IEEE 754 bit pattern. Nothing here computes with them as reals; the
//! library only compares magnitudes and flips signs, which the pattern allows
//! exactly.

use vstd::arithmetic::power2::{
    lemma_pow2_adds, lemma_pow2_pos, lemma_pow2_strictly_increases, pow2,
};
use vstd::prelude::*;

verus! {

/// The bit that holds the sign.
pub const SIGN_BIT: u64 = 0x8000_0000_0000_0000u64;

/// The bits that hold exponent and fraction.
pub const MAGNITUDE_MASK: u64 = 0x7fff_ffff_ffff_ffffu64;

/// A double-precision number, held by its bit pattern: one sign bit, eleven
/// exponent bits, fifty-two fraction bits.
#[derive(Clone, Copy, Debug, PartialEq, Eq, Structural)]
pub struct Number {
    pub bits: u64,
}

impl Number {
    /// Positive zero.
    pub fn zero() -> (n: Number)
        ensures
            n.bits == 0,
    {
        Number { bits: 0 }
    }

    /// The pattern with the sign cleared: that of the absolute value.
    pub open spec fn magnitude_bits(self) -> u64 {
        self.bits & MAGNITUDE_MASK
    }

    /// The absolute value.
    pub fn abs(self) -> (n: Number)
        ensures
            n.bits == self.magnitude_bits(),
    {
        Number { bits: self.bits & MAGNITUDE_MASK }
    }

    /// The number with the opposite sign.
    pub fn negated(self) -> (n: Number)
        ensures
            n.bits == self.bits ^ SIGN_BIT,
            n.magnitude_bits() == self.magnitude_bits(),
    {
        let bits = self.bits;
        assert((bits ^ 0x8000_0000_0000_0000u64) & 0x7fff_ffff_ffff_ffffu64 == bits
            & 0x7fff_ffff_ffff_ffffu64) by (bit_vector);
        Number { bits: self.bits ^ SIGN_BIT }
    }
}

/// The eleven exponent bits of a pattern.
pub open spec fn exponent_field(bits: u64) -> nat {
    ((bits >> 52) & 0x7ff) as nat
}

/// The fifty-two fraction bits of a pattern.
pub open spec fn fraction_field(bits: u64) -> nat {
    (bits & 0x000f_ffff_ffff_ffffu64) as nat
}

impl Number {
    /// Whether the pattern is that of a finite number: neither an infinity
    /// nor a NaN.
    pub open spec fn finite(self) -> bool {
        exponent_field(self.bits) != 0x7ff
    }

    /// The absolute value of a finite number, as the natural number of
    /// steps of `2^-1074` that it measures: the fraction itself for a
    /// subnormal pattern, else the fraction with its leading one, shifted by
    /// the exponent.
    pub open spec fn scaled_magnitude(self) -> nat {
        let e = exponent_field(self.bits);
        let f = fraction_field(self.bits);
        if e == 0 {
            f
        } else {
            (pow2(52) + f) * pow2((e - 1) as nat)
        }
    }

    /// Whether the pattern is that of a finite number.
    pub fn is_finite(self) -> (r: bool)
        ensures
            r == self.finite(),
    {
        (self.bits >> 52) & 0x7ff != 0x7ff
    }
}

/// The pattern of a magnitude is its exponent field times `2^52` plus its
/// fraction field, and the sign takes no part in either field.
proof fn lemma_fields(bits: u64)
    ensures
        (bits & MAGNITUDE_MASK) == exponent_field(bits) * 0x10_0000_0000_0000 + fraction_field(
            bits,
        ),
        exponent_field(bits) <= 0x7ff,
        fraction_field(bits) < 0x10_0000_0000_0000,
        exponent_field(bits & MAGNITUDE_MASK) == exponent_field(bits),
        fraction_field(bits & MAGNITUDE_MASK) == fraction_field(bits),
{
    assert((bits & 0x7fff_ffff_ffff_ffffu64) == ((bits >> 52) & 0x7ff) * 0x10_0000_0000_0000u64 + (
    bits & 0x000f_ffff_ffff_ffffu64)) by (bit_vector);
    assert(((bits >> 52) & 0x7ff) <= 0x7ff) by (bit_vector);
    assert((bits & 0x000f_ffff_ffff_ffffu64) < 0x10_0000_0000_0000u64) by (bit_vector);
    assert((((bits & 0x7fff_ffff_ffff_ffffu64) >> 52) & 0x7ff) == ((bits >> 52) & 0x7ff))
        by (bit_vector);
    assert(((bits & 0x7fff_ffff_ffff_ffffu64) & 0x000f_ffff_ffff_ffffu64) == (bits
        & 0x000f_ffff_ffff_ffffu64)) by (bit_vector);
}

/// Comparing two numbers by the patterns of their absolute values is
/// comparing their absolute values: the smaller pattern measures no more
/// steps, and a strictly smaller pattern strictly fewer.
pub proof fn lemma_magnitude_order(a: Number, b: Number)
    ensures
        a.magnitude_bits() <= b.magnitude_bits() ==> a.scaled_magnitude() <= b.scaled_magnitude(),
        a.magnitude_bits() < b.magnitude_bits() ==> a.scaled_magnitude() < b.scaled_magnitude(),
{
    lemma_fields(a.bits);
    lemma_fields(b.bits);
    vstd::arithmetic::power2::lemma2_to64();
    vstd::arithmetic::power2::lemma2_to64_rest();
    let ea = exponent_field(a.bits);
    let fa = fraction_field(a.bits);
    let eb = exponent_field(b.bits);
    let fb = fraction_field(b.bits);
    let half = pow2(52);
    assert(half == 0x10_0000_0000_0000);
    if a.magnitude_bits() <= b.magnitude_bits() {
        assert(ea <= eb) by (nonlinear_arith)
            requires
                ea * 0x10_0000_0000_0000 + fa <= eb * 0x10_0000_0000_0000 + fb,
                fa < 0x10_0000_0000_0000,
                fb < 0x10_0000_0000_0000,
        ;
        if ea == eb {
            assert(fa <= fb);
            assert(a.magnitude_bits() < b.magnitude_bits() ==> fa < fb);
            if ea > 0 {
                let p = pow2((ea - 1) as nat);
                lemma_pow2_pos((ea - 1) as nat);
                assert((half + fa) * p <= (half + fb) * p) by (nonlinear_arith)
                    requires
                        fa <= fb,
                        p > 0,
                ;
                assert(fa < fb ==> (half + fa) * p < (half + fb) * p) by (nonlinear_arith)
                    requires
                        p > 0,
                ;
            }
        } else {
            let q = pow2((eb - 1) as nat);
            lemma_pow2_pos((eb - 1) as nat);
            assert(half * q <= (half + fb) * q) by (nonlinear_arith)
                requires
                    q > 0,
                    fb >= 0,
                    half >= 0,
            ;
            if ea == 0 {
                assert(half <= half * q) by (nonlinear_arith)
                    requires
                        q > 0,
                        half >= 0,
                ;
            } else {
                let p = pow2((ea - 1) as nat);
                lemma_pow2_pos((ea - 1) as nat);
                lemma_pow2_adds(53, (ea - 1) as nat);
                lemma_pow2_adds(52, (eb - 1) as nat);
                assert(pow2(53) == 2 * half);
                assert((half + fa) * p < pow2(53) * p) by (nonlinear_arith)
                    requires
                        fa < half,
                        p > 0,
                        pow2(53) == 2 * half,
                ;
                if 52 + ea < 51 + eb {
                    lemma_pow2_strictly_increases((52 + ea) as nat, (51 + eb) as nat);
                }
                assert(pow2((53 + (ea - 1)) as nat) <= pow2((52 + (eb - 1)) as nat));
            }
        }
    }
}

} // verus!
