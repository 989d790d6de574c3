//! Whole numbers of up to 256 bits, for products that outgrow the machine's
//! widest integer before they are divided down again.

use vstd::prelude::*;
use vstd::arithmetic::div_mod::{
    lemma_fundamental_div_mod, lemma_fundamental_div_mod_converse, lemma_mod_bound,
};

verus! {

/// The weight of the second limb: 2^64.
pub open spec fn limb_1() -> int {
    0x1_0000_0000_0000_0000int
}

/// The weight of the third limb: 2^128.
pub open spec fn limb_2() -> int {
    0x1_0000_0000_0000_0000_0000_0000_0000_0000int
}

/// The weight of the fourth limb: 2^192.
pub open spec fn limb_3() -> int {
    0x1_0000_0000_0000_0000_0000_0000_0000_0000_0000_0000_0000_0000int
}

/// One more than the largest value that four limbs hold: 2^256.
pub open spec fn wide_limit() -> int {
    0x1_0000_0000_0000_0000_0000_0000_0000_0000_0000_0000_0000_0000_0000_0000_0000_0000int
}

/// `limb * factor + carry`, split into its low and high 64 bits.
fn multiply_limb(limb: u64, factor: u64, carry: u64) -> (parts: (u64, u64))
    ensures
        limb * factor + carry == parts.0 + parts.1 * limb_1(),
{
    assert(limb * factor <= 0xFFFF_FFFF_FFFF_FFFF * 0xFFFF_FFFF_FFFF_FFFF) by (nonlinear_arith)
        requires
            limb <= 0xFFFF_FFFF_FFFF_FFFF,
            factor <= 0xFFFF_FFFF_FFFF_FFFF,
    ;
    let total: u128 = (limb as u128) * (factor as u128) + (carry as u128);
    let low: u64 = (total % 0x1_0000_0000_0000_0000u128) as u64;
    let high: u64 = (total / 0x1_0000_0000_0000_0000u128) as u64;
    (low, high)
}

/// One step of a long division by a 64-bit divisor.
fn divide_limb(remainder: u64, limb: u64, divisor: u64) -> (parts: (u64, u64))
    requires
        remainder < divisor,
    ensures
        remainder * limb_1() + limb == divisor * parts.0 + parts.1,
        parts.1 < divisor,
{
    let current: u128 = (remainder as u128) * 0x1_0000_0000_0000_0000u128 + (limb as u128);
    let quotient: u128 = current / (divisor as u128);
    let rest: u128 = current % (divisor as u128);
    proof {
        lemma_fundamental_div_mod(current as int, divisor as int);
        lemma_mod_bound(current as int, divisor as int);
        assert(quotient < limb_1()) by (nonlinear_arith)
            requires
                current == divisor * quotient + rest,
                0 <= rest,
                current < divisor * limb_1(),
                divisor > 0,
        ;
    }
    (quotient as u64, rest as u64)
}

/// A natural number below 2^256, held in four 64-bit limbs.
pub struct Wide {
    limb_0: u64,
    limb_1: u64,
    limb_2: u64,
    limb_3: u64,
}

impl Wide {
    /// The number that the limbs stand for.
    pub closed spec fn value(self) -> nat {
        (self.limb_0 + self.limb_1 * limb_1() + self.limb_2 * limb_2() + self.limb_3
            * limb_3()) as nat
    }

    /// The number `x`, which always fits.
    pub fn from_u128(x: u128) -> (wide: Wide)
        ensures
            wide.value() == x,
    {
        let low: u64 = (x % 0x1_0000_0000_0000_0000u128) as u64;
        let high: u64 = (x / 0x1_0000_0000_0000_0000u128) as u64;
        Wide { limb_0: low, limb_1: high, limb_2: 0, limb_3: 0 }
    }

    /// The product with a 64-bit factor, where it still fits.
    pub fn times(&self, factor: u64) -> (product: Wide)
        requires
            self.value() * factor < wide_limit(),
        ensures
            product.value() == self.value() * factor,
    {
        let (low_0, carry_0) = multiply_limb(self.limb_0, factor, 0);
        let (low_1, carry_1) = multiply_limb(self.limb_1, factor, carry_0);
        let (low_2, carry_2) = multiply_limb(self.limb_2, factor, carry_1);
        let (low_3, carry_3) = multiply_limb(self.limb_3, factor, carry_2);
        proof {
            let f = factor as int;
            let l0 = self.limb_0 as int;
            let l1 = self.limb_1 as int;
            let l2 = self.limb_2 as int;
            let l3 = self.limb_3 as int;
            assert(self.value() * f == l0 * f + (l1 * f) * limb_1() + (l2 * f) * limb_2() + (l3
                * f) * limb_3()) by (nonlinear_arith)
                requires
                    self.value() == l0 + l1 * limb_1() + l2 * limb_2() + l3 * limb_3(),
            ;
            assert(self.value() * f == low_0 + low_1 * limb_1() + low_2 * limb_2() + low_3
                * limb_3() + carry_3 * wide_limit());
            assert(carry_3 == 0);
        }
        Wide { limb_0: low_0, limb_1: low_1, limb_2: low_2, limb_3: low_3 }
    }

    /// The quotient by a 64-bit divisor, rounded down.
    pub fn divided_by(&self, divisor: u64) -> (quotient: Wide)
        requires
            divisor > 0,
        ensures
            quotient.value() == self.value() as int / divisor as int,
    {
        let (digit_3, rest_3) = divide_limb(0, self.limb_3, divisor);
        let (digit_2, rest_2) = divide_limb(rest_3, self.limb_2, divisor);
        let (digit_1, rest_1) = divide_limb(rest_2, self.limb_1, divisor);
        let (digit_0, rest_0) = divide_limb(rest_1, self.limb_0, divisor);
        let quotient = Wide {
            limb_0: digit_0,
            limb_1: digit_1,
            limb_2: digit_2,
            limb_3: digit_3,
        };
        proof {
            let d = divisor as int;
            let whole = quotient.value() as int;
            assert(whole * d == d * digit_0 + (d * digit_1) * limb_1() + (d * digit_2) * limb_2()
                + (d * digit_3) * limb_3()) by (nonlinear_arith)
                requires
                    whole == digit_0 + digit_1 * limb_1() + digit_2 * limb_2() + digit_3
                        * limb_3(),
            ;
            assert(self.value() == whole * d + rest_0);
            lemma_fundamental_div_mod_converse(self.value() as int, d, whole, rest_0 as int);
        }
        quotient
    }

    /// The held number, or `cap` where that is smaller.
    pub fn at_most(&self, cap: u64) -> (least: u64)
        ensures
            least == if self.value() <= cap { self.value() } else { cap as nat },
    {
        if self.limb_3 == 0 && self.limb_2 == 0 && self.limb_1 == 0 && self.limb_0 <= cap {
            self.limb_0
        } else {
            cap
        }
    }
}

} // verus!
