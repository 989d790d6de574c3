//! Temperatures, kept apart by kind: a point on the absolute scale is not a
//! difference between two such points, and neither turns into the other
//! unasked.

use vstd::prelude::*;
use crate::rounding::{
    lemma_ratio_difference, lemma_ratio_order, lemma_ratio_sign, lemma_truncate_ratio, ratio,
    truncate,
};

verus! {

/// A point on the absolute temperature scale: an exact ratio, in kelvin.
#[derive(Clone, Copy, Debug)]
pub struct ThermodynamicTemperature {
    pub numerator: i64,
    pub denominator: u64,
}

/// A signed difference between two temperatures: an exact ratio, in kelvin.
#[derive(Clone, Copy, Debug)]
pub struct TemperatureInterval {
    pub numerator: i128,
    pub denominator: u128,
}

impl View for ThermodynamicTemperature {
    type V = real;

    /// The temperature in kelvin.
    open spec fn view(&self) -> real {
        ratio(self.numer(), self.denom())
    }
}

impl View for TemperatureInterval {
    type V = real;

    /// The difference in kelvin.
    open spec fn view(&self) -> real {
        ratio(self.numer(), self.denom())
    }
}

impl ThermodynamicTemperature {
    /// The numerator, as a mathematical integer.
    pub open spec fn numer(self) -> int {
        self.numerator as int
    }

    /// The denominator, as a mathematical integer.
    pub open spec fn denom(self) -> int {
        self.denominator as int
    }

    /// The denominator is positive and no larger than a heat capacity may be.
    pub open spec fn wf(self) -> bool {
        0 < self.denom() <= i64::MAX
    }

    /// The temperature of `numerator / denominator` kelvin.
    pub fn new(numerator: i64, denominator: u64) -> (temperature: Self)
        requires
            0 < denominator <= i64::MAX,
        ensures
            temperature.wf(),
            temperature == (ThermodynamicTemperature { numerator, denominator }),
            temperature.numer() == numerator,
            temperature.denom() == denominator,
    {
        ThermodynamicTemperature { numerator, denominator }
    }

    /// A whole number of kelvin.
    pub fn from_kelvin(kelvin: i64) -> (temperature: Self)
        ensures
            temperature.wf(),
            temperature.numer() == kelvin,
            temperature.denom() == 1,
            temperature@ == kelvin as real,
    {
        proof {
            lemma_ratio_sign(kelvin as int, 1);
        }
        ThermodynamicTemperature { numerator: kelvin, denominator: 1 }
    }

    /// The temperature in whole kelvin, rounded towards zero.
    pub fn whole_kelvin(&self) -> (kelvin: i64)
        requires
            self.wf(),
        ensures
            kelvin == truncate(self@),
    {
        proof {
            lemma_truncate_ratio(self.numer(), self.denom());
        }
        let n: i128 = self.numerator as i128;
        let d: i128 = self.denominator as i128;
        if n >= 0 {
            let k: i128 = n / d;
            assert(k <= n) by (nonlinear_arith)
                requires
                    k == n / d,
                    n >= 0,
                    d >= 1,
            ;
            k as i64
        } else {
            let m: i128 = -n;
            let k: i128 = m / d;
            assert(0 <= k <= m) by (nonlinear_arith)
                requires
                    k == m / d,
                    m >= 0,
                    d >= 1,
            ;
            (-k) as i64
        }
    }

    /// The same number of kelvin, read as a distance from absolute zero.
    pub fn as_temperature_interval(&self) -> (interval: TemperatureInterval)
        requires
            self.wf(),
        ensures
            interval.wf(),
            interval.numer() == self.numer(),
            interval.denom() == self.denom(),
            interval@ == self@,
    {
        TemperatureInterval {
            numerator: self.numerator as i128,
            denominator: self.denominator as u128,
        }
    }

    /// The signed distance from `other` up to `self`.
    pub fn minus(&self, other: &Self) -> (interval: TemperatureInterval)
        requires
            self.wf(),
            other.wf(),
        ensures
            interval.wf(),
            interval.numer() == self.numer() * other.denom() - other.numer() * self.denom(),
            interval.denom() == self.denom() * other.denom(),
            interval@ == self@ - other@,
    {
        proof {
            lemma_ratio_difference(self.numer(), self.denom(), other.numer(), other.denom());
            lemma_cross_product_bounded(self.numer(), other.denom());
            lemma_cross_product_bounded(other.numer(), self.denom());
            lemma_cross_product_bounded(self.denom(), other.denom());
        }
        let left: i128 = (self.numerator as i128) * (other.denominator as i128);
        let right: i128 = (other.numerator as i128) * (self.denominator as i128);
        let denominator: u128 = (self.denominator as u128) * (other.denominator as u128);
        TemperatureInterval { numerator: left - right, denominator }
    }

    /// Whether `self` is strictly above `other`.
    pub fn is_hotter_than(&self, other: &Self) -> (hotter: bool)
        requires
            self.wf(),
            other.wf(),
        ensures
            hotter == (self@ > other@),
    {
        proof {
            lemma_ratio_order(other.numer(), other.denom(), self.numer(), self.denom());
            lemma_cross_product_bounded(self.numer(), other.denom());
            lemma_cross_product_bounded(other.numer(), self.denom());
        }
        let left: i128 = (self.numerator as i128) * (other.denominator as i128);
        let right: i128 = (other.numerator as i128) * (self.denominator as i128);
        left > right
    }

    /// Whether both stand for the same temperature.
    pub fn is_as_hot_as(&self, other: &Self) -> (same: bool)
        requires
            self.wf(),
            other.wf(),
        ensures
            same == (self@ == other@),
    {
        proof {
            lemma_ratio_order(self.numer(), self.denom(), other.numer(), other.denom());
            lemma_cross_product_bounded(self.numer(), other.denom());
            lemma_cross_product_bounded(other.numer(), self.denom());
        }
        let left: i128 = (self.numerator as i128) * (other.denominator as i128);
        let right: i128 = (other.numerator as i128) * (self.denominator as i128);
        left == right
    }
}

impl TemperatureInterval {
    /// The numerator, as a mathematical integer.
    pub open spec fn numer(self) -> int {
        self.numerator as int
    }

    /// The denominator, as a mathematical integer.
    pub open spec fn denom(self) -> int {
        self.denominator as int
    }

    /// The denominator is positive.
    pub open spec fn wf(self) -> bool {
        0 < self.denom()
    }

    /// The interval of `numerator / denominator` kelvin.
    pub fn new(numerator: i128, denominator: u128) -> (interval: Self)
        requires
            0 < denominator,
        ensures
            interval.wf(),
            interval.numer() == numerator,
            interval.denom() == denominator,
    {
        TemperatureInterval { numerator, denominator }
    }

    /// A whole number of kelvin.
    pub fn from_kelvin(kelvin: i64) -> (interval: Self)
        ensures
            interval.wf(),
            interval.numer() == kelvin,
            interval.denom() == 1,
            interval@ == kelvin as real,
    {
        proof {
            lemma_ratio_sign(kelvin as int, 1);
        }
        TemperatureInterval { numerator: kelvin as i128, denominator: 1 }
    }

}

/// The product of a 64-bit signed number and a heat-capacity-sized one leaves
/// room in 128 bits for the sum or difference of two such products.
pub proof fn lemma_cross_product_bounded(a: int, b: int)
    requires
        i64::MIN <= a <= i64::MAX,
        0 <= b <= i64::MAX,
    ensures
        -0x3FFF_FFFF_FFFF_FFFF_8000_0000_0000_0000 <= a * b
            <= 0x3FFF_FFFF_FFFF_FFFF_8000_0000_0000_0000,
        a >= 0 ==> a * b >= 0,
{
    assert(-0x3FFF_FFFF_FFFF_FFFF_8000_0000_0000_0000 <= a * b
        <= 0x3FFF_FFFF_FFFF_FFFF_8000_0000_0000_0000) by (nonlinear_arith)
        requires
            -0x8000_0000_0000_0000 <= a <= 0x7FFF_FFFF_FFFF_FFFF,
            0 <= b <= 0x7FFF_FFFF_FFFF_FFFF,
    ;
    assert(a >= 0 ==> a * b >= 0) by (nonlinear_arith)
        requires
            0 <= b,
    ;
}

} // verus!
