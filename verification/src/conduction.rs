//! The conduction model: how much heat moves between two touching bodies in
//! one step, as a statement over real numbers.
//!
//! The contact is a small conductive disk of fixed area and thickness. The
//! raw transfer is first order: conductance times temperature difference
//! times elapsed time. It is then clamped by the midpoint temperature, which
//! is what keeps a single large step from driving a body below absolute zero,
//! and finally rounded towards zero to a whole number of attojoule.

use vstd::prelude::*;
use vstd::arithmetic::div_mod::lemma_div_denominator;
use crate::heat_body::HeatBody;
use crate::rounding::{
    lemma_floor_ratio, lemma_ratio_product, lemma_ratio_sign, ratio, truncate,
};
use crate::temperature::lemma_cross_product_bounded;
use crate::wide::{Wide, wide_limit};

verus! {

/// Area of the contact disk, in square millimetre.
pub const CONTACT_AREA: u64 = 1;

/// Thickness of the contact disk, in millimetre.
pub const CONTACT_THICKNESS: u64 = 1;

/// Attojoule per kelvin and nanosecond that one watt per metre kelvin
/// carries through one square millimetre of a disk one millimetre thick.
pub const CONDUCTANCE_SCALE: u64 = 1_000_000;

/// The smaller of two real numbers.
pub open spec fn real_min(x: real, y: real) -> real {
    if x <= y {
        x
    } else {
        y
    }
}

/// The larger of two real numbers.
pub open spec fn real_max(x: real, y: real) -> real {
    if x >= y {
        x
    } else {
        y
    }
}

/// The signed temperature difference from `b` up to `a`, in kelvin.
pub open spec fn temperature_delta(a: HeatBody, b: HeatBody) -> real {
    a.kelvin() - b.kelvin()
}

/// The temperature halfway between the two bodies, in kelvin.
pub open spec fn midpoint_temperature(a: HeatBody, b: HeatBody) -> real {
    a.kelvin() - temperature_delta(a, b) / 2real
}

/// The conductance of the contact disk, in attojoule per kelvin and
/// nanosecond. Only the first body's conductivity enters.
pub open spec fn thermal_conductance(a: HeatBody) -> real {
    ratio(
        a.spec_material().conductivity() * CONTACT_AREA * CONDUCTANCE_SCALE,
        CONTACT_THICKNESS as int,
    )
}

/// The first-order transfer from `a` to `b` over `delta` nanoseconds, before
/// any bound is applied.
pub open spec fn raw_heat_transfer(a: HeatBody, b: HeatBody, delta: int) -> real {
    thermal_conductance(a) * temperature_delta(a, b) * (delta as real)
}

/// The most that may leave `a`: what takes it down by the midpoint temperature.
pub open spec fn upper_bound(a: HeatBody, b: HeatBody) -> real {
    midpoint_temperature(a, b) * (a.spec_heat_capacity() as real)
}

/// The most that may leave `b`, as a negative transfer.
pub open spec fn lower_bound(a: HeatBody, b: HeatBody) -> real {
    -(midpoint_temperature(a, b) * (b.spec_heat_capacity() as real))
}

/// The raw transfer, held between the two bounds.
pub open spec fn clamped_heat_transfer(a: HeatBody, b: HeatBody, delta: int) -> real {
    real_max(real_min(raw_heat_transfer(a, b, delta), upper_bound(a, b)), lower_bound(a, b))
}

/// The heat that one step moves from `a` to `b`, in attojoule; negative where
/// it moves from `b` to `a`.
pub open spec fn heat_transfer(a: HeatBody, b: HeatBody, delta: int) -> int {
    truncate(clamped_heat_transfer(a, b, delta))
}

/// Both bodies are well formed and at or above absolute zero.
pub open spec fn can_exchange(a: HeatBody, b: HeatBody) -> bool {
    &&& a.wf()
    &&& b.wf()
    &&& a.spec_heat() >= 0
    &&& b.spec_heat() >= 0
}

/// The numerator of the temperature difference over the common denominator.
pub open spec fn cross_difference(a: HeatBody, b: HeatBody) -> int {
    a.spec_heat() * b.spec_heat_capacity() - b.spec_heat() * a.spec_heat_capacity()
}

/// The numerator of twice the midpoint temperature over the common denominator.
pub open spec fn cross_sum(a: HeatBody, b: HeatBody) -> int {
    a.spec_heat() * b.spec_heat_capacity() + b.spec_heat() * a.spec_heat_capacity()
}

/// What multiplies the cross difference in the raw transfer.
pub open spec fn conduction_factor(a: HeatBody, delta: int) -> int {
    a.spec_material().conductivity() * CONTACT_AREA * CONDUCTANCE_SCALE * delta
}

/// What divides it.
pub open spec fn conduction_divisor(a: HeatBody, b: HeatBody) -> int {
    CONTACT_THICKNESS * a.spec_heat_capacity() * b.spec_heat_capacity()
}

/// The model's three real quantities, as ratios of integers.
pub proof fn lemma_model_as_ratios(a: HeatBody, b: HeatBody, delta: int)
    requires
        a.wf(),
        b.wf(),
    ensures
        conduction_divisor(a, b) > 0,
        raw_heat_transfer(a, b, delta) == ratio(
            conduction_factor(a, delta) * cross_difference(a, b),
            conduction_divisor(a, b),
        ),
        upper_bound(a, b) == ratio(cross_sum(a, b), 2 * b.spec_heat_capacity()),
        lower_bound(a, b) == -ratio(cross_sum(a, b), 2 * a.spec_heat_capacity()),
        temperature_delta(a, b) == ratio(
            cross_difference(a, b),
            a.spec_heat_capacity() * b.spec_heat_capacity(),
        ),
        midpoint_temperature(a, b) == ratio(
            cross_sum(a, b),
            2 * (a.spec_heat_capacity() * b.spec_heat_capacity()),
        ),
{
    a.lemma_heat_capacity_positive();
    b.lemma_heat_capacity_positive();
    let ea = a.spec_heat() as int;
    let eb = b.spec_heat() as int;
    let ca = a.spec_heat_capacity() as int;
    let cb = b.spec_heat_capacity() as int;
    let k = a.spec_material().conductivity() as int;
    let dt = delta as int;
    assert(ca * cb > 0) by (nonlinear_arith)
        requires
            ca > 0,
            cb > 0,
    ;
    assert(ratio(ea, ca) - ratio(eb, cb) == ratio(ea * cb - eb * ca, ca * cb))
        by (nonlinear_arith)
        requires
            ca > 0,
            cb > 0,
    ;
    assert(ratio(ea, ca) - (ratio(ea, ca) - ratio(eb, cb)) / 2real == ratio(
        ea * cb + eb * ca,
        2 * (ca * cb),
    )) by (nonlinear_arith)
        requires
            ca > 0,
            cb > 0,
    ;
    assert(ratio(ea * cb + eb * ca, 2 * (ca * cb)) * (ca as real) == ratio(
        ea * cb + eb * ca,
        2 * cb,
    )) by (nonlinear_arith)
        requires
            ca > 0,
            cb > 0,
    ;
    assert(ratio(ea * cb + eb * ca, 2 * (ca * cb)) * (cb as real) == ratio(
        ea * cb + eb * ca,
        2 * ca,
    )) by (nonlinear_arith)
        requires
            ca > 0,
            cb > 0,
    ;
    let g = k * CONTACT_AREA * CONDUCTANCE_SCALE;
    let l = CONTACT_THICKNESS as int;
    let d = ea * cb - eb * ca;
    let p = ca * cb;
    assert(l * ca * cb == l * p && l * p > 0) by (nonlinear_arith)
        requires
            p == ca * cb,
            p > 0,
            l > 0,
    ;
    lemma_ratio_product(g, l, d, p);
    lemma_ratio_product(g * d, l * p, dt, 1);
    lemma_ratio_sign(dt, 1);
    assert((g * d) * dt == (g * dt) * d && (l * p) * 1 == l * p) by (nonlinear_arith);
}

/// The smaller of two integers.
pub open spec fn int_min(x: int, y: int) -> int {
    if x <= y {
        x
    } else {
        y
    }
}

/// The heat that one step moves, computed in whole numbers: the quotient of
/// the raw transfer, capped by the quotient of the bound on the giving side.
pub proof fn lemma_heat_transfer_in_integers(a: HeatBody, b: HeatBody, delta: int)
    requires
        can_exchange(a, b),
        delta >= 0,
    ensures
        conduction_divisor(a, b) > 0,
        conduction_factor(a, delta) >= 0,
        cross_sum(a, b) >= 0,
        cross_difference(a, b) >= 0 ==> heat_transfer(a, b, delta) == int_min(
            (conduction_factor(a, delta) * cross_difference(a, b)) / conduction_divisor(a, b),
            cross_sum(a, b) / (2 * b.spec_heat_capacity()),
        ),
        cross_difference(a, b) <= 0 ==> heat_transfer(a, b, delta) == -int_min(
            (conduction_factor(a, delta) * (-cross_difference(a, b))) / conduction_divisor(a, b),
            cross_sum(a, b) / (2 * a.spec_heat_capacity()),
        ),
{
    lemma_model_as_ratios(a, b, delta);
    a.lemma_heat_capacity_positive();
    b.lemma_heat_capacity_positive();
    a.spec_material().lemma_wf();
    let ea = a.spec_heat() as int;
    let eb = b.spec_heat() as int;
    let ca = a.spec_heat_capacity();
    let cb = b.spec_heat_capacity();
    let f = conduction_factor(a, delta);
    let d = cross_difference(a, b);
    let s = cross_sum(a, b);
    let k = conduction_divisor(a, b);
    let conductivity = a.spec_material().conductivity();
    let g = conductivity * CONTACT_AREA * CONDUCTANCE_SCALE;
    assert(g >= 0) by (nonlinear_arith)
        requires
            g == conductivity * CONTACT_AREA * CONDUCTANCE_SCALE,
            conductivity >= 0,
    ;
    assert(f >= 0) by (nonlinear_arith)
        requires
            f == g * delta,
            g >= 0,
            delta >= 0,
    ;
    lemma_cross_product_bounded(ea, cb);
    lemma_cross_product_bounded(eb, ca);
    assert(s >= 0);
    let raw = ratio(f * d, k);
    let upper = ratio(s, 2 * cb);
    let lower = -ratio(s, 2 * ca);
    lemma_ratio_sign(s, 2 * cb);
    lemma_ratio_sign(s, 2 * ca);
    lemma_ratio_sign(f * d, k);
    lemma_floor_ratio(f * d, k);
    lemma_floor_ratio(s, 2 * cb);
    lemma_floor_ratio(s, 2 * ca);
    if d >= 0 {
        assert(f * d >= 0) by (nonlinear_arith)
            requires
                f >= 0,
                d >= 0,
        ;
    }
    if d <= 0 {
        assert(f * d <= 0 && f * (-d) == -(f * d)) by (nonlinear_arith)
            requires
                f >= 0,
                d <= 0,
        ;
        lemma_floor_ratio(f * (-d), k);
        assert(ratio(-(f * d), k) == -ratio(f * d, k)) by (nonlinear_arith)
            requires
                k > 0,
        ;
    }
}

/// `difference * delta * factor / (thickness * capacity_a * capacity_b)`,
/// rounded down, or `cap` where that is smaller.
pub fn bounded_flow(
    difference: u128,
    delta: u64,
    factor: u64,
    capacity_a: u64,
    capacity_b: u64,
    cap: u64,
) -> (moved: u64)
    requires
        difference <= i128::MAX,
        capacity_a > 0,
        capacity_b > 0,
    ensures
        moved == int_min(
            ((factor * delta) * difference) / (CONTACT_THICKNESS * capacity_a * capacity_b),
            cap as int,
        ),
{
    let start = Wide::from_u128(difference);
    assert(difference * delta < 0x8000_0000_0000_0000_0000_0000_0000_0000_0000_0000_0000_0000int)
        by (nonlinear_arith)
        requires
            difference < 0x8000_0000_0000_0000_0000_0000_0000_0000,
            delta < 0x1_0000_0000_0000_0000,
    ;
    let timed = start.times(delta);
    assert((difference * delta) * factor < wide_limit()) by (nonlinear_arith)
        requires
            0 <= difference * delta
                < 0x8000_0000_0000_0000_0000_0000_0000_0000_0000_0000_0000_0000int,
            0 <= factor < 0x1_0000_0000_0000_0000,
    ;
    let scaled = timed.times(factor);
    let thinned = scaled.divided_by(CONTACT_THICKNESS);
    let shared = thinned.divided_by(capacity_a);
    let flow = shared.divided_by(capacity_b);
    proof {
        let x = scaled.value() as int;
        assert(x == (factor * delta) * difference) by (nonlinear_arith)
            requires
                x == (difference * delta) * factor,
        ;
        lemma_div_denominator(x, CONTACT_THICKNESS as int, capacity_a as int);
        lemma_div_denominator(x, CONTACT_THICKNESS * capacity_a, capacity_b as int);
    }
    flow.at_most(cap)
}

} // verus!
