//! What holds of every conduction step: energy is only moved, it moves from
//! the hotter body to the colder one, bodies at one temperature are left
//! alone, nobody ends below absolute zero, and a step that moves no more than
//! the equalising heat keeps both bodies on their side of the midpoint.

use vstd::prelude::*;
use crate::conduction::{
    can_exchange, clamped_heat_transfer, conduction_divisor, conduction_factor, cross_difference,
    cross_sum, heat_transfer, lemma_heat_transfer_in_integers, lemma_model_as_ratios,
    midpoint_temperature, raw_heat_transfer, real_max, real_min, temperature_delta,
    thermal_conductance, CONDUCTANCE_SCALE, CONTACT_AREA, CONTACT_THICKNESS,
};
use crate::heat_body::HeatBody;
use crate::rounding::{lemma_ratio_order, lemma_ratio_sign, lemma_truncate_bounds, ratio};

verus! {

/// The distance of a real number from zero.
pub open spec fn real_abs(x: real) -> real {
    if x >= 0real {
        x
    } else {
        -x
    }
}

/// The temperature of `body` once `moved` attojoule have left it, in kelvin.
pub open spec fn kelvin_after_giving(body: HeatBody, moved: int) -> real {
    ratio(body.spec_heat() - moved, body.spec_heat_capacity())
}

/// Whether `x` lies between `p` and `q`, ends included, whichever is larger.
pub open spec fn lies_between(x: real, p: real, q: real) -> bool {
    real_min(p, q) <= x <= real_max(p, q)
}

/// Whether, once `moved` attojoule have gone from `a` to `b`, each body's
/// temperature lies between its earlier temperature and the earlier midpoint.
pub open spec fn stays_within_midpoint(a: HeatBody, b: HeatBody, moved: int) -> bool {
    &&& lies_between(kelvin_after_giving(a, moved), a.kelvin(), midpoint_temperature(a, b))
    &&& lies_between(kelvin_after_giving(b, -moved), b.kelvin(), midpoint_temperature(a, b))
}

/// The heat that takes the body of the smaller heat capacity exactly to the
/// midpoint temperature, in attojoule.
pub open spec fn equalising_heat(a: HeatBody, b: HeatBody) -> real {
    real_min(a.spec_heat_capacity() as real, b.spec_heat_capacity() as real) * real_abs(
        temperature_delta(a, b),
    ) / 2real
}

/// Heat flows from the hotter body to the colder one, never the other way.
pub proof fn lemma_heat_flows_downhill(a: HeatBody, b: HeatBody, delta: int)
    requires
        can_exchange(a, b),
        delta >= 0,
    ensures
        a.kelvin() > b.kelvin() ==> heat_transfer(a, b, delta) >= 0,
        a.kelvin() < b.kelvin() ==> heat_transfer(a, b, delta) <= 0,
{
    lemma_heat_transfer_in_integers(a, b, delta);
    lemma_sign_of_difference(a, b);
    lemma_quotients_not_negative(a, b, delta);
}

/// Two bodies at the same temperature exchange nothing.
pub proof fn lemma_equilibrium_is_fixed(a: HeatBody, b: HeatBody, delta: int)
    requires
        can_exchange(a, b),
        delta >= 0,
        a.kelvin() == b.kelvin(),
    ensures
        heat_transfer(a, b, delta) == 0,
{
    lemma_heat_transfer_in_integers(a, b, delta);
    lemma_sign_of_difference(a, b);
    lemma_quotients_not_negative(a, b, delta);
    let f = conduction_factor(a, delta);
    assert(f * 0 == 0) by (nonlinear_arith);
    assert(0int / conduction_divisor(a, b) == 0) by (nonlinear_arith)
        requires
            conduction_divisor(a, b) > 0,
    ;
}

/// A step of no duration moves nothing.
pub proof fn lemma_no_time_moves_nothing(a: HeatBody, b: HeatBody)
    requires
        can_exchange(a, b),
    ensures
        heat_transfer(a, b, 0) == 0,
{
    lemma_heat_transfer_in_integers(a, b, 0);
    lemma_quotients_not_negative(a, b, 0);
    let g = a.spec_material().conductivity() * CONTACT_AREA * CONDUCTANCE_SCALE;
    let d = cross_difference(a, b);
    assert(conduction_factor(a, 0) * d == 0 && conduction_factor(a, 0) * (-d) == 0)
        by (nonlinear_arith)
        requires
            conduction_factor(a, 0) == g * 0,
    ;
    assert(0int / conduction_divisor(a, b) == 0) by (nonlinear_arith)
        requires
            conduction_divisor(a, b) > 0,
    ;
}

/// Between bodies of one conductivity the step does not depend on which of
/// the two is named first: what goes from `a` to `b` is what comes from `b`
/// to `a`, with the sign turned.
pub proof fn lemma_same_conductivity_is_symmetric(a: HeatBody, b: HeatBody, delta: int)
    requires
        can_exchange(a, b),
        delta >= 0,
        a.spec_material().conductivity() == b.spec_material().conductivity(),
    ensures
        heat_transfer(b, a, delta) == -heat_transfer(a, b, delta),
{
    lemma_heat_transfer_in_integers(a, b, delta);
    lemma_heat_transfer_in_integers(b, a, delta);
    let ca = a.spec_heat_capacity();
    let cb = b.spec_heat_capacity();
    let l = CONTACT_THICKNESS as int;
    assert(l * ca * cb == l * cb * ca) by (nonlinear_arith);
    if cross_difference(a, b) == 0 {
        let f = conduction_factor(a, delta);
        assert(f * 0 == 0) by (nonlinear_arith);
        assert(0int / conduction_divisor(a, b) == 0) by (nonlinear_arith)
            requires
                conduction_divisor(a, b) > 0,
        ;
        lemma_quotients_not_negative(a, b, delta);
    }
}

/// No step takes more from a body than it holds: both bodies stay at or
/// above absolute zero.
pub proof fn lemma_never_below_absolute_zero(a: HeatBody, b: HeatBody, delta: int)
    requires
        can_exchange(a, b),
        delta >= 0,
    ensures
        -b.spec_heat() <= heat_transfer(a, b, delta) <= a.spec_heat(),
        kelvin_after_giving(a, heat_transfer(a, b, delta)) >= 0real,
        kelvin_after_giving(b, -heat_transfer(a, b, delta)) >= 0real,
{
    lemma_heat_transfer_in_integers(a, b, delta);
    lemma_quotients_not_negative(a, b, delta);
    a.lemma_heat_capacity_positive();
    b.lemma_heat_capacity_positive();
    let ea = a.spec_heat() as int;
    let eb = b.spec_heat() as int;
    let ca = a.spec_heat_capacity();
    let cb = b.spec_heat_capacity();
    let s = cross_sum(a, b);
    let d = cross_difference(a, b);
    if d >= 0 {
        assert(s / (2 * cb) <= ea) by (nonlinear_arith)
            requires
                s == ea * cb + eb * ca,
                d == ea * cb - eb * ca,
                d >= 0,
                cb > 0,
        ;
    }
    if d <= 0 {
        assert(s / (2 * ca) <= eb) by (nonlinear_arith)
            requires
                s == ea * cb + eb * ca,
                d == ea * cb - eb * ca,
                d <= 0,
                ca > 0,
        ;
    }
    let q = heat_transfer(a, b, delta);
    lemma_ratio_sign(ea - q, ca);
    lemma_ratio_sign(eb + q, cb);
}

/// A step keeps both temperatures between where they were and the midpoint
/// exactly when it moves no more than the equalising heat. Where the bodies'
/// heat capacities differ, or the gradient is small beside the temperatures,
/// the clamp admits more than that, and the body of the smaller heat
/// capacity then crosses the midpoint.
pub proof fn lemma_within_midpoint_iff_gentle(a: HeatBody, b: HeatBody, delta: int)
    requires
        can_exchange(a, b),
        delta >= 0,
    ensures
        stays_within_midpoint(a, b, heat_transfer(a, b, delta)) <==> real_abs(
            heat_transfer(a, b, delta) as real,
        ) <= equalising_heat(a, b),
{
    lemma_heat_flows_downhill(a, b, delta);
    if a.kelvin() == b.kelvin() {
        lemma_equilibrium_is_fixed(a, b, delta);
    }
    a.lemma_heat_capacity_positive();
    b.lemma_heat_capacity_positive();
    let q = heat_transfer(a, b, delta);
    lemma_midpoint_distances(
        a.spec_heat() as int,
        a.spec_heat_capacity(),
        b.spec_heat() as int,
        b.spec_heat_capacity(),
        q,
    );
    let ca = a.spec_heat_capacity() as real;
    let cb = b.spec_heat_capacity() as real;
    let u = temperature_delta(a, b);
    let w = real_abs(u);
    assert(ca <= cb ==> ca * w <= cb * w) by (nonlinear_arith)
        requires
            w >= 0real,
    ;
    assert(cb <= ca ==> cb * w <= ca * w) by (nonlinear_arith)
        requires
            w >= 0real,
    ;
    assert(ca * (-u) == -(ca * u) && cb * (-u) == -(cb * u)) by (nonlinear_arith);
    assert(ca * 0real == 0real && cb * 0real == 0real) by (nonlinear_arith);
}

/// A step is gentle wherever twice the conductance times the elapsed time
/// does not exceed the smaller heat capacity: the raw transfer itself then
/// stays within the equalising heat, whatever the temperatures.
pub proof fn lemma_small_steps_are_gentle(a: HeatBody, b: HeatBody, delta: int)
    requires
        can_exchange(a, b),
        delta >= 0,
        2real * thermal_conductance(a) * (delta as real) <= real_min(
            a.spec_heat_capacity() as real,
            b.spec_heat_capacity() as real,
        ),
    ensures
        real_abs(heat_transfer(a, b, delta) as real) <= equalising_heat(a, b),
        stays_within_midpoint(a, b, heat_transfer(a, b, delta)),
{
    lemma_within_midpoint_iff_gentle(a, b, delta);
    lemma_heat_transfer_in_integers(a, b, delta);
    lemma_model_as_ratios(a, b, delta);
    a.lemma_heat_capacity_positive();
    b.lemma_heat_capacity_positive();
    a.spec_material().lemma_wf();
    let g = thermal_conductance(a);
    let t = delta as real;
    let u = temperature_delta(a, b);
    let w = real_abs(u);
    let m = real_min(a.spec_heat_capacity() as real, b.spec_heat_capacity() as real);
    let raw = raw_heat_transfer(a, b, delta);
    lemma_ratio_sign(
        a.spec_material().conductivity() * CONTACT_AREA * CONDUCTANCE_SCALE,
        CONTACT_THICKNESS as int,
    );
    assert(g >= 0real) by {
        assert(a.spec_material().conductivity() * CONTACT_AREA * CONDUCTANCE_SCALE >= 0)
            by (nonlinear_arith)
            requires
                a.spec_material().conductivity() >= 0,
        ;
    }
    assert(real_abs(raw) == (g * t) * w) by (nonlinear_arith)
        requires
            raw == g * u * t,
            w == real_abs(u),
            g >= 0real,
            t >= 0real,
    ;
    assert((g * t) * w <= m * w / 2real) by (nonlinear_arith)
        requires
            2real * g * t <= m,
            w >= 0real,
    ;
    lemma_ratio_sign(cross_sum(a, b), 2 * b.spec_heat_capacity());
    lemma_ratio_sign(cross_sum(a, b), 2 * a.spec_heat_capacity());
    lemma_truncate_bounds(clamped_heat_transfer(a, b, delta));
}

/// The distances of the new temperatures from the old ones and from the
/// midpoint, for any heat moved.
proof fn lemma_midpoint_distances(ea: int, ca: int, eb: int, cb: int, q: int)
    requires
        ca > 0,
        cb > 0,
    ensures
        ({
            let ta = ratio(ea, ca);
            let tb = ratio(eb, cb);
            let mid = ta - (ta - tb) / 2real;
            let qr = q as real;
            &&& ratio(ea - q, ca) <= ta <==> q >= 0
            &&& ratio(ea - q, ca) >= ta <==> q <= 0
            &&& ratio(eb + q, cb) >= tb <==> q >= 0
            &&& ratio(eb + q, cb) <= tb <==> q <= 0
            &&& ratio(ea - q, ca) >= mid <==> qr <= (ca as real) * (ta - tb) / 2real
            &&& ratio(ea - q, ca) <= mid <==> qr >= (ca as real) * (ta - tb) / 2real
            &&& ratio(eb + q, cb) <= mid <==> qr <= (cb as real) * (ta - tb) / 2real
            &&& ratio(eb + q, cb) >= mid <==> qr >= (cb as real) * (ta - tb) / 2real
        }),
{
    let ta = ratio(ea, ca);
    let tb = ratio(eb, cb);
    let qr = q as real;
    let car = ca as real;
    let cbr = cb as real;
    assert(ratio(ea - q, ca) == ta - qr / car) by (nonlinear_arith)
        requires
            ca > 0,
            ta == ratio(ea, ca),
            qr == q as real,
            car == ca as real,
    ;
    assert(ratio(eb + q, cb) == tb + qr / cbr) by (nonlinear_arith)
        requires
            cb > 0,
            tb == ratio(eb, cb),
            qr == q as real,
            cbr == cb as real,
    ;
    lemma_quotient_shift(qr, car, ta - tb);
    lemma_quotient_shift(qr, cbr, ta - tb);
}

/// How a quotient by a positive number compares with zero and with half of
/// another number.
proof fn lemma_quotient_shift(q: real, c: real, u: real)
    requires
        c > 0real,
    ensures
        q / c >= 0real <==> q >= 0real,
        q / c <= 0real <==> q <= 0real,
        q / c <= u / 2real <==> q <= c * u / 2real,
        q / c >= u / 2real <==> q >= c * u / 2real,
{
    assert(q / c >= 0real <==> q >= 0real) by (nonlinear_arith)
        requires
            c > 0real,
    ;
    assert(q / c <= 0real <==> q <= 0real) by (nonlinear_arith)
        requires
            c > 0real,
    ;
    assert(q / c <= u / 2real <==> q <= c * u / 2real) by (nonlinear_arith)
        requires
            c > 0real,
    ;
    assert(q / c >= u / 2real <==> q >= c * u / 2real) by (nonlinear_arith)
        requires
            c > 0real,
    ;
}

/// The temperature difference has the sign of the cross difference.
proof fn lemma_sign_of_difference(a: HeatBody, b: HeatBody)
    requires
        a.wf(),
        b.wf(),
    ensures
        a.kelvin() > b.kelvin() <==> cross_difference(a, b) > 0,
        a.kelvin() < b.kelvin() <==> cross_difference(a, b) < 0,
        a.kelvin() == b.kelvin() <==> cross_difference(a, b) == 0,
{
    a.lemma_heat_capacity_positive();
    b.lemma_heat_capacity_positive();
    lemma_ratio_order(
        a.spec_heat() as int,
        a.spec_heat_capacity(),
        b.spec_heat() as int,
        b.spec_heat_capacity(),
    );
}

/// The two quotients of the integer form are not negative.
proof fn lemma_quotients_not_negative(a: HeatBody, b: HeatBody, delta: int)
    requires
        can_exchange(a, b),
        delta >= 0,
    ensures
        cross_difference(a, b) >= 0 ==> (conduction_factor(a, delta) * cross_difference(a, b))
            / conduction_divisor(a, b) >= 0,
        cross_difference(a, b) <= 0 ==> (conduction_factor(a, delta) * (-cross_difference(a, b)))
            / conduction_divisor(a, b) >= 0,
        cross_sum(a, b) / (2 * b.spec_heat_capacity()) >= 0,
        cross_sum(a, b) / (2 * a.spec_heat_capacity()) >= 0,
{
    lemma_heat_transfer_in_integers(a, b, delta);
    a.lemma_heat_capacity_positive();
    b.lemma_heat_capacity_positive();
    let f = conduction_factor(a, delta);
    let d = cross_difference(a, b);
    let k = conduction_divisor(a, b);
    let s = cross_sum(a, b);
    let ca = a.spec_heat_capacity();
    let cb = b.spec_heat_capacity();
    assert(d >= 0 ==> (f * d) / k >= 0) by (nonlinear_arith)
        requires
            f >= 0,
            k > 0,
    ;
    assert(d <= 0 ==> (f * (-d)) / k >= 0) by (nonlinear_arith)
        requires
            f >= 0,
            k > 0,
    ;
    assert(s / (2 * cb) >= 0 && s / (2 * ca) >= 0) by (nonlinear_arith)
        requires
            s >= 0,
            ca > 0,
            cb > 0,
    ;
}

} // verus!
