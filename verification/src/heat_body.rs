//! The heat state of one particle.

use vstd::prelude::*;
use vstd::arithmetic::div_mod::{
    lemma_fundamental_div_mod, lemma_fundamental_div_mod_converse, lemma_mod_bound,
};
use crate::conduction::{
    bounded_flow, can_exchange, cross_difference, heat_transfer,
    lemma_heat_transfer_in_integers, CONDUCTANCE_SCALE, CONTACT_AREA,
};
use crate::guarantees::{
    equalising_heat, lemma_equilibrium_is_fixed, lemma_heat_flows_downhill,
    lemma_no_time_moves_nothing, lemma_within_midpoint_iff_gentle, real_abs,
    stays_within_midpoint,
};
use crate::material::Material;
use crate::rounding::{ratio, truncate, lemma_ratio_order, lemma_ratio_sign, lemma_truncate_ratio};
use crate::temperature::{
    lemma_cross_product_bounded, TemperatureInterval, ThermodynamicTemperature,
};

verus! {

/// The energy that a body of fixed volume and material stores. Its mass, heat
/// capacity and temperature follow from these three and are never stored.
#[derive(Clone, Copy, Debug)]
pub struct HeatBody {
    heat: i64,
    volume: u64,
    material: Material,
}

/// The heat capacity of `volume` nanolitre of `material`, in attojoule per kelvin.
pub open spec fn capacity_of(volume: int, material: Material) -> int {
    volume * material.mass_density() * material.specific_heat()
}

/// The energy that changes the temperature of a body of the given heat
/// capacity by `kelvin`, in whole attojoule, rounded towards zero.
pub open spec fn heat_for(kelvin: real, capacity: int) -> int {
    truncate(kelvin * (capacity as real))
}

/// A ratio times a whole number, rounded towards zero, is a quotient of
/// magnitudes.
pub proof fn lemma_heat_for_ratio(numerator: int, denominator: int, capacity: int)
    requires
        denominator > 0,
        capacity >= 0,
    ensures
        numerator >= 0 ==> heat_for(ratio(numerator, denominator), capacity) == (numerator
            * capacity) / denominator,
        numerator <= 0 ==> heat_for(ratio(numerator, denominator), capacity) == -(((-numerator)
            * capacity) / denominator),
{
    assert(ratio(numerator, denominator) * (capacity as real) == ratio(
        numerator * capacity,
        denominator,
    )) by (nonlinear_arith)
        requires
            denominator > 0,
    ;
    lemma_truncate_ratio(numerator * capacity, denominator);
    assert(numerator >= 0 ==> numerator * capacity >= 0) by (nonlinear_arith)
        requires
            capacity >= 0,
    ;
    assert(numerator <= 0 ==> numerator * capacity <= 0 && (-numerator) * capacity == -(numerator
        * capacity)) by (nonlinear_arith)
        requires
            capacity >= 0,
    ;
}

/// The energy for a temperature at or above absolute zero gives back that
/// temperature where the heat capacity can hold it exactly, and otherwise
/// the next temperature below that it can hold.
pub proof fn lemma_heat_for_reads_back(numerator: int, denominator: int, capacity: int)
    requires
        numerator >= 0,
        denominator > 0,
        capacity > 0,
    ensures
        ratio(heat_for(ratio(numerator, denominator), capacity), capacity) <= ratio(
            numerator,
            denominator,
        ),
        ratio(numerator, denominator) < ratio(
            heat_for(ratio(numerator, denominator), capacity) + 1,
            capacity,
        ),
        (numerator * capacity) % denominator == 0 ==> ratio(
            heat_for(ratio(numerator, denominator), capacity),
            capacity,
        ) == ratio(numerator, denominator),
{
    lemma_heat_for_ratio(numerator, denominator, capacity);
    let product = numerator * capacity;
    let heat = product / denominator;
    lemma_fundamental_div_mod(product, denominator);
    lemma_mod_bound(product, denominator);
    lemma_ratio_order(heat, capacity, numerator, denominator);
    lemma_ratio_order(numerator, denominator, heat + 1, capacity);
    assert(heat * denominator == denominator * heat && (heat + 1) * denominator == denominator
        * heat + denominator) by (nonlinear_arith);
}

/// Where the heat capacity can hold a change of temperature exactly, the
/// energy for it changes the temperature by just that much.
pub proof fn lemma_exact_change_of_temperature(
    heat: int,
    numerator: int,
    denominator: int,
    capacity: int,
)
    requires
        denominator > 0,
        capacity > 0,
        (numerator * capacity) % denominator == 0,
    ensures
        ratio(heat + heat_for(ratio(numerator, denominator), capacity), capacity) == ratio(
            heat,
            capacity,
        ) + ratio(numerator, denominator),
{
    lemma_heat_for_ratio(numerator, denominator, capacity);
    let product = numerator * capacity;
    let change = heat_for(ratio(numerator, denominator), capacity);
    let quotient = product / denominator;
    lemma_fundamental_div_mod(product, denominator);
    assert((-numerator) * capacity == -product && (-quotient) * denominator == -(denominator
        * quotient)) by (nonlinear_arith)
        requires
            product == numerator * capacity,
    ;
    lemma_fundamental_div_mod_converse(-product, denominator, -quotient, 0);
    assert(change * denominator == product) by (nonlinear_arith)
        requires
            change == quotient,
            product == denominator * quotient,
    ;
    assert(ratio(heat + change, capacity) == ratio(heat, capacity) + ratio(
        numerator,
        denominator,
    )) by (nonlinear_arith)
        requires
            change * denominator == numerator * capacity,
            denominator > 0,
            capacity > 0,
    ;
}

impl HeatBody {
    /// Stored energy above absolute zero, in attojoule.
    pub closed spec fn spec_heat(&self) -> i64 {
        self.heat
    }

    /// Volume, in nanolitre.
    pub closed spec fn spec_volume(&self) -> u64 {
        self.volume
    }

    /// What the body is made of.
    pub closed spec fn spec_material(&self) -> Material {
        self.material
    }

    /// Mass, in picogram: volume times density.
    pub open spec fn spec_mass(self) -> int {
        self.spec_volume() * self.spec_material().mass_density()
    }

    /// Heat capacity, in attojoule per kelvin: mass times specific heat capacity.
    pub open spec fn spec_heat_capacity(self) -> int {
        self.spec_mass() * self.spec_material().specific_heat()
    }

    /// Temperature, in kelvin: stored energy over heat capacity, counted from
    /// absolute zero.
    pub open spec fn kelvin(self) -> real {
        ratio(self.spec_heat() as int, self.spec_heat_capacity())
    }

    /// The temperature as the exact ratio that `temperature` hands out.
    pub open spec fn spec_temperature(self) -> ThermodynamicTemperature {
        ThermodynamicTemperature {
            numerator: self.spec_heat(),
            denominator: self.spec_heat_capacity() as u64,
        }
    }

    /// The material is well formed, the volume positive, and the heat
    /// capacity small enough for the machine.
    pub open spec fn wf(self) -> bool {
        &&& self.spec_material().wf()
        &&& self.spec_volume() > 0
        &&& self.spec_heat_capacity() <= i64::MAX
    }

    /// A body is where its three stored values say.
    pub proof fn lemma_determined_by_parts(self, other: HeatBody)
        requires
            self.spec_heat() == other.spec_heat(),
            self.spec_volume() == other.spec_volume(),
            self.spec_material() == other.spec_material(),
        ensures
            self == other,
    {
    }

    /// The heat capacity of a well-formed body is strictly positive, so its
    /// temperature is always defined; the mass is no larger than the heat
    /// capacity.
    pub proof fn lemma_heat_capacity_positive(self)
        requires
            self.wf(),
        ensures
            0 < self.spec_mass() <= self.spec_heat_capacity() <= i64::MAX,
            i64::MIN <= self.spec_heat() <= i64::MAX,
    {
        self.spec_material().lemma_wf();
        let v = self.spec_volume() as int;
        let rho = self.spec_material().mass_density() as int;
        let c = self.spec_material().specific_heat() as int;
        assert(0 < v * rho <= (v * rho) * c) by (nonlinear_arith)
            requires
                v > 0,
                rho > 0,
                c > 0,
        ;
    }

    /// Stored energy above absolute zero, in attojoule.
    #[verifier::when_used_as_spec(spec_heat)]
    pub fn heat(&self) -> (heat: i64)
        ensures
            heat == self.spec_heat(),
    {
        self.heat
    }

    /// Volume, in nanolitre.
    #[verifier::when_used_as_spec(spec_volume)]
    pub fn volume(&self) -> (volume: u64)
        ensures
            volume == self.spec_volume(),
    {
        self.volume
    }

    /// What the body is made of.
    #[verifier::when_used_as_spec(spec_material)]
    pub fn material(&self) -> (material: Material)
        ensures
            material == self.spec_material(),
    {
        self.material
    }

    /// Mass, in picogram.
    pub fn mass(&self) -> (mass: u64)
        requires
            self.wf(),
        ensures
            mass == self.spec_mass(),
    {
        proof {
            self.lemma_heat_capacity_positive();
        }
        let mass: u128 = (self.volume as u128) * (self.material.density() as u128);
        mass as u64
    }

    /// Heat capacity, in attojoule per kelvin.
    pub fn heat_capacity(&self) -> (heat_capacity: u64)
        requires
            self.wf(),
        ensures
            heat_capacity == self.spec_heat_capacity(),
            0 < heat_capacity <= i64::MAX,
    {
        proof {
            self.lemma_heat_capacity_positive();
        }
        let specific: u128 = self.material.specific_heat_capacity() as u128;
        let heat_capacity: u128 = (self.mass() as u128) * specific;
        heat_capacity as u64
    }

    /// Temperature: the stored energy over the heat capacity, as an exact
    /// ratio.
    pub fn temperature(&self) -> (temperature: ThermodynamicTemperature)
        requires
            self.wf(),
        ensures
            temperature.wf(),
            temperature == self.spec_temperature(),
            temperature.numer() == self.spec_heat(),
            temperature.denom() == self.spec_heat_capacity(),
            temperature@ == self.kelvin(),
    {
        ThermodynamicTemperature::new(self.heat, self.heat_capacity())
    }

    /// The body of the given volume and material at the given temperature:
    /// its stored energy is the temperature times the heat capacity, rounded
    /// towards zero to whole attojoule. The heat capacity and the stored
    /// energy have to fit 64 bits.
    pub fn from_temperature_volume_material(
        temperature: ThermodynamicTemperature,
        volume: u64,
        material: Material,
    ) -> (body: Self)
        requires
            temperature.wf(),
            temperature@ >= 0real,
            volume > 0,
            material.wf(),
            capacity_of(volume as int, material) <= i64::MAX,
            heat_for(temperature@, capacity_of(volume as int, material)) <= i64::MAX,
        ensures
            body.wf(),
            body.spec_volume() == volume,
            body.spec_material() == material,
            body.spec_heat_capacity() == capacity_of(volume as int, material),
            body.spec_heat() == heat_for(temperature@, body.spec_heat_capacity()),
            body.spec_heat() >= 0,
            body.kelvin() <= temperature@,
            (temperature.numer() * body.spec_heat_capacity()) % temperature.denom() == 0
                ==> body.kelvin() == temperature@,
    {
        let ghost capacity = capacity_of(volume as int, material);
        proof {
            material.lemma_wf();
            lemma_ratio_sign(temperature.numer(), temperature.denom());
            assert(0 < volume * material.mass_density() <= capacity) by (nonlinear_arith)
                requires
                    capacity == volume * material.mass_density() * material.specific_heat(),
                    volume > 0,
                    material.mass_density() > 0,
                    material.specific_heat() > 0,
            ;
            lemma_heat_for_ratio(temperature.numer(), temperature.denom(), capacity);
            lemma_heat_for_reads_back(temperature.numer(), temperature.denom(), capacity);
            lemma_cross_product_bounded(temperature.numer(), capacity);
        }
        let mass: u128 = (volume as u128) * (material.density() as u128);
        let heat_capacity: u128 = mass * (material.specific_heat_capacity() as u128);
        let product: i128 = (temperature.numerator as i128) * (heat_capacity as i128);
        let heat: i128 = product / (temperature.denominator as i128);
        assert(heat >= 0) by (nonlinear_arith)
            requires
                heat == (product as int) / temperature.denom(),
                product >= 0,
                temperature.denom() > 0,
        ;
        HeatBody { heat: heat as i64, volume, material }
    }

    /// Whether a body of this volume and material can stand at this
    /// temperature: the temperature is not below absolute zero, the volume
    /// is positive, and the heat capacity and the stored energy fit the
    /// machine.
    pub open spec fn representable(
        temperature: ThermodynamicTemperature,
        volume: u64,
        material: Material,
    ) -> bool {
        &&& temperature@ >= 0real
        &&& volume > 0
        &&& capacity_of(volume as int, material) <= i64::MAX
        &&& heat_for(temperature@, capacity_of(volume as int, material)) <= i64::MAX
    }

    /// The body of the given volume and material at the given temperature,
    /// where there is one.
    pub fn try_from_temperature_volume_material(
        temperature: ThermodynamicTemperature,
        volume: u64,
        material: Material,
    ) -> (body: Option<Self>)
        requires
            temperature.wf(),
            material.wf(),
        ensures
            body.is_some() <==> Self::representable(temperature, volume, material),
            body matches Some(made) ==> {
                &&& made.wf()
                &&& made.spec_volume() == volume
                &&& made.spec_material() == material
                &&& made.spec_heat_capacity() == capacity_of(volume as int, material)
                &&& made.spec_heat() == heat_for(temperature@, made.spec_heat_capacity())
                &&& made.spec_heat() >= 0
            },
    {
        let ghost capacity = capacity_of(volume as int, material);
        proof {
            material.lemma_wf();
            lemma_ratio_sign(temperature.numer(), temperature.denom());
            let rho = material.mass_density();
            let c = material.specific_heat();
            assert(volume * rho <= 0xFFFF_FFFF_FFFF_FFFF * 0xFFFF_FFFF && (volume * rho) * c
                <= 0xFFFF_FFFF_FFFF_FFFF * 0xFFFF_FFFF * 0xFFFF_FFFF) by (nonlinear_arith)
                requires
                    0 <= volume <= 0xFFFF_FFFF_FFFF_FFFF,
                    0 <= rho <= 0xFFFF_FFFF,
                    0 <= c <= 0xFFFF_FFFF,
            ;
        }
        if temperature.numerator < 0 || volume == 0 {
            return None;
        }
        let mass: u128 = (volume as u128) * (material.density() as u128);
        let heat_capacity: u128 = mass * (material.specific_heat_capacity() as u128);
        if heat_capacity > 0x7FFF_FFFF_FFFF_FFFFu128 {
            return None;
        }
        proof {
            lemma_heat_for_ratio(temperature.numer(), temperature.denom(), capacity);
            lemma_cross_product_bounded(temperature.numer(), capacity);
        }
        let product: i128 = (temperature.numerator as i128) * (heat_capacity as i128);
        let heat: i128 = product / (temperature.denominator as i128);
        if heat > 0x7FFF_FFFF_FFFF_FFFFi128 {
            return None;
        }
        Some(Self::from_temperature_volume_material(temperature, volume, material))
    }

    /// The same body with another stored energy.
    pub closed spec fn with_heat(self, heat: i64) -> HeatBody {
        HeatBody { heat, volume: self.volume, material: self.material }
    }

    /// What `with_heat` changes and what it keeps.
    pub proof fn lemma_with_heat(self, heat: i64)
        ensures
            self.with_heat(heat).spec_heat() == heat,
            self.with_heat(heat).spec_volume() == self.spec_volume(),
            self.with_heat(heat).spec_material() == self.spec_material(),
            self.with_heat(heat).spec_heat_capacity() == self.spec_heat_capacity(),
            self.with_heat(heat).wf() == self.wf(),
            self.with_heat(self.spec_heat()) == self,
    {
    }

    /// Adds `heat` attojoule to the store. Nothing here keeps the body above
    /// absolute zero: bounding a transfer is the conduction step's business.
    pub fn add_heat(&mut self, heat: i64)
        requires
            i64::MIN <= old(self).spec_heat() + heat <= i64::MAX,
        ensures
            final(self).spec_heat() == old(self).spec_heat() + heat,
            final(self).spec_volume() == old(self).spec_volume(),
            final(self).spec_material() == old(self).spec_material(),
    {
        self.heat = self.heat + heat;
    }

    /// Changes the temperature by the given interval: adds the interval times
    /// the heat capacity to the store, rounded towards zero to whole
    /// attojoule. The product of the interval's numerator and the heat
    /// capacity has to fit 128 bits, and the new stored energy 64.
    pub fn add_temperature(&mut self, temperature: TemperatureInterval)
        requires
            old(self).wf(),
            temperature.wf(),
            -u128::MAX <= temperature.numer() * old(self).spec_heat_capacity() <= u128::MAX,
            i64::MIN <= old(self).spec_heat() + heat_for(
                temperature@,
                old(self).spec_heat_capacity(),
            ) <= i64::MAX,
        ensures
            final(self).spec_heat() == old(self).spec_heat() + heat_for(
                temperature@,
                old(self).spec_heat_capacity(),
            ),
            final(self).spec_volume() == old(self).spec_volume(),
            final(self).spec_material() == old(self).spec_material(),
            (temperature.numer() * old(self).spec_heat_capacity()) % temperature.denom() == 0
                ==> final(self).kelvin() == old(self).kelvin() + temperature@,
    {
        let capacity: u128 = self.heat_capacity() as u128;
        let numerator: i128 = temperature.numerator;
        proof {
            if (temperature.numer() * capacity) % temperature.denom() == 0 {
                lemma_exact_change_of_temperature(
                    self.spec_heat() as int,
                    temperature.numer(),
                    temperature.denom(),
                    capacity as int,
                );
            }
            lemma_heat_for_ratio(temperature.numer(), temperature.denom(), capacity as int);
            assert((-numerator) * capacity == -(numerator * capacity)) by (nonlinear_arith);
        }
        let ghost change = heat_for(temperature@, capacity as int);
        if numerator >= 0 {
            let magnitude: u128 = numerator as u128;
            let gained: u128 = (magnitude * capacity) / temperature.denominator;
            assert(gained == change);
            self.heat = ((self.heat as i128) + (gained as i128)) as i64;
        } else {
            let magnitude: u128 = ((-(numerator + 1)) as u128) + 1;
            let lost: u128 = (magnitude * capacity) / temperature.denominator;
            assert(lost == -change);
            self.heat = ((self.heat as i128) - (lost as i128)) as i64;
        }
    }

    /// One conduction step between two touching bodies over `delta`
    /// nanoseconds. Returns the heat moved from `self` to `other`, negative
    /// where it moved the other way. Both bodies have to be at or above
    /// absolute zero, and the energy of both together has to fit 64 bits.
    pub fn transfer_heat(&mut self, other: &mut Self, delta: u64) -> (moved: i64)
        requires
            can_exchange(*old(self), *old(other)),
            old(self).spec_heat() + old(other).spec_heat() <= i64::MAX,
        ensures
            moved == heat_transfer(*old(self), *old(other), delta as int),
            final(self).spec_heat() == old(self).spec_heat() - moved,
            final(other).spec_heat() == old(other).spec_heat() + moved,
            final(self).spec_volume() == old(self).spec_volume(),
            final(self).spec_material() == old(self).spec_material(),
            final(other).spec_volume() == old(other).spec_volume(),
            final(other).spec_material() == old(other).spec_material(),
            *final(self) == old(self).with_heat((old(self).spec_heat() - moved) as i64),
            *final(other) == old(other).with_heat((old(other).spec_heat() + moved) as i64),
            final(self).spec_heat() + final(other).spec_heat() == old(self).spec_heat() + old(
                other,
            ).spec_heat(),
            final(self).spec_heat() >= 0,
            final(other).spec_heat() >= 0,
            delta == 0 ==> moved == 0,
            stays_within_midpoint(*old(self), *old(other), moved as int) <==> real_abs(
                moved as real,
            ) <= equalising_heat(*old(self), *old(other)),
            old(self).kelvin() > old(other).kelvin() ==> moved >= 0,
            old(self).kelvin() < old(other).kelvin() ==> moved <= 0,
            old(self).kelvin() == old(other).kelvin() ==> moved == 0 && *final(self) == *old(self)
                && *final(other) == *old(other),
    {
        proof {
            if delta == 0 {
                lemma_no_time_moves_nothing(*self, *other);
            }
            lemma_heat_flows_downhill(*self, *other, delta as int);
            lemma_within_midpoint_iff_gentle(*self, *other, delta as int);
            if self.kelvin() == other.kelvin() {
                lemma_equilibrium_is_fixed(*self, *other, delta as int);
            }
        }
        let ghost before_a = *self;
        let ghost before_b = *other;
        let capacity_a: u64 = self.heat_capacity();
        let capacity_b: u64 = other.heat_capacity();
        let temperature_delta = self.temperature().minus(&other.temperature());
        let difference: i128 = temperature_delta.numerator;
        proof {
            lemma_heat_transfer_in_integers(*self, *other, delta as int);
            lemma_cross_product_bounded(self.spec_heat() as int, capacity_b as int);
            lemma_cross_product_bounded(other.spec_heat() as int, capacity_a as int);
            self.spec_material().lemma_wf();
            assert(self.spec_heat() * (2 * capacity_b) == 2 * (self.spec_heat() * capacity_b))
                by (nonlinear_arith);
            assert(other.spec_heat() * (2 * capacity_a) == 2 * (other.spec_heat() * capacity_a))
                by (nonlinear_arith);
            assert(difference == cross_difference(*self, *other));
        }
        let sum: i128 = (self.heat as i128) * (capacity_b as i128) + (other.heat as i128)
            * (capacity_a as i128);
        let factor: u64 = (self.material.thermal_conductivity() as u64) * CONTACT_AREA
            * CONDUCTANCE_SCALE;
        let moved: i64 = if difference >= 0 {
            let cap: i128 = sum / (2 * (capacity_b as i128));
            assert(0 <= cap <= self.spec_heat()) by (nonlinear_arith)
                requires
                    cap == (sum as int) / (2 * capacity_b),
                    0 <= sum <= self.spec_heat() * (2 * capacity_b),
                    capacity_b > 0,
            ;
            let flow: u64 = bounded_flow(
                difference as u128,
                delta,
                factor,
                capacity_a,
                capacity_b,
                cap as u64,
            );
            flow as i64
        } else {
            let cap: i128 = sum / (2 * (capacity_a as i128));
            assert(0 <= cap <= other.spec_heat()) by (nonlinear_arith)
                requires
                    cap == (sum as int) / (2 * capacity_a),
                    0 <= sum <= other.spec_heat() * (2 * capacity_a),
                    capacity_a > 0,
            ;
            let flow: u64 = bounded_flow(
                (-difference) as u128,
                delta,
                factor,
                capacity_a,
                capacity_b,
                cap as u64,
            );
            -(flow as i64)
        };
        self.add_heat(-moved);
        other.add_heat(moved);
        proof {
            before_a.lemma_with_heat(self.spec_heat());
            before_b.lemma_with_heat(other.spec_heat());
            self.lemma_determined_by_parts(before_a.with_heat(self.spec_heat()));
            other.lemma_determined_by_parts(before_b.with_heat(other.spec_heat()));
        }
        moved
    }
}

} // verus!
