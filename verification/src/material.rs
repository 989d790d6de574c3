//! Materials: the physical constants that decide how a body stores and
//! conducts heat.

use vstd::prelude::*;
use vstd::std_specs::convert::FromSpecImpl;

verus! {

/// A display colour hint, each channel in percent of full intensity.
#[derive(Clone, Copy, Debug, PartialEq, Eq, Structural)]
pub struct BaseColor {
    pub red: u8,
    pub green: u8,
    pub blue: u8,
}

/// The materials that come with constants of their own.
#[derive(Clone, Copy, Debug, PartialEq, Eq, Structural)]
pub enum MaterialType {
    Aluminium,
    Copper,
    Iron,
}

/// The constants of one material. They never change once the value is made.
#[derive(Clone, Copy, Debug, PartialEq, Eq, Structural)]
pub struct Material {
    thermal_conductivity: u32,
    specific_heat_capacity: u32,
    density: u32,
    base_color: BaseColor,
}

impl Material {
    /// All three physical constants are strictly positive.
    pub closed spec fn wf(self) -> bool {
        &&& self.thermal_conductivity > 0
        &&& self.specific_heat_capacity > 0
        &&& self.density > 0
    }

    /// Thermal conductivity, in watt per metre kelvin.
    pub closed spec fn conductivity(self) -> int {
        self.thermal_conductivity as int
    }

    /// Specific heat capacity, in millijoule per kilogram kelvin.
    pub closed spec fn specific_heat(self) -> int {
        self.specific_heat_capacity as int
    }

    /// Density, in gram per cubic metre.
    pub closed spec fn mass_density(self) -> int {
        self.density as int
    }

    /// The display colour hint.
    pub closed spec fn color(self) -> BaseColor {
        self.base_color
    }

    /// The constants of a named material.
    pub open spec fn preset(material_type: MaterialType) -> (int, int, int, BaseColor) {
        match material_type {
            MaterialType::Aluminium => (237, 900, 2700, BaseColor { red: 80, green: 80, blue: 90 }),
            MaterialType::Copper => (385, 385, 8960, BaseColor { red: 90, green: 60, blue: 20 }),
            MaterialType::Iron => (80, 450, 7870, BaseColor { red: 80, green: 80, blue: 80 }),
        }
    }

    /// The material of a named kind.
    pub closed spec fn of_type(material_type: MaterialType) -> Material {
        let (k, c, rho, color) = Material::preset(material_type);
        Material {
            thermal_conductivity: k as u32,
            specific_heat_capacity: c as u32,
            density: rho as u32,
            base_color: color,
        }
    }

    /// The material of a named kind is well formed and has that kind's
    /// constants.
    pub proof fn lemma_of_type(material_type: MaterialType)
        ensures
            Material::of_type(material_type).wf(),
            Material::of_type(material_type).conductivity() == Material::preset(material_type).0,
            Material::of_type(material_type).specific_heat() == Material::preset(material_type).1,
            Material::of_type(material_type).mass_density() == Material::preset(material_type).2,
            Material::of_type(material_type).color() == Material::preset(material_type).3,
    {
    }

    /// The strict positivity of the constants, in terms of the accessors.
    pub proof fn lemma_wf(self)
        ensures
            self.wf() <==> (self.conductivity() > 0 && self.specific_heat() > 0
                && self.mass_density() > 0),
            0 <= self.conductivity() <= u32::MAX,
            0 <= self.specific_heat() <= u32::MAX,
            0 <= self.mass_density() <= u32::MAX,
    {
    }

    /// The material with the given constants, each strictly positive.
    pub fn new(
        thermal_conductivity: u32,
        specific_heat_capacity: u32,
        density: u32,
        base_color: BaseColor,
    ) -> (material: Material)
        requires
            thermal_conductivity > 0,
            specific_heat_capacity > 0,
            density > 0,
        ensures
            material.wf(),
            material.conductivity() == thermal_conductivity,
            material.specific_heat() == specific_heat_capacity,
            material.mass_density() == density,
            material.color() == base_color,
    {
        Material { thermal_conductivity, specific_heat_capacity, density, base_color }
    }

    /// Thermal conductivity, in watt per metre kelvin.
    pub fn thermal_conductivity(&self) -> (k: u32)
        ensures
            k == self.conductivity(),
    {
        self.thermal_conductivity
    }

    /// Specific heat capacity, in millijoule per kilogram kelvin.
    pub fn specific_heat_capacity(&self) -> (c: u32)
        ensures
            c == self.specific_heat(),
    {
        self.specific_heat_capacity
    }

    /// Density, in gram per cubic metre.
    pub fn density(&self) -> (rho: u32)
        ensures
            rho == self.mass_density(),
    {
        self.density
    }

    /// The display colour hint.
    pub fn base_color(&self) -> (color: BaseColor)
        ensures
            color == self.color(),
    {
        self.base_color
    }
}

impl FromSpecImpl<MaterialType> for Material {
    open spec fn obeys_from_spec() -> bool {
        true
    }

    open spec fn from_spec(material_type: MaterialType) -> Material {
        Material::of_type(material_type)
    }
}

impl From<MaterialType> for Material {
    /// The material of a named kind.
    fn from(material_type: MaterialType) -> (material: Material)
        ensures
            material == Material::of_type(material_type),
            material.wf(),
            material.conductivity() == Material::preset(material_type).0,
            material.specific_heat() == Material::preset(material_type).1,
            material.mass_density() == Material::preset(material_type).2,
            material.color() == Material::preset(material_type).3,
    {
        match material_type {
            MaterialType::Aluminium => Material::new(
                237,
                900,
                2700,
                BaseColor { red: 80, green: 80, blue: 90 },
            ),
            MaterialType::Copper => Material::new(
                385,
                385,
                8960,
                BaseColor { red: 90, green: 60, blue: 20 },
            ),
            MaterialType::Iron => Material::new(
                80,
                450,
                7870,
                BaseColor { red: 80, green: 80, blue: 80 },
            ),
        }
    }
}

} // verus!
