use thermal_exchange::material::{BaseColor, Material, MaterialType};

#[test]
fn aluminium_has_its_constants() {
    let aluminium = Material::from(MaterialType::Aluminium);
    assert_eq!(aluminium.thermal_conductivity(), 237);
    assert_eq!(aluminium.specific_heat_capacity(), 900);
    assert_eq!(aluminium.density(), 2700);
    assert_eq!(aluminium.base_color(), BaseColor { red: 80, green: 80, blue: 90 });
}

#[test]
fn copper_has_its_constants() {
    let copper = Material::from(MaterialType::Copper);
    assert_eq!(copper.thermal_conductivity(), 385);
    assert_eq!(copper.specific_heat_capacity(), 385);
    assert_eq!(copper.density(), 8960);
    assert_eq!(copper.base_color(), BaseColor { red: 90, green: 60, blue: 20 });
}

#[test]
fn iron_has_its_constants() {
    let iron = Material::from(MaterialType::Iron);
    assert_eq!(iron.thermal_conductivity(), 80);
    assert_eq!(iron.specific_heat_capacity(), 450);
    assert_eq!(iron.density(), 7870);
    assert_eq!(iron.base_color(), BaseColor { red: 80, green: 80, blue: 80 });
}

#[test]
fn a_new_material_keeps_what_it_was_given() {
    let color = BaseColor { red: 10, green: 20, blue: 30 };
    let material = Material::new(1, 2, 3, color);
    assert_eq!(material.thermal_conductivity(), 1);
    assert_eq!(material.specific_heat_capacity(), 2);
    assert_eq!(material.density(), 3);
    assert_eq!(material.base_color(), color);
}

#[test]
fn a_preset_equals_the_material_built_from_its_constants() {
    let built = Material::new(385, 385, 8960, BaseColor { red: 90, green: 60, blue: 20 });
    assert_eq!(Material::from(MaterialType::Copper), built);
    assert_ne!(Material::from(MaterialType::Iron), built);
}
