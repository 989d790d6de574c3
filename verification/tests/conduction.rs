use thermal_exchange::heat_body::HeatBody;
use thermal_exchange::material::{Material, MaterialType};
use thermal_exchange::temperature::ThermodynamicTemperature;

fn copper(kelvin: i64, nanolitres: u64) -> HeatBody {
    HeatBody::from_temperature_volume_material(
        ThermodynamicTemperature::from_kelvin(kelvin),
        nanolitres,
        Material::from(MaterialType::Copper),
    )
}

#[test]
fn copper_step_without_clamp_moves_the_raw_transfer() {
    let mut hot = copper(1000, 2_000_000_000);
    let mut cold = copper(0, 2_000_000_000);
    let moved = hot.transfer_heat(&mut cold, 6_944_444);
    assert_eq!(moved, 2_673_610_940_000_000_000);
    assert!(moved > 0);
    assert!(hot.temperature().is_hotter_than(&ThermodynamicTemperature::from_kelvin(0)));
    assert!(ThermodynamicTemperature::from_kelvin(1000).is_hotter_than(&hot.temperature()));
    assert!(cold.temperature().is_hotter_than(&ThermodynamicTemperature::from_kelvin(0)));
    assert!(ThermodynamicTemperature::from_kelvin(1000).is_hotter_than(&cold.temperature()));
}

#[test]
fn copper_step_without_clamp_leaves_both_between_the_old_temperatures() {
    let mut hot = copper(1000, 2_000_000_000);
    let mut cold = copper(0, 2_000_000_000);
    hot.transfer_heat(&mut cold, 6_944_444);
    assert_eq!(hot.heat(), 4_225_589_060_000_000_000);
    assert_eq!(cold.heat(), 2_673_610_940_000_000_000);
    assert!(hot.temperature().is_as_hot_as(&ThermodynamicTemperature::new(2_743_889, 4_480)));
    assert!(cold.temperature().is_as_hot_as(&ThermodynamicTemperature::new(1_736_111, 4_480)));
    assert!(hot.temperature().is_hotter_than(&cold.temperature()));
}

#[test]
fn tiny_bodies_and_a_long_step_hit_the_clamp_exactly() {
    let mut hot = copper(1000, 1);
    let mut cold = copper(0, 1);
    let moved = hot.transfer_heat(&mut cold, 1_000_000_000);
    assert_eq!(moved, 1_724_800_000);
    let midpoint = ThermodynamicTemperature::from_kelvin(500);
    assert!(cold.temperature().is_as_hot_as(&midpoint));
    assert!(hot.temperature().is_as_hot_as(&midpoint));
}

#[test]
fn heat_flows_back_where_the_first_body_is_the_colder() {
    let mut cold = copper(0, 1);
    let mut hot = copper(1000, 1);
    let moved = cold.transfer_heat(&mut hot, 1_000_000_000);
    assert_eq!(moved, -1_724_800_000);
    assert_eq!(cold.heat(), 1_724_800_000);
    assert_eq!(hot.heat(), 1_724_800_000);
}

#[test]
fn a_step_moves_energy_and_makes_none() {
    let mut a = HeatBody::from_temperature_volume_material(
        ThermodynamicTemperature::from_kelvin(800),
        500_000_000,
        Material::from(MaterialType::Iron),
    );
    let mut b = HeatBody::from_temperature_volume_material(
        ThermodynamicTemperature::from_kelvin(300),
        500_000_000,
        Material::from(MaterialType::Aluminium),
    );
    let before = a.heat() + b.heat();
    let moved = a.transfer_heat(&mut b, 6_944_444);
    assert_eq!(moved, 277_777_760_000_000_000);
    assert_eq!(a.heat(), 1_416_600_000_000_000_000 - 277_777_760_000_000_000);
    assert_eq!(b.heat(), 364_500_000_000_000_000 + 277_777_760_000_000_000);
    assert_eq!(a.heat() + b.heat(), before);
}

#[test]
fn only_the_first_body_conducts() {
    let mut b = HeatBody::from_temperature_volume_material(
        ThermodynamicTemperature::from_kelvin(300),
        500_000_000,
        Material::from(MaterialType::Aluminium),
    );
    let mut a = HeatBody::from_temperature_volume_material(
        ThermodynamicTemperature::from_kelvin(800),
        500_000_000,
        Material::from(MaterialType::Iron),
    );
    let moved = b.transfer_heat(&mut a, 6_944_444);
    assert_eq!(moved, -822_916_614_000_000_000);
}

#[test]
fn bodies_at_one_temperature_exchange_nothing() {
    let mut a = copper(450, 3);
    let mut b = HeatBody::from_temperature_volume_material(
        ThermodynamicTemperature::from_kelvin(450),
        11,
        Material::from(MaterialType::Iron),
    );
    let (heat_a, heat_b) = (a.heat(), b.heat());
    assert_eq!(a.transfer_heat(&mut b, 1_000_000_000), 0);
    assert_eq!(a.heat(), heat_a);
    assert_eq!(b.heat(), heat_b);
    assert_eq!(b.transfer_heat(&mut a, u64::MAX), 0);
    assert_eq!(a.heat(), heat_a);
    assert_eq!(b.heat(), heat_b);
}

#[test]
fn no_time_moves_no_heat() {
    let mut hot = copper(1000, 1);
    let mut cold = copper(0, 1);
    assert_eq!(hot.transfer_heat(&mut cold, 0), 0);
    assert_eq!(hot.heat(), 3_449_600_000);
    assert_eq!(cold.heat(), 0);
}

#[test]
fn two_bodies_at_absolute_zero_stay_there() {
    let mut a = copper(0, 1);
    let mut b = copper(0, 9);
    assert_eq!(a.transfer_heat(&mut b, u64::MAX), 0);
    assert_eq!(a.heat(), 0);
    assert_eq!(b.heat(), 0);
}

#[test]
fn the_transfer_is_rounded_towards_zero_in_both_directions() {
    let mut a = copper(10, 3);
    a.add_heat(5);
    let mut b = copper(3, 7);
    b.add_heat(1);
    let mut a_again = a;
    let mut b_again = b;
    assert_eq!(a.transfer_heat(&mut b, 1), 67_267_202);
    assert_eq!(b_again.transfer_heat(&mut a_again, 1), -67_267_202);
    assert_eq!(a.heat(), a_again.heat());
    assert_eq!(b.heat(), b_again.heat());
}

#[test]
fn a_gentle_step_keeps_both_on_their_side_of_the_midpoint() {
    let mut hot = copper(1000, 2_000_000_000);
    let mut cold = copper(400, 1_000_000_000);
    let moved = hot.transfer_heat(&mut cold, 1_000_000);
    assert_eq!(moved, 231_000_000_000_000_000);
    let midpoint = ThermodynamicTemperature::from_kelvin(700);
    assert!(hot.temperature().is_hotter_than(&midpoint));
    assert!(midpoint.is_hotter_than(&cold.temperature()));
    assert!(ThermodynamicTemperature::from_kelvin(1000).is_hotter_than(&hot.temperature()));
    assert!(cold.temperature().is_hotter_than(&ThermodynamicTemperature::from_kelvin(400)));
}

#[test]
fn a_long_step_between_warm_bodies_takes_the_midpoint_temperature_from_the_hotter() {
    let mut hot = copper(1000, 1);
    let mut cold = copper(900, 1);
    let moved = hot.transfer_heat(&mut cold, 1_000_000_000);
    assert_eq!(moved, 950 * 3_449_600);
    assert!(hot.temperature().is_as_hot_as(&ThermodynamicTemperature::from_kelvin(50)));
    assert!(cold.temperature().is_as_hot_as(&ThermodynamicTemperature::from_kelvin(1850)));
}

#[test]
fn the_largest_factors_do_not_overflow() {
    let dense = Material::new(u32::MAX, 1, 1, thermal_exchange::material::BaseColor { red: 0, green: 0, blue: 0 });
    let mut hot = HeatBody::from_temperature_volume_material(
        ThermodynamicTemperature::from_kelvin(i64::MAX - 1),
        1,
        dense,
    );
    let mut cold = HeatBody::from_temperature_volume_material(
        ThermodynamicTemperature::from_kelvin(0),
        i64::MAX as u64,
        dense,
    );
    let moved = hot.transfer_heat(&mut cold, u64::MAX);
    assert_eq!(moved, (i64::MAX - 1) / 2);
    assert_eq!(hot.heat() + cold.heat(), i64::MAX - 1);
}
