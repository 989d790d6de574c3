use thermal_exchange::color::{black_body_color, Rgb};
use thermal_exchange::temperature::ThermodynamicTemperature;

fn glow(kelvin: i64) -> Rgb {
    black_body_color(&ThermodynamicTemperature::from_kelvin(kelvin))
}

#[test]
fn a_cold_body_glows_red_only() {
    assert_eq!(glow(0), Rgb { red: 255, green: 0, blue: 0 });
    assert_eq!(glow(50), Rgb { red: 255, green: 0, blue: 0 });
}

#[test]
fn the_glow_follows_the_temperature() {
    assert_eq!(glow(1000), Rgb { red: 255, green: 68, blue: 0 });
    assert_eq!(glow(1999), Rgb { red: 255, green: 132, blue: 0 });
    assert_eq!(glow(2000), Rgb { red: 255, green: 137, blue: 14 });
    assert_eq!(glow(3000), Rgb { red: 255, green: 177, blue: 110 });
    assert_eq!(glow(5000), Rgb { red: 255, green: 228, blue: 206 });
    assert_eq!(glow(6599), Rgb { red: 255, green: 254, blue: 250 });
}

#[test]
fn the_glow_is_white_at_the_turning_point() {
    assert_eq!(glow(6600), Rgb { red: 255, green: 255, blue: 255 });
    assert_eq!(glow(6699), Rgb { red: 255, green: 255, blue: 255 });
}

#[test]
fn a_very_hot_body_glows_without_red() {
    assert_eq!(glow(6700), Rgb { red: 0, green: 249, blue: 255 });
    assert_eq!(glow(10000), Rgb { red: 0, green: 218, blue: 255 });
    assert_eq!(glow(100000), Rgb { red: 0, green: 172, blue: 255 });
}

#[test]
fn the_glow_goes_by_whole_kelvin_rounded_towards_zero() {
    let just_below = ThermodynamicTemperature::new(13_399, 2);
    assert_eq!(black_body_color(&just_below), glow(6699));
    let just_above = ThermodynamicTemperature::new(13_401, 2);
    assert_eq!(black_body_color(&just_above), glow(6700));
    let below_zero = ThermodynamicTemperature::new(-1, 2);
    assert_eq!(black_body_color(&below_zero), glow(0));
}
