use thermal_exchange::temperature::{TemperatureInterval, ThermodynamicTemperature};

#[test]
fn whole_kelvin_keeps_its_parts() {
    let temperature = ThermodynamicTemperature::from_kelvin(293);
    assert_eq!(temperature.numerator, 293);
    assert_eq!(temperature.denominator, 1);
    assert_eq!(temperature.whole_kelvin(), 293);
}

#[test]
fn whole_kelvin_rounds_towards_zero() {
    assert_eq!(ThermodynamicTemperature::new(7, 2).whole_kelvin(), 3);
    assert_eq!(ThermodynamicTemperature::new(-7, 2).whole_kelvin(), -3);
    assert_eq!(ThermodynamicTemperature::new(1, 2).whole_kelvin(), 0);
    assert_eq!(ThermodynamicTemperature::new(-1, 2).whole_kelvin(), 0);
    assert_eq!(ThermodynamicTemperature::new(i64::MIN, 1).whole_kelvin(), i64::MIN);
    assert_eq!(ThermodynamicTemperature::new(i64::MAX, i64::MAX as u64).whole_kelvin(), 1);
}

#[test]
fn a_difference_of_temperatures_is_an_interval() {
    let warm = ThermodynamicTemperature::new(7, 2);
    let cool = ThermodynamicTemperature::new(5, 3);
    let up = warm.minus(&cool);
    assert_eq!(up.numerator, 11);
    assert_eq!(up.denominator, 6);
    let down = cool.minus(&warm);
    assert_eq!(down.numerator, -11);
    assert_eq!(down.denominator, 6);
}

#[test]
fn a_difference_of_extreme_temperatures_fits() {
    let high = ThermodynamicTemperature::new(i64::MAX, i64::MAX as u64);
    let low = ThermodynamicTemperature::new(i64::MIN, i64::MAX as u64);
    let span = high.minus(&low);
    assert_eq!(span.numerator, (i64::MAX as i128) * (i64::MAX as i128) * 2 + i64::MAX as i128);
    assert_eq!(span.denominator, (i64::MAX as u128) * (i64::MAX as u128));
}

#[test]
fn temperatures_compare_by_value() {
    let half = ThermodynamicTemperature::new(1, 2);
    let two_quarters = ThermodynamicTemperature::new(2, 4);
    let third = ThermodynamicTemperature::new(1, 3);
    assert!(half.is_as_hot_as(&two_quarters));
    assert!(!half.is_hotter_than(&two_quarters));
    assert!(half.is_hotter_than(&third));
    assert!(!third.is_hotter_than(&half));
    assert!(!third.is_as_hot_as(&half));
    let below = ThermodynamicTemperature::new(-1, 3);
    assert!(third.is_hotter_than(&below));
    assert!(!below.is_hotter_than(&third));
}

#[test]
fn an_absolute_temperature_reads_as_an_interval_from_zero() {
    let temperature = ThermodynamicTemperature::new(-9, 4);
    let interval = temperature.as_temperature_interval();
    assert_eq!(interval.numerator, -9);
    assert_eq!(interval.denominator, 4);
}

#[test]
fn an_interval_keeps_its_parts() {
    let interval = TemperatureInterval::new(-5, 8);
    assert_eq!(interval.numerator, -5);
    assert_eq!(interval.denominator, 8);
    let whole = TemperatureInterval::from_kelvin(-40);
    assert_eq!(whole.numerator, -40);
    assert_eq!(whole.denominator, 1);
}
