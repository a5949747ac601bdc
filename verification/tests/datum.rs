use coot::{Datum, Reading, ValidationError, CO2_FLOOR};

fn reading(co2: u16, temperature: f32) -> Reading {
    Reading { co2, temperature: temperature.to_bits() }
}

#[test]
fn floor_is_three_hundred() {
    assert_eq!(CO2_FLOOR, 300);
}

#[test]
fn validate_rejects_just_below_the_floor() {
    assert_eq!(
        Datum::validate(reading(299, 21.3), 1_600_000_000),
        Err(ValidationError::OutOfRange(299))
    );
}

#[test]
fn validate_rejects_zero() {
    assert_eq!(Datum::validate(reading(0, 21.3), 0), Err(ValidationError::OutOfRange(0)));
}

#[test]
fn validate_accepts_the_floor() {
    assert_eq!(
        Datum::validate(reading(300, 21.3), 1_600_000_000),
        Ok(Datum { temperature: 21.3f32.to_bits(), co2: 300, timestamp: 1_600_000_000 })
    );
}

#[test]
fn validate_accepts_above_the_floor() {
    assert_eq!(
        Datum::validate(reading(400, 21.3), 123456789),
        Ok(Datum { temperature: 21.3f32.to_bits(), co2: 400, timestamp: 123456789 })
    );
}

#[test]
fn validate_has_no_upper_bound() {
    assert_eq!(
        Datum::validate(reading(u16::MAX, 1000.0), u64::MAX),
        Ok(Datum { temperature: 1000.0f32.to_bits(), co2: u16::MAX, timestamp: u64::MAX })
    );
}

#[test]
fn validate_stamps_with_the_time_given() {
    let early = Datum::validate(reading(400, 21.3), 1).unwrap();
    let late = Datum::validate(reading(400, 21.3), 2).unwrap();
    assert_eq!(early.timestamp, 1);
    assert_eq!(late.timestamp, 2);
}

#[test]
fn validate_does_not_look_at_the_temperature() {
    for temperature in [0.0f32, -0.0, -273.15, 21.3, f32::MAX, f32::MIN, f32::INFINITY, f32::NAN] {
        let datum = Datum::validate(reading(400, temperature), 7).unwrap();
        assert_eq!(datum.temperature, temperature.to_bits());
        assert_eq!(
            Datum::validate(reading(299, temperature), 7),
            Err(ValidationError::OutOfRange(299))
        );
    }
}

#[test]
fn validate_keeps_the_temperature_to_the_bit() {
    let datum = Datum::validate(reading(400, 21.3), 7).unwrap();
    assert_eq!(f32::from_bits(datum.temperature), 21.3f32);
}

#[test]
fn validation_boundary_on_every_concentration() {
    let mut co2: u16 = 0;
    loop {
        let result = Datum::validate(Reading { co2, temperature: 0x41aa_6666 }, 99);
        if co2 < 300 {
            assert_eq!(result, Err(ValidationError::OutOfRange(co2)));
        } else {
            assert_eq!(result, Ok(Datum { temperature: 0x41aa_6666, co2, timestamp: 99 }));
        }
        if co2 == u16::MAX {
            break;
        }
        co2 += 1;
    }
}

#[test]
fn default_datum_is_all_zeroes() {
    let datum = Datum::default();
    assert_eq!(datum, Datum { temperature: 0, co2: 0, timestamp: 0 });
    assert_eq!(f32::from_bits(datum.temperature), 0.0);
}
