//! Readings as the sensor gives them, and the samples made of them.

use vstd::prelude::*;

use crate::error::ValidationError;

verus! {

/// The lowest CO2 concentration, in parts per million, that is believed.
/// Outdoor air holds more; a sensor that reports less is at fault.
pub const CO2_FLOOR: u16 = 300;

/// One value read from the sensor.
#[derive(Debug, Clone, Copy, PartialEq, Eq, Structural)]
pub struct Reading {
    /// CO2 concentration, in parts per million.
    pub co2: u16,
    /// Ambient temperature in degrees Celsius: the bit pattern of an IEEE 754
    /// single-precision number.
    pub temperature: u32,
}

/// A reading that was believed, with the time at which it was taken.
#[derive(Debug, Clone, Copy, PartialEq, Eq, Structural)]
pub struct Datum {
    /// Ambient temperature in degrees Celsius: the bit pattern of an IEEE 754
    /// single-precision number.
    pub temperature: u32,
    /// CO2 concentration, in parts per million.
    pub co2: u16,
    /// Seconds since the Unix epoch.
    pub timestamp: u64,
}

/// What becomes of a reading taken at `now`: a sample with the same values if
/// its CO2 concentration reaches the floor, and else a refusal that names the
/// concentration. The temperature is not looked at.
pub open spec fn validated(reading: Reading, now: u64) -> Result<Datum, ValidationError> {
    if reading.co2 < CO2_FLOOR {
        Err(ValidationError::OutOfRange(reading.co2))
    } else {
        Ok(Datum { temperature: reading.temperature, co2: reading.co2, timestamp: now })
    }
}

impl Default for Datum {
    /// The sample of all zeroes: zero degrees, no CO2, taken at the epoch.
    fn default() -> (datum: Datum)
        ensures
            datum == (Datum { temperature: 0, co2: 0, timestamp: 0 }),
    {
        Datum { temperature: 0, co2: 0, timestamp: 0 }
    }
}

impl Datum {
    /// Whether the sample could have come out of [`Datum::validate`].
    pub open spec fn is_valid(self) -> bool {
        self.co2 >= CO2_FLOOR
    }

    /// Turns a reading taken at `now` into a sample, or refuses it.
    pub fn validate(reading: Reading, now: u64) -> (result: Result<Datum, ValidationError>)
        ensures
            result == validated(reading, now),
            result matches Ok(datum) ==> datum.is_valid(),
    {
        if reading.co2 < CO2_FLOOR {
            Err(ValidationError::OutOfRange(reading.co2))
        } else {
            Ok(Datum { temperature: reading.temperature, co2: reading.co2, timestamp: now })
        }
    }
}

/// A CO2 concentration below 300 is always refused. One of 300 or more is
/// always accepted, whatever the temperature, and the sample carries exactly
/// the reading's concentration and temperature and the time given.
pub proof fn lemma_validation_boundary(reading: Reading, now: u64)
    ensures
        reading.co2 < 300 ==> validated(reading, now) == Err::<Datum, ValidationError>(
            ValidationError::OutOfRange(reading.co2),
        ),
        reading.co2 >= 300 ==> validated(reading, now) == Ok::<Datum, ValidationError>(
            Datum { temperature: reading.temperature, co2: reading.co2, timestamp: now },
        ),
{
}

} // verus!
