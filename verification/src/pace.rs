//! Paces as entered in a workout definition, and their conversion to a belt
//! speed in hundredths of a kilometre per hour.

use vstd::prelude::*;
use crate::duration::{duration_of, parse_duration, ParseError};

verus! {

/// Seconds in an hour.
pub const SECONDS_PER_HOUR: u32 = 3600;

/// Centimetres in a mile: a mile is 1.60934 km.
pub const CENTIMETRES_PER_MILE: u32 = 160934;

/// The fastest speed that 16 bits hold, in hundredths of a kilometre per
/// hour.
pub const MAX_SPEED: u16 = 65535;

/// A pace as entered: a unit and the text of its value.
#[derive(Debug, Clone, PartialEq, Eq)]
pub enum PaceRaw {
    /// Miles per hour.
    MPH(String),
    /// Kilometres per hour.
    KPH(String),
    /// Minutes per mile, written `MM:SS`.
    MinPerMi(String),
    /// Minutes per kilometre, written `MM:SS`.
    MinPerKm(String),
}

impl PaceRaw {
    /// Whether the unit is converted. Only minutes per mile is; a pace in
    /// any other unit converts to speed zero, which no converted pace gives.
    pub open spec fn is_converted(self) -> bool {
        self is MinPerMi
    }

    /// Tells whether the unit is converted, so that a caller can tell a pace
    /// that was left at zero from one that was read.
    pub fn is_supported(&self) -> (supported: bool)
        ensures
            supported == self.is_converted(),
    {
        match self {
            PaceRaw::MinPerMi(_) => true,
            _ => false,
        }
    }
}

/// The speed of one mile in `seconds_per_mile`, in hundredths of a kilometre
/// per hour, rounded down: `3600 / seconds_per_mile * 1.60934 * 100`. A speed
/// above the 16-bit range, and that of a mile in no time, is the highest
/// speed.
pub open spec fn speed_of_mile_time(seconds_per_mile: u16) -> u16 {
    if seconds_per_mile == 0 {
        MAX_SPEED
    } else {
        let exact = (SECONDS_PER_HOUR * CENTIMETRES_PER_MILE) / (1000 * seconds_per_mile);
        if exact > MAX_SPEED {
            MAX_SPEED
        } else {
            exact as u16
        }
    }
}

/// The speed that a pace denotes. A unit that is not converted gives zero,
/// whatever its value.
pub open spec fn pace_of(pace: PaceRaw) -> Result<u16, ParseError> {
    match pace {
        PaceRaw::MinPerMi(value) => match duration_of(value@) {
            Ok(seconds_per_mile) => Ok(speed_of_mile_time(seconds_per_mile)),
            Err(error) => Err(error),
        },
        _ => Ok(0u16),
    }
}

/// Converts the time for one mile into a speed.
pub fn mile_time_to_speed(seconds_per_mile: u16) -> (speed: u16)
    ensures
        speed == speed_of_mile_time(seconds_per_mile),
{
    if seconds_per_mile == 0 {
        return MAX_SPEED;
    }
    let exact: u32 = (SECONDS_PER_HOUR * CENTIMETRES_PER_MILE) / (1000 * (seconds_per_mile as u32));
    if exact > MAX_SPEED as u32 {
        MAX_SPEED
    } else {
        exact as u16
    }
}

/// Converts a pace into a speed in hundredths of a kilometre per hour.
///
/// Only minutes per mile is converted; its value is read as a duration and
/// fails as a duration does. A pace in any other unit gives zero and its
/// value is not read.
pub fn parse_pace(pace: &PaceRaw) -> (result: Result<u16, ParseError>)
    ensures
        result == pace_of(*pace),
{
    match pace {
        PaceRaw::MinPerMi(value) => {
            match parse_duration(value.as_str()) {
                Ok(seconds_per_mile) => Ok(mile_time_to_speed(seconds_per_mile)),
                Err(error) => Err(error),
            }
        },
        _ => Ok(0),
    }
}

/// A converted pace is never zero: the slowest mile, 65535 seconds, still
/// gives 0.08 km/h. So speed zero always marks a unit that is not converted.
pub proof fn lemma_converted_pace_is_positive(pace: PaceRaw)
    requires
        pace.is_converted(),
        pace_of(pace) is Ok,
    ensures
        pace_of(pace)->Ok_0 >= 8,
{
    let seconds = duration_of(pace->MinPerMi_0@)->Ok_0;
    lemma_speed_bounds(seconds);
}

/// The speed of a mile time is the exact quotient rounded down: a hundred
/// times the speed, times the seconds, falls short of `3600 * 1.60934 * 100`
/// by less than the seconds. It saturates only below nine seconds per mile.
pub proof fn lemma_speed_bounds(seconds_per_mile: u16)
    ensures
        speed_of_mile_time(seconds_per_mile) >= 8,
        seconds_per_mile >= 9 ==> {
            let speed = speed_of_mile_time(seconds_per_mile) as int;
            &&& 1000 * seconds_per_mile * speed <= 579_362_400
            &&& 579_362_400 < 1000 * seconds_per_mile * (speed + 1)
        },
        seconds_per_mile <= 8 ==> speed_of_mile_time(seconds_per_mile) == MAX_SPEED,
{
    if seconds_per_mile > 0 {
        let divisor = 1000 * seconds_per_mile as int;
        let exact = 579_362_400int / divisor;
        assert(SECONDS_PER_HOUR * CENTIMETRES_PER_MILE == 579_362_400);
        vstd::arithmetic::div_mod::lemma_fundamental_div_mod(579_362_400, divisor);
        vstd::arithmetic::div_mod::lemma_mod_bound(579_362_400, divisor);
        assert(divisor * exact <= 579_362_400 < divisor * exact + divisor);
        assert(divisor * (exact + 1) == divisor * exact + divisor) by (nonlinear_arith);
        if exact < 8 {
            assert(divisor * exact + divisor <= divisor * 8) by (nonlinear_arith)
                requires
                    exact < 8,
                    divisor > 0,
            ;
        }
        if seconds_per_mile >= 9 {
            if exact > 65535 {
                assert(divisor * exact >= divisor * 65536) by (nonlinear_arith)
                    requires
                        exact >= 65536,
                        divisor > 0,
                ;
            }
        } else {
            if exact <= 65535 {
                assert(divisor * exact + divisor <= divisor * 65536) by (nonlinear_arith)
                    requires
                        exact <= 65535,
                        divisor > 0,
                ;
            }
        }
    }
}

} // verus!
