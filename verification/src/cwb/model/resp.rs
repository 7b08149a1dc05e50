//! What the service answers with.

use vstd::prelude::*;

verus! {

/// A temperature in millionths of a degree Celsius.
pub type Temperature = i64;

/// A position in millionths of a degree.
#[derive(Debug, Clone, Copy, PartialEq, Eq, Structural)]
pub struct Position {
    pub latitude: i64,
    pub longitude: i64,
}

/// A station's current readings.
#[derive(Debug)]
pub struct Record {
    pub city: String,
    pub town: String,
    pub name: String,
    /// Precipitation of the day, in millionths of a millimeter.
    pub precipitation_per_day: i64,
    /// Height above sea level, in millionths of a meter.
    pub altitude: i64,
    pub temperature: Temperature,
    pub location: Position,
}

/// The summary of one location's forecast.
#[derive(Debug)]
pub struct Forecast {
    pub name: String,
    pub max_temperature: Temperature,
    pub min_temperature: Temperature,
    pub temperature_difference_per_day: Temperature,
}

} // verus!
