//! The observation payload: per station, its coordinates and two lists of
//! tagged values, all of them text.

use vstd::prelude::*;

verus! {

/// The tags of a station's parameters.
#[derive(Debug, Clone, Copy, PartialEq, Eq, Structural)]
pub enum ParameterName {
    City,
    /// The number of the city.
    CityID,
    Town,
    /// The number of the town.
    TownID,
}

/// The tags of a station's weather elements.
#[derive(Debug, Clone, Copy, PartialEq, Eq, Structural)]
pub enum WeatherElementName {
    /// Height above sea level, in meters.
    Elevation,
    /// Wind direction, in degrees; 0 stands for no wind.
    WindDirection,
    /// Wind speed, in meters per second.
    WindSpeed,
    /// Temperature, in degrees Celsius.
    Temperature,
    /// Relative humidity, as a number from 0 to 1.
    Humidity,
    /// Air pressure at the station, in hectopascal.
    Pressure,
    /// Precipitation of the day so far, in millimeters.
    PrecipitationPerDay,
    /// Speed of the hour's strongest gust, in meters per second.
    MaxWindGustPerHourSpeed,
    /// Direction of the hour's strongest gust, in degrees.
    MaxWindGustPerHourDirection,
    /// Time of the hour's strongest gust.
    MaxWindGustPerHourOccurTime,
    /// The day's highest temperature, in degrees Celsius.
    MaxTemperaturePerDay,
    /// Time of the day's highest temperature.
    MaxTemperaturePerDayOccurTime,
    /// The day's lowest temperature, in degrees Celsius.
    MinTemperaturePerDay,
    /// Time of the day's lowest temperature.
    MinTemperaturePerDayOccurTime,
}

#[derive(Debug)]
pub struct WeatherElement {
    pub name: WeatherElementName,
    pub value: String,
}

#[derive(Debug)]
pub struct Parameter {
    pub name: ParameterName,
    pub value: String,
}

/// One station as the upstream service reports it.
#[derive(Debug)]
pub struct Record {
    /// Latitude.
    pub lat: String,
    /// Longitude.
    pub lon: String,
    /// The station's name.
    pub name: String,
    pub parameters: Vec<Parameter>,
    pub weather_elements: Vec<WeatherElement>,
}

#[derive(Debug)]
pub struct RecordGroup {
    pub locations: Vec<Record>,
}

/// The whole observation payload.
#[derive(Debug)]
pub struct Data {
    pub records: RecordGroup,
}

} // verus!
