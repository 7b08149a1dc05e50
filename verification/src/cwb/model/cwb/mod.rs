//! The upstream payloads, as the weather service sends them.

pub mod forecast;
pub mod weather_data;
