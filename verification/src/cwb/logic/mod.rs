//! From the upstream payloads to the records that the service answers with.

pub mod daily_extremes;
pub mod get_weather_data;
pub mod get_weather_forecast;
