//! The two views that the service answers with.

pub mod compare;
pub mod get_weather_data;
pub mod get_weather_forecast;
pub mod group;
pub mod order;
pub mod query;
