//! Weather observations and forecasts of the Central Weather Bureau, reshaped
//! for two read-only views: the stations' current readings, sorted, grouped by
//! elevation or cut to a limit, and one location's temperature summary.
//!
//! Every reading is a fixed-point number (see [`cwb::model::decimal`]), so that
//! all of the logic is stated and proved over integers.

pub mod cwb;
