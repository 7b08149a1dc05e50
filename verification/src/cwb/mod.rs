//! The weather service: its data model and the logic over it.

pub mod api;
pub mod logic;
pub mod model;
pub mod text;
