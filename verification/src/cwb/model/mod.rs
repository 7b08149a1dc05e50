//! Data model: the upstream payloads, the responses, and the errors.

pub mod cwb;
pub mod decimal;
pub mod error;
pub mod resp;

pub use error::Error;
pub use error::Field;
