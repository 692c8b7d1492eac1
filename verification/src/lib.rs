//! Verified conversion of tabular columns into the row-major feature
//! layout that a CatBoost model consumes.

pub mod decimal;
pub mod error;
pub mod rounding;
pub mod column;
pub mod features;
