//! Converts Wareki (JIS X 0301) based dates into Gregorian calendar dates.
//!
//! The pipeline has four stages: width normalization (full-width characters
//! become half-width), format classification, era resolution, and numeric
//! field extraction with Gregorian year computation.

pub mod conv;
pub mod laws;
pub mod text;
