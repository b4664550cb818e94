//! Human-friendly abbreviation of integers: `10500` becomes `"10.5k"`.

pub mod abbrev;
pub mod decimal;
pub mod laws;
pub mod text;

pub use abbrev::{abbrev_num, abbreviate, default_abbreviations, Options};
pub use decimal::RoundingStrategy;
