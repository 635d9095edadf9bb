//! Cutting chosen characters, bytes or fields out of the lines of a text.

pub mod config;
pub mod extract;
pub mod fields;
pub mod positions;

pub use config::Config;
pub use extract::{extract_bytes, extract_chars, Extract, PositionList};
pub use fields::extract_fields;
pub use positions::{parse_number, parse_pos};
