//! Tail selection: which suffix of a source a signed take value selects,
//! counted in lines or in bytes.

pub mod config;
pub mod extract;
pub mod laws;
pub mod resolve;
pub mod take;
pub mod totals;

pub use crate::lines::count_lines;
pub use config::Config;
pub use extract::{extract, print_bytes, print_lines, Mode};
pub use resolve::get_start_index;
pub use take::{parse_num, TailError, TakeValue};
pub use totals::count_lines_bytes;
