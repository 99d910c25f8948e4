//! Run and loot tracking for Torchlight Infinite game logs.

pub mod text;
pub mod log_lines;
pub mod offline;
pub mod clock;
pub mod strmap;
pub mod price;
pub mod tracker;
pub mod valuation;
pub mod parser;
pub mod game_log;
pub mod diagnostics;
pub mod laws;
pub mod ignored;
