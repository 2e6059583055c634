//! What holds of the xyyz notation: reading what was written gives it back.

pub mod batch;
pub mod cards;
pub mod flags;
pub mod header;
pub mod kinds;
pub mod levels;
pub mod lines;
pub mod monsters;
pub mod reading;
pub mod round_trip;
pub mod rule_sets;
pub mod series;
pub mod spells;
pub mod stats;
pub mod tables;
pub mod writing;
