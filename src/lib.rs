//! Extraction of lap-timing scoreboards from race result pages.

pub mod numeric;
pub mod lap_time;
pub mod text;
pub mod column;
pub mod entry;
pub mod scoreboard;
pub mod laws;
pub mod config;
