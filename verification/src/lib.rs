//! Parsing and aggregation of Linux process memory maps, and the state
//! machine of an interactive explorer on top of them.

pub mod aggregate;
pub mod chart;
pub mod format;
pub mod number;
pub mod parser;
pub mod present;
pub mod records;
pub mod report;
pub mod sort;
pub mod text;
pub mod ui;
pub mod utils;
