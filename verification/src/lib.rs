//! Album Cover Check: finds the songs and albums of a music library whose
//! audio files carry no embedded front cover.
//!
//! The library decides everything: which files are looked at, how they are
//! classified, what record a file's tags give, the totals of a scan, how the
//! missing albums are grouped and ordered, and what the reports
//! and the terminal view say. Reading the disk and the tags, writing files and
//! drawing the terminal are left to the program around it.

pub mod audio;
pub mod config;
pub mod console;
pub mod counts;
pub mod grouping;
pub mod laws;
pub mod model;
pub mod order;
pub mod paths;
pub mod report;
pub mod scanner;
pub mod text;
pub mod ui;
