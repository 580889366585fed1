//! Verified core of a GitHub pull-request comment reporter: normalizing raw
//! JSON payloads into comment and check models, filtering and grouping them,
//! and rendering the result in several textual formats.

pub mod cli;
pub mod error;
pub mod fetcher;
pub mod formatter;
pub mod jsonval;
pub mod models;
pub mod parser;
pub mod sanitizer;
pub mod text;

