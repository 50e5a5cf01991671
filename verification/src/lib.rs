//! A streaming, line-oriented text search engine.
//!
//! The library classifies lines against a compiled pattern, surrounds matches
//! with leading and trailing context, and hands the result to one of five
//! output sinks. Everything here works on values held in memory; reading
//! files and painting the terminal belong to the caller.

pub mod config;
pub mod pattern;
pub mod matcher;
pub mod order;
pub mod parts;
pub mod pathset;
pub mod text;
pub mod output;
pub mod formatter;
pub mod highlight;
pub mod sinks;
pub mod count_sink;
pub mod json_sink;
pub mod sink;
pub mod context;
pub mod stream;
pub mod files;
pub mod search;
pub mod grouping;
pub mod run;

pub use config::Config;
pub use run::run;
