//! Directive protocol engine of a command-line HTTP client: argument
//! tokenizing, envelope validation and the instruction executor.

pub mod cli;
pub mod config;
pub mod git;
pub mod instructions;
pub mod json;
pub mod params;
pub mod platform;
pub mod request;
pub mod schema;
pub mod string_map;
