//! Lint rules for Salt state files, with their rule engine, configuration
//! merging and output formats.
pub mod app;
pub mod cli;
pub mod config;
pub mod engine;
pub mod file_types;
pub mod formatter;
pub mod fs;
pub mod gitignore;
pub mod order;
pub mod paths;
pub mod problem;
pub mod regex_api;
pub mod rules;
pub mod text;
