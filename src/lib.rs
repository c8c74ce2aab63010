//! Utilities for reading typed configuration out of parsed TOML documents,
//! together with small helpers for prompts and host identity.
pub mod error;
pub mod document;
pub mod net;
pub mod urls;
pub mod config;
pub mod loader;
pub mod commands;
pub mod prompts;
pub mod system;
pub mod banner;
