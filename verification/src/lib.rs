//! Logic of the Tangential Cold dashboard: the parsers, formatters, tables and state
//! transitions behind its panels (website health, weather codes, currency labels, GitHub
//! activity, the header date line, configuration, CPU history and keyboard input), each
//! with its contract.

pub mod config;
pub mod datetime;
pub mod format;
pub mod github;
pub mod history;
pub mod input;
pub mod net;
pub mod text;
pub mod weather;
