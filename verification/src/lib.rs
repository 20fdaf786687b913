//! Pressa: a schema-driven data manager. This crate holds its verified core:
//! schema validation, record validation, storage semantics and the TUI state
//! machine.

pub mod text;
pub mod schema;
pub mod config;
pub mod json;
pub mod json_text;
pub mod record;
pub mod repository;
pub mod values;
pub mod memory;
pub mod sql;
pub mod migrations;
pub mod services;
pub mod ieee;
pub mod clock;
pub mod validation;
pub mod tui;
pub mod discovery;
pub mod cli;
pub mod logging;
