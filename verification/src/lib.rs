//! A secure, searchable vault for the shell commands you run every day.

pub mod commands;
pub mod crypto;
pub mod db;
pub mod env_value;
pub mod error;
pub mod interactive;
pub mod laws;
pub mod models;
pub mod name_map;
pub mod number;
pub mod placeholder;
pub mod placement;
pub mod secret;
pub mod shell;
pub mod slots;
pub mod substitution;
pub mod text;
pub mod transfer;
pub mod tui;
pub mod vars;
pub mod views;
