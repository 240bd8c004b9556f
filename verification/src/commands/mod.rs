//! What each subcommand decides and computes.

pub mod add;
pub mod edit;
pub mod env_add;
pub mod env_search;
pub mod export;
pub mod history;
pub mod import;
pub mod init;
pub mod remove;
