//! `inr import`: merging a transfer file into the vault.

pub mod conflicts;
pub mod defaults;
pub mod diff;
pub mod fresh;
pub mod laws;
pub mod plan;
