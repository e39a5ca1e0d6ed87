//! Isolated git worktrees ("silos"): naming, resolution and the rules around them.

pub mod color;
pub mod commands;
pub mod complete;
pub mod config;
pub mod error;
pub mod exit;
pub mod git;
pub mod listing;
pub mod names;
pub mod numbers;
pub mod order;
pub mod paths;
pub mod process;
pub mod prompt;
pub mod removal;
pub mod reset;
pub mod runner;
pub mod sandbox;
pub mod scan;
pub mod shell;
pub mod silo;
pub mod text;
