//! Verified core of `mu`, a safe system cleaner and optimizer for Ubuntu.

pub mod audit;
pub mod clean;
pub mod cli;
pub mod config;
pub mod error;
pub mod fmt;
pub mod glob;
pub mod oplog;
pub mod optimize;
pub mod paths;
pub mod runner;
pub mod runtext;
pub mod size;
pub mod status;
pub mod text;
pub mod trash;
pub mod tui;
