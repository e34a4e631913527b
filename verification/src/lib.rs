//! Reconciliation of remote time-tracking worklogs with a ledger of
//! activities: a date-window resolver, a diff engine that finds worklogs not
//! yet mirrored, and a plan executor that tolerates per-item failure.

pub mod cli;
pub mod config;
pub mod date;
pub mod digits;
pub mod engine;
pub mod error;
pub mod jira_tempo;
pub mod moco;
pub mod plan;
pub mod table;
pub mod utils;
pub mod window;
