//! Core of an agent orchestrator.

pub mod activity_log;
pub mod calendar;
pub mod config;
pub mod cost_ledger;
pub mod cost_log;
pub mod dashboard_payload;
pub mod decode;
pub mod error;
pub mod events;
pub mod gh;
pub mod instructions_file;
pub mod keyed;
pub mod lifecycle;
pub mod lines;
pub mod lockfile;
pub mod notifier;
pub mod number;
pub mod order;
pub mod paths;
pub mod reactions;
pub mod scm;
pub mod text;
pub mod types;
