//! Rule-driven file organizer: rule matching, destination resolution,
//! conflict handling, write-stability tracking and schedule computation.

pub mod text;
pub mod models;
pub mod clock;
pub mod paths;
pub mod rule_engine;
pub mod file_ops;
pub mod config;
pub mod scheduler;
pub mod monitor;
pub mod i18n;
