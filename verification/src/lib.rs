//! Aegira: an automated recovery engine driven by log files.

pub mod clock;
pub mod commands;
pub mod ledger;
pub mod lines;
pub mod logs;
pub mod managed;
pub mod normalize;
pub mod order;
pub mod scoring;
pub mod service;
pub mod standalone;
pub mod text;
pub mod unicode;
pub mod verification;
