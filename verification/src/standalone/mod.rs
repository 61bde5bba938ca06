//! The engine that runs without a configuration: it reads its rules from two directories and
//! watches a fixed log file.

pub mod engine;
pub mod incident;
pub mod matching;
pub mod recovery;
pub mod remedy;
pub mod rule;
pub mod rules_dir;
pub mod setup;
pub mod watcher;
