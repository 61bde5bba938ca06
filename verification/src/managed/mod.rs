//! The engine that is installed as a service: it reads its settings from a configuration file and
//! its rules from a single file, and sends alerts.

pub mod alert;
pub mod cli;
pub mod config;
pub mod engine;
pub mod incident;
pub mod install;
pub mod matching;
pub mod recovery;
pub mod remedy;
pub mod rule;
pub mod rules_file;
pub mod watcher;
