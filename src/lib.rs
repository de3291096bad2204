//! Language detection and coverage reporting for source trees.
//!
//! The library classifies the files of a directory walk by language, applies
//! exclusion rules to relative paths, and aggregates a deterministic report.

pub mod config;
pub mod detect;
pub mod exclude;
pub mod language;
pub mod orchestrate;
pub mod properties;
pub mod text;

pub use config::Config;
pub use detect::{DetectionReport, LanguageDetector};
pub use orchestrate::IndexerOrchestrator;
