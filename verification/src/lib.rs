//! Code Grabber's core: from the files of a repository to one text bundle
//! for a language model, with a report of what went in and what was left out
//! and why.
pub mod bundle;
pub mod classify;
pub mod config;
pub mod console;
pub mod desktop;
pub mod discover;
pub mod display;
pub mod error;
pub mod extract;
pub mod format;
pub mod globs;
pub mod numbers;
pub mod options;
pub mod paths;
pub mod report;
pub mod sanitize;
pub mod scan;
pub mod sort;
pub mod tables;
pub mod text;
pub mod tokenize;

pub use crate::bundle::{finish_file, generate_bundle, scan_file, FileOutcome, ScanStep};
pub use crate::config::{BundleMode, OutputFormat, ScanConfig, ScanConfigBuilder};
pub use crate::error::{CodeGrabberError, Result};
pub use crate::format::BundleOutput;
pub use crate::report::GenerationResult;
