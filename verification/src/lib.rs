//! Per-test verification engine for a compiler test harness.
//!
//! For one (file, revision) pair this library builds the external compiler
//! invocation from accumulated per-revision directives, normalizes captured
//! output and reconciles it against recorded baselines, and matches expected
//! diagnostic annotations against the structured diagnostic stream.
//! Process spawning and file access are left to the embedding program; this
//! crate holds the decisions and is verified.

pub mod level;
pub mod span;
pub mod text;
pub mod rex;
pub mod pattern;
pub mod message;
pub mod errors;
pub mod comments;
pub mod config;
pub mod path_ops;
pub mod matcher;
pub mod per_test_config;
pub mod laws;
