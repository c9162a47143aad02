//! Harness that drives an external coding engine through bounded iterations
//! until a dual-signal completion gate fires, a no-progress circuit trips,
//! a rate limit is hit, or the iteration budget runs out.
//!
//! The modules here hold the decision logic of the harness: state machines,
//! classifiers, codecs and argument builders, each with a verified contract.
//! Process spawning, file and terminal I/O live outside the library and hand
//! it plain values.

pub mod analyze;
pub mod analyzer;
pub mod circuit_breaker;
pub mod config;
pub mod doctor;
pub mod engine;
pub mod json;
pub mod monitor;
pub mod num;
pub mod prompt;
pub mod rate_limiter;
pub mod run_loop;
pub mod sdd;
pub mod status;
pub mod text;
pub mod types;
