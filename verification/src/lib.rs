//! Verified core of a web-content discovery scanner.
//!
//! The library classifies HTTP probe responses, scrapes auto-generated
//! directory listings into bounded trees of further probes, derives
//! per-directory "not found" baselines to filter soft-404 noise, and
//! exposes the pure decision logic of the scan orchestrator.

pub mod arg_parse;
pub mod orchestrator;
pub mod output;
pub mod request;
pub mod scrape;
pub mod strutil;
pub mod validator_thread;
