//! Watch-history enrichment engine.
//!
//! The library takes a list of watched-media events, collapses the
//! per-episode events of each show into its latest-watched representative,
//! and resolves each remaining item against an ordered chain of metadata
//! providers, each guarded by its own token-bucket rate limiter, under a
//! bounded-concurrency batch driver with per-item retry.
//!
//! Everything that decides or computes lives here, with contracts; the
//! surrounding program (HTTP transport, browser automation, file output)
//! drives these state machines from outside.

pub mod cli;
pub mod config;
pub mod error;
pub mod text;
pub mod metadata;
pub mod models;
pub mod processor;
pub mod scraping;
