//! Verified core of the Zaino end-to-end harness.
//!
//! The harness starts a Zebra validator and a Zaino indexer in Docker and
//! waits for each to report readiness in its log. This library holds what
//! the harness decides: which containers to ask for ([`container`],
//! [`services`]), how an address is written ([`ip`]), how a log is watched
//! for a marker ([`log_watch`], on top of [`text`]), and what happens once
//! the watch has ended ([`startup`]). Docker and the terminal stay outside.

pub mod container;
pub mod ip;
pub mod log_watch;
pub mod services;
pub mod startup;
pub mod text;
