//! Control plane for a TURN-style relay server.
//!
//! The library owns the logic that the running process is built around:
//! classifying and deduplicating publicly routable addresses, planning one
//! relay listener per address, minting time-limited shared-secret
//! credentials, and validating such credentials when the relay engine asks.
//! All wire-level relay behaviour is delegated to an external engine; the
//! binary around this library does the I/O.

pub mod addr;
pub mod auth;
pub mod config;
pub mod credentials;
pub mod decimal;
pub mod discovery;
pub mod endpoints;
