//! A verified core for a command-line task manager: resolving natural-language
//! due-date phrases ("friday 16:00") against a caller-supplied anchor date,
//! checking token expiry, and formatting timestamps for display.
//!
//! Anything that touches the network, the keyring or the terminal lives in the
//! surrounding binary; this crate holds the decisions and the arithmetic, each
//! with a contract.

pub mod auth;
pub mod cli;
pub mod date;
pub mod pretty;
pub mod resolve;
pub mod rfc3339;
pub mod types;
