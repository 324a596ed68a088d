//! Connection and target resolution for a command-line client of a
//! remotely debuggable browser.
//!
//! Given a host, a default port, and optional explicit overrides, this
//! library decides how to reach the browser (explicit address, cached
//! session, or network discovery) and which browsing context ("target")
//! subsequent commands operate on. All network probes are performed by
//! the caller; the policy itself is pure and fully specified.

pub mod connection;
pub mod error;
pub mod text;
