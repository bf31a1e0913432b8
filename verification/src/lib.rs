//! Verified core of a local agentic development control plane: artifact
//! redaction and integrity metadata, persistence transition and ownership
//! rules, mutation leases, process supervision and recovery records,
//! changeset finalization, review evidence and findings, the wire protocol,
//! and the authentication and transport decisions of the HTTP servers.

pub mod text;
pub mod redaction;
pub mod time;
pub mod digest;
pub mod random;
pub mod error;
pub mod lease;
pub mod store;
pub mod runs;
pub mod supervision;
pub mod rows;
pub mod finalization;
pub mod artifacts;
pub mod review;
pub mod protocol;
pub mod auth;
pub mod server;
