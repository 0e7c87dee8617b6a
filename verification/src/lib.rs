//! Core of a local multi-tenant reverse proxy: an account pool with a token
//! lifecycle (selection, refresh gating, project-id resolution), request
//! statistics, a bounded log broadcast, and the admin authentication checks.
//!
//! Everything here is sequential, verified state-machine logic. The
//! surrounding process (HTTP server, file system, clocks, OAuth client)
//! drives these types and supplies times and file contents as plain values.

pub mod account_file;
pub mod auth;
pub mod logs;
pub mod middleware;
pub mod models;
pub mod stats;
pub mod token_manager;
