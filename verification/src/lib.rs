//! Core of a multi-tenant SQL daemon: the conditional "program" execution
//! model shared by both wire protocols, batch lowering with its rollback
//! tail, admission control for new database connections, the per-client
//! session state machine, and the on-disk database config document.

pub mod auth;
pub mod backup;
pub mod config;
pub mod config_store;
pub mod connection;
pub mod error;
pub mod json;
pub mod program;
pub mod session;
