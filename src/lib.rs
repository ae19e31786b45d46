//! Connection and transfer orchestration for a file bridge between a local
//! machine and remote hosts reached over SSH.
//!
//! The library holds the decisions: which session a request reuses, how a
//! transfer task moves through its lifecycle, how many transfers run at once,
//! and how progress is reported. The network and file I/O that carry those
//! decisions out are performed by the caller.

pub mod error;
pub mod types;
pub mod transfer;
pub mod paths;
pub mod ssh_client;
pub mod permission_agent;
pub mod secure_storage;
pub mod case_agent;
pub mod audit_log;
