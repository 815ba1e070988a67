//! Device-resident job execution engine.
//!
//! The library receives remotely issued job documents, validates them against
//! a schema and a security policy, executes their steps as local commands
//! through a pluggable [`executor::CommandRunner`], and renders the outcome
//! into a bounded key/value status payload for the reporting channel.
//!
//! Everything that decides — validation, the security policy, the step state
//! machine, output capping, status formatting, and duplicate-delivery
//! bookkeeping — lives here and is verified. The process-spawning runner and
//! the transport are collaborators behind narrow interfaces.

pub mod capture;
pub mod config;
pub mod decimal;
pub mod error;
pub mod executor;
pub mod handler;
pub mod models;
pub mod security;
pub mod status;
pub mod text;

pub use config::Config;
pub use error::DeviceOpsError;
