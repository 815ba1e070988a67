//! The error type shared by every component of the engine.

use vstd::prelude::*;
use vstd::string::StringExecFns;
use crate::decimal::{push_dec_u64, spec_dec_nat};

verus! {

/// Everything that can go wrong while receiving, validating or executing a
/// job. String payloads carry the human-readable reason reported back over
/// the status channel.
#[derive(Debug)]
pub enum DeviceOpsError {
    /// The transport connection or a publish/subscribe call failed.
    IpcError(String),
    /// Spawning or waiting on a local process failed.
    ExecutionError(String),
    /// The security policy rejected a command.
    SecurityError(String),
    /// The configuration file could not be read or parsed.
    ConfigError(String),
    /// A command exceeded its per-step timeout, in seconds.
    TimeoutError(u64),
    /// A job document failed schema validation.
    InvalidJobDocument(String),
}

/// The text that `DeviceOpsError::message` renders for each error.
pub open spec fn spec_error_message(e: DeviceOpsError) -> Seq<char> {
    match e {
        DeviceOpsError::IpcError(m) => "IPC connection failed: "@ + m@,
        DeviceOpsError::ExecutionError(m) => "Job execution failed: "@ + m@,
        DeviceOpsError::SecurityError(m) => "Security validation failed: "@ + m@,
        DeviceOpsError::ConfigError(m) => "Configuration error: "@ + m@,
        DeviceOpsError::TimeoutError(secs) => "Timeout: command exceeded "@ + spec_dec_nat(
            secs as nat,
        ) + " seconds"@,
        DeviceOpsError::InvalidJobDocument(m) => "Invalid job document: "@ + m@,
    }
}

impl DeviceOpsError {
    /// The human-readable description of the error, as reported remotely.
    pub fn message(&self) -> (r: String)
        ensures
            r@ == spec_error_message(*self),
    {
        match self {
            DeviceOpsError::IpcError(m) => {
                let mut out: String = "IPC connection failed: ".to_owned();
                out.append(m.as_str());
                out
            },
            DeviceOpsError::ExecutionError(m) => {
                let mut out: String = "Job execution failed: ".to_owned();
                out.append(m.as_str());
                out
            },
            DeviceOpsError::SecurityError(m) => {
                let mut out: String = "Security validation failed: ".to_owned();
                out.append(m.as_str());
                out
            },
            DeviceOpsError::ConfigError(m) => {
                let mut out: String = "Configuration error: ".to_owned();
                out.append(m.as_str());
                out
            },
            DeviceOpsError::TimeoutError(secs) => {
                let mut out: String = "Timeout: command exceeded ".to_owned();
                push_dec_u64(&mut out, *secs);
                out.append(" seconds");
                out
            },
            DeviceOpsError::InvalidJobDocument(m) => {
                let mut out: String = "Invalid job document: ".to_owned();
                out.append(m.as_str());
                out
            },
        }
    }
}

} // verus!
