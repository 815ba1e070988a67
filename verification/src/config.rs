//! Configuration consumed by the engine.
//!
//! Loading the configuration file is the embedding program's job; the engine
//! takes the resulting values. The defaults here are what a device runs with
//! when no configuration file is present.

use vstd::prelude::*;

verus! {

/// Top-level configuration: the security policy and execution settings.
#[derive(Debug, Clone)]
pub struct Config {
    pub security: SecurityConfig,
    pub execution: ExecutionConfig,
}

/// Security policy configuration. Both allowlists are opt-in: an empty list
/// places no restriction from that list.
#[derive(Debug, Clone)]
pub struct SecurityConfig {
    /// Whether commands are checked against the policy at all.
    pub enabled: bool,
    /// Absolute paths that commands must match exactly, when non-empty.
    pub command_allowlist: Vec<String>,
    /// Absolute path prefixes that commands must live under, when non-empty.
    pub path_allowlist: Vec<String>,
}

/// Execution settings.
#[derive(Debug, Clone)]
pub struct ExecutionConfig {
    /// Per-step timeout in seconds, used when a step carries no override.
    pub default_timeout: u64,
}

/// The built-in per-step timeout: five minutes.
pub fn default_timeout() -> (r: u64)
    ensures
        r == 300,
{
    300
}

/// A default configuration is well-formed: security off, empty allowlists.
pub open spec fn spec_default_config(c: Config) -> bool {
    &&& c.security.enabled == false
    &&& c.security.command_allowlist@ == Seq::<String>::empty()
    &&& c.security.path_allowlist@ == Seq::<String>::empty()
    &&& c.execution.default_timeout == 300
}

impl Default for Config {
    /// Security disabled, no allowlists, five-minute default timeout.
    fn default() -> (r: Self)
        ensures
            spec_default_config(r),
    {
        Config {
            security: SecurityConfig {
                enabled: false,
                command_allowlist: Vec::new(),
                path_allowlist: Vec::new(),
            },
            execution: ExecutionConfig { default_timeout: default_timeout() },
        }
    }
}

} // verus!
