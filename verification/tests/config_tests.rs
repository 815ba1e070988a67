use device_ops::config::{default_timeout, Config};
use device_ops::error::DeviceOpsError;

#[test]
fn test_default_config() {
    let config = Config::default();
    assert_eq!(config.execution.default_timeout, 300);
    assert!(!config.security.enabled);
}

#[test]
fn test_default_timeout_value() {
    assert_eq!(default_timeout(), 300);
}

#[test]
fn test_error_messages() {
    assert_eq!(
        DeviceOpsError::IpcError("boom".to_string()).message(),
        "IPC connection failed: boom"
    );
    assert_eq!(
        DeviceOpsError::ExecutionError("spawn".to_string()).message(),
        "Job execution failed: spawn"
    );
    assert_eq!(
        DeviceOpsError::SecurityError("nope".to_string()).message(),
        "Security validation failed: nope"
    );
    assert_eq!(
        DeviceOpsError::ConfigError("bad".to_string()).message(),
        "Configuration error: bad"
    );
    assert_eq!(
        DeviceOpsError::TimeoutError(42).message(),
        "Timeout: command exceeded 42 seconds"
    );
    assert_eq!(
        DeviceOpsError::InvalidJobDocument("why".to_string()).message(),
        "Invalid job document: why"
    );
}
