use device_ops::config::SecurityConfig;
use device_ops::models::{Command, JobAction, JobDocument, JobInput, JobStep};
use device_ops::security::{validate_job_document, SecurityValidator};

fn step(name: &str, action_type: &str, command: &str) -> JobStep {
    JobStep {
        action: JobAction {
            name: name.to_string(),
            action_type: action_type.to_string(),
            input: JobInput {
                command: command.to_string(),
                args: None,
                timeout: None,
            },
            run_as_user: None,
            ignore_step_failure: None,
            allow_std_err: None,
        },
    }
}

fn document(version: &str, steps: Vec<JobStep>) -> JobDocument {
    JobDocument {
        version: version.to_string(),
        steps,
        final_step: None,
        include_std_out: None,
    }
}

#[test]
fn test_validate_valid_document() {
    let doc = document("1.0", vec![step("Test", "runCommand", "/opt/test.sh")]);
    assert!(validate_job_document(&doc).is_ok());
}

#[test]
fn test_validate_invalid_version() {
    let doc = document("2.0", vec![step("Test", "runCommand", "/opt/test.sh")]);
    assert!(validate_job_document(&doc).is_err());
}

#[test]
fn test_validate_invalid_action_type() {
    let doc = document("1.0", vec![step("Test", "invalidAction", "/opt/test.sh")]);
    assert!(validate_job_document(&doc).is_err());
}

#[test]
fn test_validate_empty_command() {
    let doc = document("1.0", vec![step("Test", "runCommand", "   ")]);
    assert!(validate_job_document(&doc).is_err());
}

#[test]
fn test_validate_no_steps() {
    let doc = document("1.0", vec![]);
    assert!(validate_job_document(&doc).is_err());
}

#[test]
fn test_validate_timeout_bounds() {
    let mut s = step("Test", "runCommand", "/opt/test.sh");
    s.action.input.timeout = Some(0);
    assert!(validate_job_document(&document("1.0", vec![s.clone()])).is_err());
    s.action.input.timeout = Some(86401);
    assert!(validate_job_document(&document("1.0", vec![s.clone()])).is_err());
    s.action.input.timeout = Some(86400);
    assert!(validate_job_document(&document("1.0", vec![s])).is_ok());
}

#[test]
fn test_validate_command_too_long() {
    let long = "/".repeat(4097);
    let doc = document("1.0", vec![step("Test", "runCommand", &long)]);
    assert!(validate_job_document(&doc).is_err());
}

#[test]
fn test_validate_final_step_checked() {
    let mut doc = document("1.0", vec![step("Main", "runCommand", "/opt/test.sh")]);
    doc.final_step = Some(step("Final", "badType", "/opt/cleanup.sh"));
    assert!(validate_job_document(&doc).is_err());
}

#[test]
fn test_validation_error_messages() {
    let doc = document("2.0", vec![step("Test", "runCommand", "/opt/test.sh")]);
    let err = validate_job_document(&doc).unwrap_err();
    assert_eq!(
        err.message(),
        "Invalid job document: Unsupported job document version: 2.0"
    );
}

fn command(path: &str) -> Command {
    Command {
        script_path: path.to_string(),
        args: vec![],
        run_as_user: None,
    }
}

#[test]
fn test_path_traversal_detection() {
    let config = SecurityConfig {
        enabled: true,
        command_allowlist: vec![],
        path_allowlist: vec![],
    };
    let validator = SecurityValidator::new(config);

    assert!(validator.validate(&command("../etc/passwd")).is_err());
    assert!(validator.validate(&command("/opt/%2e%2e/etc/passwd")).is_err());
    assert!(validator.validate(&command("relative/path.sh")).is_err());
}

#[test]
fn test_command_allowlist() {
    let config = SecurityConfig {
        enabled: true,
        command_allowlist: vec!["/opt/device-scripts/test.sh".to_string()],
        path_allowlist: vec![],
    };
    let validator = SecurityValidator::new(config);

    assert!(validator.validate(&command("/opt/device-scripts/test.sh")).is_ok());
    assert!(validator.validate(&command("/tmp/malicious.sh")).is_err());
}

#[test]
fn test_traversal_rejected_despite_allowlists() {
    // The traversal check runs first: even a path named by both allowlists
    // is rejected when it carries a traversal pattern.
    let config = SecurityConfig {
        enabled: true,
        command_allowlist: vec!["/opt/../x".to_string(), "~home/run.sh".to_string()],
        path_allowlist: vec!["/opt".to_string()],
    };
    let validator = SecurityValidator::new(config);
    assert!(validator.validate(&command("/opt/../x")).is_err());
    assert!(validator.validate(&command("~home/run.sh")).is_err());
    assert!(validator.validate(&command("/opt/%2E%2E/run.sh")).is_err());
    assert!(validator.validate(&command("opt/run.sh")).is_err());
}

#[test]
fn test_path_allowlist_is_component_wise() {
    let config = SecurityConfig {
        enabled: true,
        command_allowlist: vec![],
        path_allowlist: vec!["/opt/scripts".to_string()],
    };
    let validator = SecurityValidator::new(config);
    assert!(validator.validate(&command("/opt/scripts/run.sh")).is_ok());
    assert!(validator.validate(&command("/opt/scripts")).is_ok());
    // A sibling directory that merely shares the prefix string is rejected.
    assert!(validator.validate(&command("/opt/scriptsevil/run.sh")).is_err());
    assert!(validator.validate(&command("/tmp/run.sh")).is_err());
}

#[test]
fn test_traversal_error_message() {
    let config = SecurityConfig {
        enabled: true,
        command_allowlist: vec![],
        path_allowlist: vec![],
    };
    let validator = SecurityValidator::new(config);
    let err = validator.validate(&command("../bin/echo")).unwrap_err();
    assert_eq!(
        err.message(),
        "Security validation failed: Path traversal detected: ../bin/echo"
    );
}
