use std::collections::VecDeque;

use device_ops::config::{Config, ExecutionConfig, SecurityConfig};
use device_ops::error::DeviceOpsError;
use device_ops::executor::CommandRunner;
use device_ops::handler::JobHandler;
use device_ops::models::{
    Command, ExecutionOutput, Job, JobAction, JobDocument, JobExecution, JobInput, JobNotification,
    JobStep,
};
use device_ops::models::job_from_notification;
use device_ops::status::JobStatusType;

/// A runner replaying prepared outcomes; it panics if called more often
/// than outcomes were prepared.
struct ScriptedRunner {
    responses: VecDeque<Result<ExecutionOutput, DeviceOpsError>>,
}

impl ScriptedRunner {
    fn new(responses: Vec<Result<ExecutionOutput, DeviceOpsError>>) -> Self {
        Self {
            responses: responses.into(),
        }
    }
}

impl CommandRunner for ScriptedRunner {
    fn run(
        &mut self,
        _command: &Command,
        _timeout_secs: u64,
    ) -> Result<ExecutionOutput, DeviceOpsError> {
        self.responses
            .pop_front()
            .unwrap_or_else(|| panic!("runner called but no process was expected to run"))
    }

    fn verify_elevation(&mut self, _user: &String) -> Result<bool, DeviceOpsError> {
        Ok(false)
    }
}

fn ok_output(stdout: &str) -> ExecutionOutput {
    ExecutionOutput {
        stdout: stdout.to_string(),
        stderr: String::new(),
        exit_code: 0,
        execution_time_ms: 0,
        stderr_line_count: 0,
        stdout_truncated: false,
        stderr_truncated: false,
    }
}

fn config(security_enabled: bool) -> Config {
    Config {
        security: SecurityConfig {
            enabled: security_enabled,
            command_allowlist: vec![],
            path_allowlist: vec![],
        },
        execution: ExecutionConfig {
            default_timeout: 300,
        },
    }
}

fn echo_document(command: &str) -> JobDocument {
    JobDocument {
        version: "1.0".to_string(),
        steps: vec![JobStep {
            action: JobAction {
                name: "A".to_string(),
                action_type: "runCommand".to_string(),
                input: JobInput {
                    command: command.to_string(),
                    args: Some(vec!["hi".to_string()]),
                    timeout: None,
                },
                run_as_user: None,
                ignore_step_failure: None,
                allow_std_err: None,
            },
        }],
        final_step: None,
        include_std_out: Some(true),
    }
}

fn job(id: &str, document: JobDocument) -> Job {
    Job {
        job_id: id.to_string(),
        document,
    }
}

#[test]
fn test_duplicate_job_reported_once() {
    // The same identifier delivered twice yields exactly one status report.
    let runner = ScriptedRunner::new(vec![Ok(ok_output("hi"))]);
    let mut handler = JobHandler::new(config(false), runner);

    let first = handler.handle_job(job("job-1", echo_document("/bin/echo")));
    assert!(first.is_some());

    let second = handler.handle_job(job("job-1", echo_document("/bin/echo")));
    assert!(second.is_none());
}

#[test]
fn test_duplicate_parse_error_reported_once() {
    let runner = ScriptedRunner::new(vec![]);
    let mut handler = JobHandler::new(config(false), runner);

    let first = handler.handle_parse_error("bad-job", "unexpected token");
    let status = first.expect("first delivery reports");
    assert!(matches!(status.status, JobStatusType::Failed));
    let reason = &status
        .status_details
        .iter()
        .find(|e| e.key == "reason")
        .unwrap()
        .value;
    assert_eq!(reason, "Job document parsing failed: unexpected token");

    assert!(handler.handle_parse_error("bad-job", "unexpected token").is_none());
}

#[test]
fn test_job_and_parse_error_share_the_ledger() {
    let runner = ScriptedRunner::new(vec![]);
    let mut handler = JobHandler::new(config(false), runner);

    assert!(handler.handle_parse_error("j", "oops").is_some());
    // The same identifier later arriving as a valid job is still a duplicate.
    assert!(handler.handle_job(job("j", echo_document("/bin/echo"))).is_none());
}

#[test]
fn test_ledger_evicts_oldest_after_one_hundred() {
    let runner = ScriptedRunner::new(vec![]);
    let mut handler = JobHandler::new(config(false), runner);

    assert!(handler.mark_job_processed("id-0"));
    for i in 1..=100 {
        assert!(handler.mark_job_processed(&format!("id-{}", i)));
    }
    // 101 distinct identifiers passed through: the oldest was evicted, the
    // rest are still known.
    assert!(handler.mark_job_processed("id-0"));
    assert!(!handler.mark_job_processed("id-100"));
    assert!(!handler.mark_job_processed("id-2"));
}

#[test]
fn test_invalid_document_reports_without_running() {
    let runner = ScriptedRunner::new(vec![]);  // any run() call panics
    let mut handler = JobHandler::new(config(false), runner);

    let mut doc = echo_document("/bin/echo");
    doc.version = "9.9".to_string();
    let status = handler.handle_job(job("bad-version", doc)).unwrap();
    assert!(matches!(status.status, JobStatusType::Failed));
    let reason = &status
        .status_details
        .iter()
        .find(|e| e.key == "reason")
        .unwrap()
        .value;
    assert_eq!(reason, "Invalid job document: Unsupported job document version: 9.9");
}

#[test]
fn test_successful_job_end_to_end() {
    let runner = ScriptedRunner::new(vec![Ok(ok_output("hi"))]);
    let mut handler = JobHandler::new(config(false), runner);

    let status = handler.handle_job(job("ok-job", echo_document("/bin/echo"))).unwrap();
    assert!(matches!(status.status, JobStatusType::Succeeded));
    let get = |k: &str| {
        status
            .status_details
            .iter()
            .find(|e| e.key == k)
            .map(|e| e.value.clone())
    };
    assert_eq!(get("steps_executed").unwrap(), "1");
    assert_eq!(get("overall_success").unwrap(), "true");
    assert_eq!(get("exit_code").unwrap(), "0");
    assert_eq!(get("stdout").unwrap(), "hi");
}

#[test]
fn test_traversal_command_rejected_before_running() {
    // Security enabled and a traversal path: the job fails before any
    // process runs (the scripted runner would panic if consulted), and the
    // reported reason names the traversal.
    let runner = ScriptedRunner::new(vec![]);
    let mut handler = JobHandler::new(config(true), runner);

    let status = handler
        .handle_job(job("evil-job", echo_document("../bin/echo")))
        .unwrap();
    assert!(matches!(status.status, JobStatusType::Failed));
    let reason = &status
        .status_details
        .iter()
        .find(|e| e.key == "reason")
        .unwrap()
        .value;
    assert_eq!(
        reason,
        "Security validation failed: Path traversal detected: ../bin/echo"
    );
}

#[test]
fn test_security_disabled_lets_traversal_path_run() {
    // With security disabled the same document executes normally.
    let runner = ScriptedRunner::new(vec![Ok(ok_output("hi"))]);
    let mut handler = JobHandler::new(config(false), runner);

    let status = handler
        .handle_job(job("lax-job", echo_document("../bin/echo")))
        .unwrap();
    assert!(matches!(status.status, JobStatusType::Succeeded));
}

#[test]
fn test_notification_to_job() {
    let notification = JobNotification {
        timestamp: Some(5),
        execution: Some(JobExecution {
            job_id: "n-1".to_string(),
            status: "QUEUED".to_string(),
            queued_at: None,
            job_document: echo_document("/bin/echo"),
        }),
    };
    let job = job_from_notification(notification).unwrap();
    assert_eq!(job.job_id, "n-1");
    assert_eq!(job.document.steps.len(), 1);

    let empty = JobNotification {
        timestamp: None,
        execution: None,
    };
    assert!(job_from_notification(empty).is_none());
}
