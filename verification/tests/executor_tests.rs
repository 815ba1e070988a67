use std::collections::VecDeque;

use device_ops::config::ExecutionConfig;
use device_ops::error::DeviceOpsError;
use device_ops::executor::{CommandExecutor, CommandRunner};
use device_ops::models::{Command, ExecutionOutput, JobAction, JobDocument, JobInput, JobStep};

/// A runner that replays a prepared list of outcomes.
struct MockCommandRunner {
    responses: VecDeque<Result<ExecutionOutput, DeviceOpsError>>,
}

impl MockCommandRunner {
    fn new(responses: Vec<Result<ExecutionOutput, DeviceOpsError>>) -> Self {
        Self {
            responses: responses.into(),
        }
    }
}

impl CommandRunner for MockCommandRunner {
    fn run(
        &mut self,
        _command: &Command,
        _timeout_secs: u64,
    ) -> Result<ExecutionOutput, DeviceOpsError> {
        self.responses.pop_front().unwrap_or_else(|| {
            Err(DeviceOpsError::ExecutionError(
                "No more mock responses".to_string(),
            ))
        })
    }

    fn verify_elevation(&mut self, _user: &String) -> Result<bool, DeviceOpsError> {
        Ok(false)
    }
}

fn output(stdout: &str, stderr: &str, exit_code: i32, stderr_lines: usize) -> ExecutionOutput {
    ExecutionOutput {
        stdout: stdout.to_string(),
        stderr: stderr.to_string(),
        exit_code,
        execution_time_ms: 0,
        stderr_line_count: stderr_lines,
        stdout_truncated: false,
        stderr_truncated: false,
    }
}

fn make_step(
    name: &str,
    command: &str,
    args: Option<Vec<&str>>,
    ignore_step_failure: Option<bool>,
    allow_std_err: Option<i32>,
) -> JobStep {
    JobStep {
        action: JobAction {
            name: name.to_string(),
            action_type: "runCommand".to_string(),
            input: JobInput {
                command: command.to_string(),
                args: args.map(|a| a.into_iter().map(|s| s.to_string()).collect()),
                timeout: None,
            },
            run_as_user: None,
            ignore_step_failure,
            allow_std_err,
        },
    }
}

fn config() -> ExecutionConfig {
    ExecutionConfig {
        default_timeout: 300,
    }
}

#[test]
fn test_single_step_execution_logic() {
    let mock = MockCommandRunner::new(vec![Ok(output("hello", "", 0, 0))]);
    let mut executor = CommandExecutor::new_with_runner(config(), None, mock);

    let document = JobDocument {
        version: "1.0".to_string(),
        steps: vec![make_step("Test", "echo", Some(vec!["hello"]), None, None)],
        final_step: None,
        include_std_out: None,
    };

    let result = executor.execute(&document).unwrap();
    assert!(result.overall_success);
    assert_eq!(result.outputs.len(), 1);
    assert_eq!(result.outputs[0].output.stdout, "hello");
    assert_eq!(result.outputs[0].output.exit_code, 0);
}

#[test]
fn test_multi_step_execution_logic() {
    let mock = MockCommandRunner::new(vec![
        Ok(output("step1", "", 0, 0)),
        Ok(output("step2", "", 0, 0)),
    ]);
    let mut executor = CommandExecutor::new_with_runner(config(), None, mock);

    let document = JobDocument {
        version: "1.0".to_string(),
        steps: vec![
            make_step("Step1", "echo", Some(vec!["step1"]), None, None),
            make_step("Step2", "echo", Some(vec!["step2"]), None, None),
        ],
        final_step: None,
        include_std_out: None,
    };

    let result = executor.execute(&document).unwrap();
    assert!(result.overall_success);
    assert_eq!(result.outputs.len(), 2);
    assert_eq!(result.outputs[0].output.stdout, "step1");
    assert_eq!(result.outputs[1].output.stdout, "step2");
}

#[test]
fn test_ignore_step_failure_logic() {
    let mock = MockCommandRunner::new(vec![
        Ok(output("", "", 1, 0)),
        Ok(output("success", "", 0, 0)),
    ]);
    let mut executor = CommandExecutor::new_with_runner(config(), None, mock);

    let document = JobDocument {
        version: "1.0".to_string(),
        steps: vec![
            make_step("FailingStep", "false", None, Some(true), None),
            make_step("SuccessStep", "echo", Some(vec!["success"]), None, None),
        ],
        final_step: None,
        include_std_out: None,
    };

    let result = executor.execute(&document).unwrap();
    assert!(result.overall_success);
    assert_eq!(result.outputs.len(), 2);
    assert!(result.outputs[0].ignored_failure);
    assert_eq!(result.outputs[1].output.stdout, "success");
}

#[test]
fn test_final_step_execution_logic() {
    let mock = MockCommandRunner::new(vec![
        Ok(output("main", "", 0, 0)),
        Ok(output("final", "", 0, 0)),
    ]);
    let mut executor = CommandExecutor::new_with_runner(config(), None, mock);

    let document = JobDocument {
        version: "1.0".to_string(),
        steps: vec![make_step("MainStep", "echo", Some(vec!["main"]), None, None)],
        final_step: Some(make_step(
            "FinalStep",
            "echo",
            Some(vec!["final"]),
            None,
            None,
        )),
        include_std_out: None,
    };

    let result = executor.execute(&document).unwrap();
    assert!(result.overall_success);
    assert_eq!(result.outputs.len(), 2);
    assert_eq!(result.outputs[0].step_name, "MainStep");
    assert_eq!(result.outputs[1].step_name, "FinalStep");
}

#[test]
fn test_allow_std_err_logic() {
    let mock = MockCommandRunner::new(vec![Ok(output("", "error\n", 0, 1))]);
    let mut executor = CommandExecutor::new_with_runner(config(), None, mock);

    let document = JobDocument {
        version: "1.0".to_string(),
        steps: vec![make_step(
            "StderrStep",
            "sh",
            Some(vec!["-c", "echo error >&2"]),
            None,
            Some(1),
        )],
        final_step: None,
        include_std_out: None,
    };

    let result = executor.execute(&document).unwrap();
    assert!(result.overall_success);
    assert_eq!(result.outputs[0].output.stderr_line_count, 1);
}

#[test]
fn test_step_failure_stops_execution() {
    let mock = MockCommandRunner::new(vec![Ok(output("", "", 1, 0))]);
    let mut executor = CommandExecutor::new_with_runner(config(), None, mock);

    let document = JobDocument {
        version: "1.0".to_string(),
        steps: vec![
            make_step("FailingStep", "false", None, None, None),
            make_step(
                "ShouldNotRun",
                "echo",
                Some(vec!["should not run"]),
                None,
                None,
            ),
        ],
        final_step: None,
        include_std_out: None,
    };

    let result = executor.execute(&document).unwrap();
    assert!(!result.overall_success);
    assert_eq!(result.outputs.len(), 1);
    assert_eq!(result.failed_step, Some("FailingStep".to_string()));
}

#[test]
fn test_final_step_not_run_on_failure() {
    let mock = MockCommandRunner::new(vec![Ok(output("", "", 1, 0))]);
    let mut executor = CommandExecutor::new_with_runner(config(), None, mock);

    let document = JobDocument {
        version: "1.0".to_string(),
        steps: vec![make_step("FailingStep", "false", None, None, None)],
        final_step: Some(make_step(
            "FinalStep",
            "echo",
            Some(vec!["cleanup"]),
            None,
            None,
        )),
        include_std_out: None,
    };

    let result = executor.execute(&document).unwrap();
    assert!(!result.overall_success);
    assert_eq!(result.outputs.len(), 1);
}

#[test]
fn test_stderr_over_allowance_fails_step() {
    let mock = MockCommandRunner::new(vec![Ok(output("", "e1\ne2\n", 0, 2))]);
    let mut executor = CommandExecutor::new_with_runner(config(), None, mock);

    let document = JobDocument {
        version: "1.0".to_string(),
        steps: vec![make_step("Noisy", "/bin/x", None, None, Some(1))],
        final_step: None,
        include_std_out: None,
    };

    let result = executor.execute(&document).unwrap();
    assert!(!result.overall_success);
    assert_eq!(result.failed_step, Some("Noisy".to_string()));
}

#[test]
fn test_negative_allowance_disables_stderr_check() {
    let mock = MockCommandRunner::new(vec![Ok(output("", "lots\nof\nnoise\n", 0, 3))]);
    let mut executor = CommandExecutor::new_with_runner(config(), None, mock);

    let document = JobDocument {
        version: "1.0".to_string(),
        steps: vec![make_step("Noisy", "/bin/x", None, None, Some(-1))],
        final_step: None,
        include_std_out: None,
    };

    let result = executor.execute(&document).unwrap();
    assert!(result.overall_success);
}

#[test]
fn test_final_step_failure_never_ignorable() {
    let mock = MockCommandRunner::new(vec![
        Ok(output("main", "", 0, 0)),
        Ok(output("", "", 1, 0)),
    ]);
    let mut executor = CommandExecutor::new_with_runner(config(), None, mock);

    let document = JobDocument {
        version: "1.0".to_string(),
        steps: vec![make_step("MainStep", "echo", Some(vec!["main"]), None, None)],
        // Even with the ignore flag set, a failed final step fails the job.
        final_step: Some(make_step("FinalStep", "false", None, Some(true), None)),
        include_std_out: None,
    };

    let result = executor.execute(&document).unwrap();
    assert!(!result.overall_success);
    assert_eq!(result.failed_step, Some("FinalStep".to_string()));
    assert_eq!(result.outputs.len(), 2);
    assert!(!result.outputs[1].ignored_failure);
}

#[test]
fn test_runner_error_respects_ignore_flag() {
    let mock = MockCommandRunner::new(vec![
        Err(DeviceOpsError::ExecutionError("spawn failed".to_string())),
        Ok(output("after", "", 0, 0)),
    ]);
    let mut executor = CommandExecutor::new_with_runner(config(), None, mock);

    let document = JobDocument {
        version: "1.0".to_string(),
        steps: vec![
            make_step("Broken", "/bin/x", None, Some(true), None),
            make_step("After", "echo", Some(vec!["after"]), None, None),
        ],
        final_step: None,
        include_std_out: None,
    };

    let result = executor.execute(&document).unwrap();
    // The errored step records no output, but execution continues.
    assert!(result.overall_success);
    assert_eq!(result.outputs.len(), 1);
    assert_eq!(result.outputs[0].step_name, "After");
}

#[test]
fn test_end_to_end_echo_document() {
    let mock = MockCommandRunner::new(vec![Ok(output("hi", "", 0, 0))]);
    let mut executor = CommandExecutor::new_with_runner(config(), None, mock);

    let document = JobDocument {
        version: "1.0".to_string(),
        steps: vec![make_step("A", "/bin/echo", Some(vec!["hi"]), None, None)],
        final_step: None,
        include_std_out: None,
    };

    let result = executor.execute(&document).unwrap();
    assert!(result.overall_success);
    assert_eq!(result.outputs.len(), 1);
    assert_eq!(result.outputs[0].output.stdout, "hi");
    assert_eq!(result.outputs[0].output.exit_code, 0);
}
