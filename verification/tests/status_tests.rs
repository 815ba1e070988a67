use device_ops::models::{ExecutionOutput, JobExecutionResult, StepOutput};
use device_ops::status::{format_status_details, JobStatus, JobStatusType};

fn step_output(name: &str, stdout: &str, stderr: &str, exit_code: i32) -> StepOutput {
    StepOutput {
        step_name: name.to_string(),
        output: ExecutionOutput {
            stdout: stdout.to_string(),
            stderr: stderr.to_string(),
            exit_code,
            execution_time_ms: 7,
            stderr_line_count: 0,
            stdout_truncated: false,
            stderr_truncated: false,
        },
        ignored_failure: false,
    }
}

fn result_with_steps(n: usize) -> JobExecutionResult {
    JobExecutionResult {
        outputs: (0..n)
            .map(|i| step_output(&format!("S{}", i), "out", "err", 0))
            .collect(),
        overall_success: true,
        failed_step: None,
    }
}

#[test]
fn test_details_never_exceed_ten_fields() {
    // The channel takes at most 10 entries, whatever the step count.
    for n in [1, 2, 20] {
        let details = format_status_details(&result_with_steps(n), true);
        assert!(details.len() <= 10, "{} steps gave {} fields", n, details.len());
    }
}

#[test]
fn test_single_step_flat_fields() {
    let result = JobExecutionResult {
        outputs: vec![step_output("Only", "hello", "", 0)],
        overall_success: true,
        failed_step: None,
    };
    let details = format_status_details(&result, true);
    let keys: Vec<&str> = details.iter().map(|e| e.key.as_str()).collect();
    assert_eq!(
        keys,
        vec![
            "steps_executed",
            "overall_success",
            "step_name",
            "exit_code",
            "execution_time_ms",
            "stdout",
        ]
    );
    assert_eq!(details[0].value, "1");
    assert_eq!(details[1].value, "true");
    assert_eq!(details[2].value, "Only");
    assert_eq!(details[3].value, "0");
    assert_eq!(details[4].value, "7");
    assert_eq!(details[5].value, "hello");
}

#[test]
fn test_single_step_without_stdout_flag() {
    let result = JobExecutionResult {
        outputs: vec![step_output("Only", "hello", "", 0)],
        overall_success: true,
        failed_step: None,
    };
    let details = format_status_details(&result, false);
    assert!(details.iter().all(|e| e.key != "stdout"));
}

#[test]
fn test_multi_step_packs_one_json_field() {
    let result = JobExecutionResult {
        outputs: vec![
            step_output("A", "", "", 0),
            step_output("B", "", "", 3),
        ],
        overall_success: false,
        failed_step: Some("B".to_string()),
    };
    let details = format_status_details(&result, false);
    let keys: Vec<&str> = details.iter().map(|e| e.key.as_str()).collect();
    assert_eq!(keys, vec!["steps_executed", "overall_success", "failed_step", "steps"]);
    assert_eq!(details[0].value, "2");
    assert_eq!(details[1].value, "false");
    assert_eq!(details[2].value, "B");
    assert_eq!(
        details[3].value,
        "[{\"name\":\"A\",\"exit_code\":0,\"time_ms\":7},{\"name\":\"B\",\"exit_code\":3,\"time_ms\":7}]"
    );
}

#[test]
fn test_ignored_failure_marker_in_summary() {
    let mut failing = step_output("Flaky", "", "boom", 1);
    failing.ignored_failure = true;
    let result = JobExecutionResult {
        outputs: vec![failing, step_output("After", "", "", 0)],
        overall_success: true,
        failed_step: None,
    };
    let details = format_status_details(&result, false);
    let steps = &details.iter().find(|e| e.key == "steps").unwrap().value;
    assert!(steps.contains("\"ignored_failure\":true"));
    assert!(steps.contains("\"stderr\":\"boom\""));
}

#[test]
fn test_failed_status_json() {
    let status = JobStatus::failed("oops".to_string(), None, None);
    assert!(matches!(status.status, JobStatusType::Failed));
    assert_eq!(
        status.to_json(),
        "{\"status\":\"FAILED\",\"statusDetails\":{\"reason\":\"oops\"}}"
    );
}

#[test]
fn test_failed_status_with_streams() {
    let status = JobStatus::failed(
        "r".to_string(),
        Some("so".to_string()),
        Some("se".to_string()),
    );
    assert_eq!(status.status_details.len(), 3);
    assert_eq!(
        status.to_json(),
        "{\"status\":\"FAILED\",\"statusDetails\":{\"reason\":\"r\",\"stdout\":\"so\",\"stderr\":\"se\"}}"
    );
}

#[test]
fn test_success_status_json() {
    let result = JobExecutionResult {
        outputs: vec![step_output("Only", "", "", 0)],
        overall_success: true,
        failed_step: None,
    };
    let status = JobStatus::from_success(&result, false);
    assert!(matches!(status.status, JobStatusType::Succeeded));
    let json = status.to_json();
    assert!(json.starts_with("{\"status\":\"SUCCEEDED\",\"statusDetails\":{"));
    assert!(json.contains("\"steps_executed\":\"1\""));
    assert!(json.contains("\"overall_success\":\"true\""));
}

#[test]
fn test_json_escaping() {
    let status = JobStatus::failed("a\"b\\c\nd\te\u{1}f".to_string(), None, None);
    assert_eq!(
        status.to_json(),
        "{\"status\":\"FAILED\",\"statusDetails\":{\"reason\":\"a\\\"b\\\\c\\nd\\te\\u0001f\"}}"
    );
}

#[test]
fn test_negative_exit_code_rendering() {
    let result = JobExecutionResult {
        outputs: vec![step_output("Killed", "", "", -1)],
        overall_success: false,
        failed_step: Some("Killed".to_string()),
    };
    let details = format_status_details(&result, false);
    let exit = &details.iter().find(|e| e.key == "exit_code").unwrap().value;
    assert_eq!(exit, "-1");
}
