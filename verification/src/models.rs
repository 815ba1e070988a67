//! The data model: job documents as received, commands as executed, and the
//! outputs produced along the way.

use vstd::prelude::*;

verus! {

/// A notification from the job channel. The `execution` payload is optional:
/// notifications without one carry no job and are ignored.
#[derive(Debug, Clone)]
pub struct JobNotification {
    pub timestamp: Option<i64>,
    pub execution: Option<JobExecution>,
}

/// The execution details inside a notification.
#[derive(Debug, Clone)]
pub struct JobExecution {
    pub job_id: String,
    pub status: String,
    pub queued_at: Option<i64>,
    pub job_document: JobDocument,
}

/// The engine's own view of one job: its identifier and its document.
#[derive(Debug, Clone)]
pub struct Job {
    pub job_id: String,
    pub document: JobDocument,
}

/// Either a well-formed job, or a parse failure whose job identifier could
/// still be recovered from the malformed notification.
#[derive(Debug, Clone)]
pub enum JobOrError {
    Valid(Job),
    ParseError { job_id: String, error: String },
}

/// The job carried by a notification, if any.
pub fn job_from_notification(notification: JobNotification) -> (r: Option<Job>)
    ensures
        match notification.execution {
            Some(exec) => r == Some(Job { job_id: exec.job_id, document: exec.job_document }),
            None => r is None,
        },
{
    match notification.execution {
        Some(exec) => Some(Job { job_id: exec.job_id, document: exec.job_document }),
        None => None,
    }
}

/// A job document: an ordered sequence of steps, an optional final step that
/// runs last when every earlier step succeeded, and a flag controlling
/// whether captured standard output is included in status reports.
#[derive(Debug, Clone)]
pub struct JobDocument {
    pub version: String,
    pub steps: Vec<JobStep>,
    pub final_step: Option<JobStep>,
    pub include_std_out: Option<bool>,
}

/// One entry of a job document.
#[derive(Debug, Clone)]
pub struct JobStep {
    pub action: JobAction,
}

/// What a step asks for: the action kind, its input, and the per-step flags.
#[derive(Debug, Clone)]
pub struct JobAction {
    pub name: String,
    pub action_type: String,
    pub input: JobInput,
    pub run_as_user: Option<String>,
    pub ignore_step_failure: Option<bool>,
    pub allow_std_err: Option<i32>,
}

/// The command of a step: its path, arguments, and optional timeout override
/// in seconds.
#[derive(Debug, Clone)]
pub struct JobInput {
    pub command: String,
    pub args: Option<Vec<String>>,
    pub timeout: Option<u64>,
}

/// The captured result of running one command. Immutable once produced.
#[derive(Debug, Clone)]
pub struct ExecutionOutput {
    pub stdout: String,
    pub stderr: String,
    pub exit_code: i32,
    pub execution_time_ms: u64,
    pub stderr_line_count: usize,
    pub stdout_truncated: bool,
    pub stderr_truncated: bool,
}

/// A resolved, security-checked command, constructed fresh per step.
#[derive(Debug, Clone)]
pub struct Command {
    pub script_path: String,
    pub args: Vec<String>,
    pub run_as_user: Option<String>,
}

/// The aggregated result of executing a job document's steps.
#[derive(Debug, Clone)]
pub struct JobExecutionResult {
    pub outputs: Vec<StepOutput>,
    pub overall_success: bool,
    pub failed_step: Option<String>,
}

/// The output of a single executed step, and whether a failure on that step
/// was deliberately ignored.
#[derive(Debug, Clone)]
pub struct StepOutput {
    pub step_name: String,
    pub output: ExecutionOutput,
    pub ignored_failure: bool,
}

} // verus!
