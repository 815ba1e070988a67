//! The job handler: deduplication and the per-job decision.
//!
//! The embedding program owns the transport loop; for every inbound job or
//! parse error it calls in here and publishes whatever status report comes
//! back. A job identifier is acted on exactly once: later deliveries of the
//! same identifier produce no report. The ledger of recently seen
//! identifiers is bounded; once full, the oldest entry is evicted first.

use vstd::prelude::*;
use vstd::string::StringExecFns;
use std::collections::VecDeque;
use crate::config::Config;
use crate::error::DeviceOpsError;
use crate::executor::{spec_execute_post, CommandExecutor, CommandRunner};
use crate::models::{Job, JobExecutionResult};
use crate::security::{
    spec_all_steps,
    spec_document_error,
    spec_document_valid,
    validate_job_document,
    SecurityValidator,
};
use crate::status::{spec_status_details, JobStatus, JobStatusType};

verus! {

/// What recording one identifier does to the ledger: a known identifier
/// leaves it unchanged (and is reported as a duplicate); a new identifier is
/// appended, evicting the oldest entry once the capacity of 100 is passed.
pub open spec fn spec_mark_ledger(l: Seq<Seq<char>>, id: Seq<char>) -> (Seq<Seq<char>>, bool) {
    if l.contains(id) {
        (l, false)
    } else {
        let pushed = l.push(id);
        if pushed.len() > 100 {
            (pushed.drop_first(), true)
        } else {
            (pushed, true)
        }
    }
}

/// Whether a document asks for captured stdout in its report.
pub open spec fn spec_include_stdout(doc: crate::models::JobDocument) -> bool {
    doc.include_std_out == Some(true)
}

/// Once an identifier is recorded, recording it again reports a duplicate
/// and changes nothing: a job identifier delivered twice yields exactly one
/// status report.
pub proof fn law_duplicate_delivery_reports_once(l: Seq<Seq<char>>, id: Seq<char>)
    ensures
        spec_mark_ledger(l, id).0.contains(id),
        spec_mark_ledger(spec_mark_ledger(l, id).0, id).1 == false,
        spec_mark_ledger(spec_mark_ledger(l, id).0, id).0 == spec_mark_ledger(l, id).0,
{
    if !l.contains(id) {
        let pushed = l.push(id);
        assert(pushed[l.len() as int] == id);
        if pushed.len() > 100 {
            assert(pushed.drop_first()[l.len() - 1] == id);
        }
    }
}

/// The ledger never grows past 100 identifiers.
pub proof fn law_ledger_bounded(l: Seq<Seq<char>>, id: Seq<char>)
    requires
        l.len() <= 100,
    ensures
        spec_mark_ledger(l, id).0.len() <= 100,
{
}

/// Eviction is oldest-first: recording a new identifier in a full ledger
/// drops exactly the oldest entry.
pub proof fn law_ledger_evicts_oldest(l: Seq<Seq<char>>, id: Seq<char>)
    requires
        l.len() == 100,
        !l.contains(id),
    ensures
        spec_mark_ledger(l, id).0 == l.drop_first().push(id),
{
    assert(l.push(id).drop_first() =~~= l.drop_first().push(id));
}

/// The top-level control state: the executor and the dedup ledger. The
/// transport loop around it lives with the embedding program.
pub struct JobHandler<R: CommandRunner> {
    executor: CommandExecutor<R>,
    processed_jobs: VecDeque<String>,
}

impl<R: CommandRunner> JobHandler<R> {
    /// The identifiers of recently handled jobs, oldest first.
    pub closed spec fn spec_ledger(&self) -> Seq<Seq<char>> {
        self.processed_jobs.deep_view()
    }

    /// The security policy in force, if any.
    pub closed spec fn spec_security(&self) -> Option<SecurityValidator> {
        self.executor.spec_security()
    }

    /// The ledger stays within its capacity.
    pub open spec fn spec_wf(&self) -> bool {
        self.spec_ledger().len() <= 100
    }

    /// Builds a handler from the configuration: the security policy is
    /// seeded from it when enabled, and the ledger starts empty.
    pub fn new(config: Config, runner: R) -> (r: Self)
        ensures
            r.spec_ledger() == Seq::<Seq<char>>::empty(),
            r.spec_wf(),
            config.security.enabled ==> (r.spec_security() matches Some(v)
                && v.spec_commands() == config.security.command_allowlist.deep_view()
                && v.spec_paths() == config.security.path_allowlist.deep_view()),
            !config.security.enabled ==> r.spec_security() is None,
    {
        let Config { security: security_config, execution } = config;
        let security: Option<SecurityValidator> = if security_config.enabled {
            Some(SecurityValidator::new(security_config))
        } else {
            None
        };
        let r = JobHandler {
            executor: CommandExecutor::new(execution, security, runner),
            processed_jobs: VecDeque::with_capacity(100),
        };
        proof {
            assert(r.spec_ledger() =~~= Seq::<Seq<char>>::empty());
        }
        r
    }

    /// Records a job identifier. Returns true when this is the first
    /// delivery — the job should be handled — and false for a duplicate.
    pub fn mark_job_processed(&mut self, job_id: &str) -> (r: bool)
        ensures
            r == !old(self).spec_ledger().contains(job_id@),
            final(self).spec_ledger() == spec_mark_ledger(old(self).spec_ledger(), job_id@).0,
            final(self).spec_security() == old(self).spec_security(),
            old(self).spec_wf() ==> final(self).spec_wf(),
    {
        let id: String = job_id.to_owned();
        let n = self.processed_jobs.len();
        let mut i: usize = 0;
        while i < n
            invariant
                n == self.spec_ledger().len(),
                n == self.processed_jobs@.len(),
                i <= n,
                id@ == job_id@,
                forall|k: int| 0 <= k < i ==> #[trigger] self.spec_ledger()[k] != job_id@,
            decreases n - i,
        {
            if self.processed_jobs[i] == id {
                proof {
                    assert(self.spec_ledger()[i as int] == job_id@);
                }
                return false;
            }
            i = i + 1;
        }
        let ghost pre = self.spec_ledger();
        proof {
            if pre.contains(job_id@) {
                let k = choose|k: int| 0 <= k < pre.len() && pre[k] == job_id@;
                assert(false);
            }
        }
        self.processed_jobs.push_back(id);
        proof {
            assert(self.spec_ledger() =~~= pre.push(job_id@));
        }
        if self.processed_jobs.len() > 100 {
            let ghost mid = self.spec_ledger();
            self.processed_jobs.pop_front();
            proof {
                assert(self.spec_ledger() =~~= mid.drop_first());
            }
        }
        true
    }

    /// Handles a parse error for a recoverable job identifier: the first
    /// delivery yields a failed status carrying the parse error text, a
    /// duplicate yields nothing.
    pub fn handle_parse_error(&mut self, job_id: &str, error: &str) -> (r: Option<JobStatus>)
        ensures
            final(self).spec_ledger() == spec_mark_ledger(old(self).spec_ledger(), job_id@).0,
            final(self).spec_security() == old(self).spec_security(),
            old(self).spec_wf() ==> final(self).spec_wf(),
            match r {
                Some(st) => {
                    &&& st.status != JobStatusType::InProgress
                    &&& !old(self).spec_ledger().contains(job_id@)
                    &&& st.status == JobStatusType::Failed
                    &&& st.status_details.deep_view() == seq![
                        ("reason"@, "Job document parsing failed: "@ + error@),
                    ]
                },
                None => old(self).spec_ledger().contains(job_id@),
            },
    {
        if self.mark_job_processed(job_id) {
            let mut reason: String = "Job document parsing failed: ".to_owned();
            reason.append(error);
            let st = JobStatus::failed(reason, None, None);
            proof {
                assert(st.status_details.deep_view() =~~= seq![
                    ("reason"@, "Job document parsing failed: "@ + error@),
                ]);
            }
            Some(st)
        } else {
            None
        }
    }

    /// Handles one job delivery. A duplicate identifier yields nothing. A
    /// first delivery yields exactly one status report: a validation failure
    /// reports the reason without executing anything; otherwise the steps
    /// are executed and the result rendered into a status.
    pub fn handle_job(&mut self, job: Job) -> (r: Option<JobStatus>)
        ensures
            final(self).spec_ledger() == spec_mark_ledger(old(self).spec_ledger(), job.job_id@).0,
            final(self).spec_security() == old(self).spec_security(),
            old(self).spec_wf() ==> final(self).spec_wf(),
            match r {
                None => old(self).spec_ledger().contains(job.job_id@),
                Some(st) => {
                    &&& st.status != JobStatusType::InProgress
                    &&& !old(self).spec_ledger().contains(job.job_id@)
                    &&& if !spec_document_valid(job.document) {
                        &&& st.status == JobStatusType::Failed
                        &&& spec_document_error(job.document) matches Some(m)
                            && st.status_details.deep_view() == seq![
                            ("reason"@, "Invalid job document: "@ + m),
                        ]
                    } else {
                        ||| exists|
                            res: JobExecutionResult,
                            moc: Seq<Result<crate::models::ExecutionOutput, DeviceOpsError>>,
                            fo: Option<Result<crate::models::ExecutionOutput, DeviceOpsError>>,
                        |
                            {
                                &&& #[trigger] spec_execute_post(
                                    old(self).spec_security(),
                                    job.document,
                                    res,
                                    moc,
                                    fo,
                                )
                                &&& st.status == (if res.overall_success {
                                    JobStatusType::Succeeded
                                } else {
                                    JobStatusType::Failed
                                })
                                &&& st.status_details.deep_view() == spec_status_details(
                                    res,
                                    spec_include_stdout(job.document),
                                )
                            }
                        ||| (old(self).spec_security() matches Some(v) && ({
                            &&& st.status == JobStatusType::Failed
                            &&& exists|j: int|
                                ({
                                    &&& 0 <= j < spec_all_steps(
                                        job.document,
                                    ).len()
                                    &&& !v.spec_allows(
                                        #[trigger] spec_all_steps(
                                            job.document,
                                        )[j].action.input.command@,
                                    )
                                    &&& st.status_details.deep_view() == seq![
                                        (
                                            "reason"@,
                                            "Security validation failed: "@ + v.spec_rejection(
                                                spec_all_steps(
                                                    job.document,
                                                )[j].action.input.command@,
                                            ),
                                        ),
                                    ]
                                })
                        }))
                    }
                },
            },
    {
        if !self.mark_job_processed(job.job_id.as_str()) {
            return None;
        }
        match validate_job_document(&job.document) {
            Err(e) => {
                let st = JobStatus::failed(e.message(), None, None);
                proof {
                    if let DeviceOpsError::InvalidJobDocument(m) = e {
                        assert(st.status_details.deep_view() =~~= seq![
                            ("reason"@, "Invalid job document: "@ + m@),
                        ]);
                    }
                }
                Some(st)
            },
            Ok(()) => {
                let include_stdout: bool = match job.document.include_std_out {
                    Some(b) => b,
                    None => false,
                };
                let result = self.executor.execute(&job.document);
                match result {
                    Ok(execution_result) => {
                        if execution_result.overall_success {
                            Some(JobStatus::from_success(&execution_result, include_stdout))
                        } else {
                            Some(JobStatus::from_failure(&execution_result, include_stdout))
                        }
                    },
                    Err(e) => {
                        let st = JobStatus::failed(e.message(), None, None);
                        proof {
                            if let DeviceOpsError::SecurityError(m) = e {
                                assert(st.status_details.deep_view() =~~= seq![
                                    ("reason"@, "Security validation failed: "@ + m@),
                                ]);
                            }
                        }
                        Some(st)
                    },
                }
            },
        }
    }
}

} // verus!
