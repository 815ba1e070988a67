//! Sequencing a job document's steps through a command runner.
//!
//! The runner is a pluggable capability: the engine decides what to run and
//! what each outcome means, the runner spawns processes. Because a runner's
//! outcomes are outside the engine's control, `execute`'s contract says that
//! the result is exactly the fold of the step state machine over whatever
//! outcome sequence the runner produced, and that a command the security
//! policy rejects never reaches the runner at all.

use vstd::prelude::*;
use crate::config::ExecutionConfig;
use crate::error::DeviceOpsError;
use crate::models::{Command, ExecutionOutput, JobAction, JobDocument, JobExecutionResult, JobStep,
    StepOutput};
use crate::security::{spec_all_steps, SecurityValidator};

verus! {

/// The capability that runs one command and probes for elevation. The system
/// implementation spawns OS processes; tests substitute their own.
pub trait CommandRunner {
    /// Runs `command` with the given timeout in seconds and captures its
    /// output. An expired timeout surfaces as an error after the process has
    /// been terminated.
    fn run(&mut self, command: &Command, timeout_secs: u64) -> Result<
        ExecutionOutput,
        DeviceOpsError,
    >;

    /// Whether non-interactive elevation to `user` is actually available. A
    /// negative answer downgrades the step to the current identity; only a
    /// failure to probe at all is an error.
    fn verify_elevation(&mut self, user: &String) -> Result<bool, DeviceOpsError>;
}

// ===========================================================================
// The step state machine, as specification
// ===========================================================================
/// A step's failure is deliberately ignored when its flag says so.
pub open spec fn spec_ignores_failure(action: JobAction) -> bool {
    action.ignore_step_failure == Some(true)
}

/// The stderr line allowance of a step; absent means zero. A negative
/// allowance disables the stderr check altogether.
pub open spec fn spec_allowed_stderr(action: JobAction) -> int {
    match action.allow_std_err {
        Some(a) => a as int,
        None => 0,
    }
}

/// A step succeeded: exit code zero, and no more stderr lines than allowed.
pub open spec fn spec_step_succeeded(output: ExecutionOutput, action: JobAction) -> bool {
    &&& output.exit_code == 0
    &&& (spec_allowed_stderr(action) < 0 || output.stderr_line_count as int <= spec_allowed_stderr(
        action,
    ))
}

/// The running state of one job execution: the outputs recorded so far,
/// whether execution is still considered successful, and the name of the
/// first step that caused failure.
pub open spec fn spec_init_state() -> (Seq<StepOutput>, bool, Option<String>) {
    (Seq::empty(), true, None)
}

/// What one regular step's outcome does to the running state. A halted state
/// (overall failure already recorded) absorbs everything. A failing step
/// whose failure is not ignored records its output and halts; an ignored
/// failure records the output marked `ignored_failure` and continues; a
/// runner error is recorded only through the halt decision, never as output.
pub open spec fn spec_apply_step(
    st: (Seq<StepOutput>, bool, Option<String>),
    step: JobStep,
    outcome: Result<ExecutionOutput, DeviceOpsError>,
) -> (Seq<StepOutput>, bool, Option<String>) {
    if !st.1 {
        st
    } else {
        match outcome {
            Ok(output) => {
                let failed = !spec_step_succeeded(output, step.action);
                let ignore = spec_ignores_failure(step.action);
                if failed && !ignore {
                    (
                        st.0.push(
                            StepOutput {
                                step_name: step.action.name,
                                output,
                                ignored_failure: false,
                            },
                        ),
                        false,
                        Some(step.action.name),
                    )
                } else {
                    (
                        st.0.push(
                            StepOutput {
                                step_name: step.action.name,
                                output,
                                ignored_failure: failed && ignore,
                            },
                        ),
                        true,
                        st.2,
                    )
                }
            },
            Err(_) => {
                if spec_ignores_failure(step.action) {
                    st
                } else {
                    (st.0, false, Some(step.action.name))
                }
            },
        }
    }
}

/// What the final step's outcome does to the state: it runs only from a
/// non-halted state, its output is always recorded, and its failure is never
/// ignorable — it unconditionally marks overall failure.
pub open spec fn spec_apply_final(
    st: (Seq<StepOutput>, bool, Option<String>),
    step: JobStep,
    outcome: Result<ExecutionOutput, DeviceOpsError>,
) -> (Seq<StepOutput>, bool, Option<String>) {
    if !st.1 {
        st
    } else {
        match outcome {
            Ok(output) => {
                let failed = !spec_step_succeeded(output, step.action);
                (
                    st.0.push(
                        StepOutput { step_name: step.action.name, output, ignored_failure: false },
                    ),
                    !failed,
                    if failed {
                        Some(step.action.name)
                    } else {
                        st.2
                    },
                )
            },
            Err(_) => (st.0, false, Some(step.action.name)),
        }
    }
}

/// The fold of the step state machine over a sequence of outcomes, one
/// outcome per executed step.
pub open spec fn spec_run_steps(
    steps: Seq<JobStep>,
    outcomes: Seq<Result<ExecutionOutput, DeviceOpsError>>,
    st: (Seq<StepOutput>, bool, Option<String>),
) -> (Seq<StepOutput>, bool, Option<String>)
    decreases steps.len(),
{
    if steps.len() == 0 || outcomes.len() == 0 {
        st
    } else {
        spec_run_steps(
            steps.drop_first(),
            outcomes.drop_first(),
            spec_apply_step(st, steps[0], outcomes[0]),
        )
    }
}

/// Unrolling the fold from the back.
pub proof fn lemma_run_steps_push(
    steps: Seq<JobStep>,
    outcomes: Seq<Result<ExecutionOutput, DeviceOpsError>>,
    st: (Seq<StepOutput>, bool, Option<String>),
    step: JobStep,
    outcome: Result<ExecutionOutput, DeviceOpsError>,
)
    requires
        steps.len() == outcomes.len(),
    ensures
        spec_run_steps(steps.push(step), outcomes.push(outcome), st) == spec_apply_step(
            spec_run_steps(steps, outcomes, st),
            step,
            outcome,
        ),
    decreases steps.len(),
{
    if steps.len() == 0 {
        assert(steps.push(step)[0] == step);
        assert(outcomes.push(outcome)[0] == outcome);
        assert(steps.push(step).drop_first() =~= Seq::<JobStep>::empty());
        assert(outcomes.push(outcome).drop_first() =~= Seq::<
            Result<ExecutionOutput, DeviceOpsError>,
        >::empty());
        assert(spec_run_steps(
            Seq::<JobStep>::empty(),
            Seq::<Result<ExecutionOutput, DeviceOpsError>>::empty(),
            spec_apply_step(st, step, outcome),
        ) == spec_apply_step(st, step, outcome));
    } else {
        assert(steps.push(step)[0] == steps[0]);
        assert(outcomes.push(outcome)[0] == outcomes[0]);
        assert(steps.push(step).drop_first() =~= steps.drop_first().push(step));
        assert(outcomes.push(outcome).drop_first() =~= outcomes.drop_first().push(outcome));
        lemma_run_steps_push(
            steps.drop_first(),
            outcomes.drop_first(),
            spec_apply_step(st, steps[0], outcomes[0]),
            step,
            outcome,
        );
    }
}

/// A halted state absorbs every further step.
pub proof fn lemma_run_steps_halted(
    steps: Seq<JobStep>,
    outcomes: Seq<Result<ExecutionOutput, DeviceOpsError>>,
    st: (Seq<StepOutput>, bool, Option<String>),
)
    requires
        !st.1,
    ensures
        spec_run_steps(steps, outcomes, st) == st,
    decreases steps.len(),
{
    if steps.len() != 0 && outcomes.len() != 0 {
        lemma_run_steps_halted(steps.drop_first(), outcomes.drop_first(), st);
    }
}

/// From a clean state (unhalted, no failure recorded), a run whose outcomes
/// all succeed records one output per step, keeps the earlier outputs
/// untouched, and stays clean.
proof fn lemma_run_steps_all_clean(
    steps: Seq<JobStep>,
    outcomes: Seq<Result<ExecutionOutput, DeviceOpsError>>,
    st: (Seq<StepOutput>, bool, Option<String>),
)
    requires
        steps.len() == outcomes.len(),
        st.1,
        st.2 is None,
        forall|i: int|
            0 <= i < steps.len() ==> ((#[trigger] outcomes[i]) matches Ok(o)
                && spec_step_succeeded(o, steps[i].action)),
    ensures
        spec_run_steps(steps, outcomes, st).0.len() == st.0.len() + steps.len(),
        spec_run_steps(steps, outcomes, st).1 == true,
        spec_run_steps(steps, outcomes, st).2 is None,
        forall|j: int|
            0 <= j < st.0.len() ==> #[trigger] spec_run_steps(steps, outcomes, st).0[j] == st.0[j],
    decreases steps.len(),
{
    if steps.len() > 0 {
        assert(outcomes[0] matches Ok(o) && spec_step_succeeded(o, steps[0].action));
        let st2 = spec_apply_step(st, steps[0], outcomes[0]);
        assert forall|i: int| 0 <= i < steps.drop_first().len() implies ((
        #[trigger] outcomes.drop_first()[i]) matches Ok(o) && spec_step_succeeded(
            o,
            steps.drop_first()[i].action,
        )) by {
            assert(outcomes.drop_first()[i] == outcomes[i + 1]);
            assert(steps.drop_first()[i] == steps[i + 1]);
        }
        lemma_run_steps_all_clean(steps.drop_first(), outcomes.drop_first(), st2);
    }
}

/// With at least one step and no final step, a run in which every step
/// succeeds yields overall success and exactly one recorded output per step.
pub proof fn law_all_steps_succeed(
    steps: Seq<JobStep>,
    outcomes: Seq<Result<ExecutionOutput, DeviceOpsError>>,
)
    requires
        steps.len() == outcomes.len(),
        forall|i: int|
            0 <= i < steps.len() ==> ((#[trigger] outcomes[i]) matches Ok(o)
                && spec_step_succeeded(o, steps[i].action)),
    ensures
        spec_run_steps(steps, outcomes, spec_init_state()).1 == true,
        spec_run_steps(steps, outcomes, spec_init_state()).0.len() == steps.len(),
        spec_run_steps(steps, outcomes, spec_init_state()).2 is None,
{
    lemma_run_steps_all_clean(steps, outcomes, spec_init_state());
}

/// A failing step whose failure is not ignored halts processing: with the
/// steps before it succeeding, the run consumes exactly the outcomes up to
/// and including the failing one, records one output per consumed outcome,
/// marks overall failure, and names the failing step. Steps after it, and
/// the final step, are never reached: the fold needs no outcome for them.
pub proof fn law_failure_halts(
    steps: Seq<JobStep>,
    outcomes: Seq<Result<ExecutionOutput, DeviceOpsError>>,
    k: int,
)
    requires
        0 <= k < steps.len(),
        outcomes.len() == k + 1,
        forall|i: int|
            0 <= i < k ==> ((#[trigger] outcomes[i]) matches Ok(o) && spec_step_succeeded(
                o,
                steps[i].action,
            )),
        outcomes[k] matches Ok(o) && !spec_step_succeeded(o, steps[k].action),
        !spec_ignores_failure(steps[k].action),
    ensures
        spec_run_steps(steps, outcomes, spec_init_state()).0.len() == k + 1,
        spec_run_steps(steps, outcomes, spec_init_state()).1 == false,
        spec_run_steps(steps, outcomes, spec_init_state()).2 == Some(steps[k].action.name),
{
    lemma_run_steps_halts_at(steps, outcomes, spec_init_state(), k);
}

/// The general form of the halt law, from any clean state.
proof fn lemma_run_steps_halts_at(
    steps: Seq<JobStep>,
    outcomes: Seq<Result<ExecutionOutput, DeviceOpsError>>,
    st: (Seq<StepOutput>, bool, Option<String>),
    k: int,
)
    requires
        0 <= k < steps.len(),
        outcomes.len() == k + 1,
        st.1,
        forall|i: int|
            0 <= i < k ==> ((#[trigger] outcomes[i]) matches Ok(o) && spec_step_succeeded(
                o,
                steps[i].action,
            )),
        outcomes[k] matches Ok(o) && !spec_step_succeeded(o, steps[k].action),
        !spec_ignores_failure(steps[k].action),
    ensures
        spec_run_steps(steps, outcomes, st).0.len() == st.0.len() + k + 1,
        spec_run_steps(steps, outcomes, st).1 == false,
        spec_run_steps(steps, outcomes, st).2 == Some(steps[k].action.name),
    decreases k,
{
    let st2 = spec_apply_step(st, steps[0], outcomes[0]);
    if k == 0 {
        lemma_run_steps_halted(steps.drop_first(), outcomes.drop_first(), st2);
    } else {
        assert(outcomes[0] matches Ok(o) && spec_step_succeeded(o, steps[0].action));
        assert forall|i: int| 0 <= i < k - 1 implies ((#[trigger] outcomes.drop_first()[i]) matches Ok(
            o,
        ) && spec_step_succeeded(o, steps.drop_first()[i].action)) by {
            assert(outcomes.drop_first()[i] == outcomes[i + 1]);
            assert(steps.drop_first()[i] == steps[i + 1]);
        }
        assert(outcomes.drop_first()[k - 1] == outcomes[k]);
        assert(steps.drop_first()[k - 1] == steps[k]);
        lemma_run_steps_halts_at(steps.drop_first(), outcomes.drop_first(), st2, k - 1);
    }
}

/// A failing step whose failure is ignored records its output with
/// `ignored_failure` set, and execution continues through the remaining
/// steps to overall success.
pub proof fn law_ignored_failure_continues(
    steps: Seq<JobStep>,
    outcomes: Seq<Result<ExecutionOutput, DeviceOpsError>>,
    k: int,
)
    requires
        steps.len() == outcomes.len(),
        0 <= k < steps.len(),
        forall|i: int|
            0 <= i < steps.len() && i != k ==> ((#[trigger] outcomes[i]) matches Ok(o)
                && spec_step_succeeded(o, steps[i].action)),
        outcomes[k] matches Ok(o) && !spec_step_succeeded(o, steps[k].action),
        spec_ignores_failure(steps[k].action),
    ensures
        spec_run_steps(steps, outcomes, spec_init_state()).1 == true,
        spec_run_steps(steps, outcomes, spec_init_state()).0.len() == steps.len(),
        spec_run_steps(steps, outcomes, spec_init_state()).0[k].ignored_failure == true,
{
    lemma_run_steps_ignored_at(steps, outcomes, spec_init_state(), k);
}

/// The general form of the ignored-failure law, from any clean state.
proof fn lemma_run_steps_ignored_at(
    steps: Seq<JobStep>,
    outcomes: Seq<Result<ExecutionOutput, DeviceOpsError>>,
    st: (Seq<StepOutput>, bool, Option<String>),
    k: int,
)
    requires
        steps.len() == outcomes.len(),
        0 <= k < steps.len(),
        st.1,
        st.2 is None,
        forall|i: int|
            0 <= i < steps.len() && i != k ==> ((#[trigger] outcomes[i]) matches Ok(o)
                && spec_step_succeeded(o, steps[i].action)),
        outcomes[k] matches Ok(o) && !spec_step_succeeded(o, steps[k].action),
        spec_ignores_failure(steps[k].action),
    ensures
        spec_run_steps(steps, outcomes, st).1 == true,
        spec_run_steps(steps, outcomes, st).2 is None,
        spec_run_steps(steps, outcomes, st).0.len() == st.0.len() + steps.len(),
        spec_run_steps(steps, outcomes, st).0[st.0.len() + k].ignored_failure == true,
    decreases steps.len(),
{
    let st2 = spec_apply_step(st, steps[0], outcomes[0]);
    if k == 0 {
        assert(st2.0[st.0.len() as int].ignored_failure == true);
        assert forall|i: int| 0 <= i < steps.drop_first().len() implies ((
        #[trigger] outcomes.drop_first()[i]) matches Ok(o) && spec_step_succeeded(
            o,
            steps.drop_first()[i].action,
        )) by {
            assert(outcomes.drop_first()[i] == outcomes[i + 1]);
            assert(steps.drop_first()[i] == steps[i + 1]);
        }
        lemma_run_steps_all_clean(steps.drop_first(), outcomes.drop_first(), st2);
        assert(spec_run_steps(steps, outcomes, st).0[st.0.len() as int] == st2.0[st.0.len() as int]);
    } else {
        assert(outcomes[0] matches Ok(o) && spec_step_succeeded(o, steps[0].action));
        assert forall|i: int| 0 <= i < steps.drop_first().len() && i != k - 1 implies ((
        #[trigger] outcomes.drop_first()[i]) matches Ok(o) && spec_step_succeeded(
            o,
            steps.drop_first()[i].action,
        )) by {
            assert(outcomes.drop_first()[i] == outcomes[i + 1]);
            assert(steps.drop_first()[i] == steps[i + 1]);
        }
        assert(outcomes.drop_first()[k - 1] == outcomes[k]);
        assert(steps.drop_first()[k - 1] == steps[k]);
        lemma_run_steps_ignored_at(steps.drop_first(), outcomes.drop_first(), st2, k - 1);
    }
}

/// The final step runs only from a clean state — it never runs after a halt
/// — and its failure is never ignorable: whatever the step's
/// `ignore_step_failure` flag says, a failed or errored final step marks the
/// job failed and names the final step.
pub proof fn law_final_never_ignorable(
    st: (Seq<StepOutput>, bool, Option<String>),
    step: JobStep,
    outcome: Result<ExecutionOutput, DeviceOpsError>,
)
    ensures
        !st.1 ==> spec_apply_final(st, step, outcome) == st,
        st.1 ==> match outcome {
            Ok(o) => {
                &&& spec_apply_final(st, step, outcome).1 == spec_step_succeeded(o, step.action)
                &&& spec_apply_final(st, step, outcome).0 == st.0.push(
                    StepOutput { step_name: step.action.name, output: o, ignored_failure: false },
                )
                &&& !spec_step_succeeded(o, step.action) ==> spec_apply_final(st, step, outcome).2
                    == Some(step.action.name)
            },
            Err(_) => {
                &&& spec_apply_final(st, step, outcome).1 == false
                &&& spec_apply_final(st, step, outcome).2 == Some(step.action.name)
            },
        },
{
}

/// The policy gate an outcome respects: a command the policy rejects never
/// produces a captured output. The only error such a step can contribute to
/// the fold is a failed elevation probe, which stands before the policy
/// check; a rejection itself aborts the whole job instead.
pub open spec fn spec_security_consistent(
    security: Option<SecurityValidator>,
    step: JobStep,
    outcome: Result<ExecutionOutput, DeviceOpsError>,
) -> bool {
    match security {
        Some(v) => !v.spec_allows(step.action.input.command@) ==> (outcome is Err
            && step.action.run_as_user is Some),
        None => true,
    }
}

/// What `execute` promises of its result: there is a sequence of per-step
/// outcomes (one per step the runner actually ran) and an optional final-step
/// outcome such that the result is exactly the fold of the state machine over
/// them; execution stopped early only by halting; every outcome respects the
/// security gate; and the final step's outcome exists exactly when every
/// regular step left the state unhalted and the document has a final step.
pub open spec fn spec_execute_post(
    security: Option<SecurityValidator>,
    doc: JobDocument,
    res: JobExecutionResult,
    moc: Seq<Result<ExecutionOutput, DeviceOpsError>>,
    fo: Option<Result<ExecutionOutput, DeviceOpsError>>,
) -> bool {
    let main = spec_run_steps(doc.steps@.take(moc.len() as int), moc, spec_init_state());
    &&& moc.len() <= doc.steps@.len()
    &&& forall|i: int|
        0 <= i < moc.len() ==> spec_security_consistent(security, doc.steps@[i], #[trigger] moc[i])
    &&& (moc.len() < doc.steps@.len() ==> !main.1)
    &&& match (fo, doc.final_step) {
        (Some(f), Some(fs)) => {
            &&& main.1
            &&& spec_security_consistent(security, fs, f)
            &&& (res.outputs@, res.overall_success, res.failed_step) == spec_apply_final(
                main,
                fs,
                f,
            )
        },
        (None, _) => {
            &&& !(main.1 && doc.final_step is Some)
            &&& (res.outputs@, res.overall_success, res.failed_step) == main
        },
        (Some(_), None) => false,
    }
}

// ===========================================================================
// The executor
// ===========================================================================
/// Sequences a job document's steps through a command runner, enforcing the
/// security policy and the per-step timeout choice.
pub struct CommandExecutor<R: CommandRunner> {
    config: ExecutionConfig,
    security: Option<SecurityValidator>,
    runner: R,
}

impl<R: CommandRunner> CommandExecutor<R> {
    /// The execution settings the executor was built with.
    pub closed spec fn spec_config(&self) -> ExecutionConfig {
        self.config
    }

    /// The security policy the executor was built with, if any.
    pub closed spec fn spec_security(&self) -> Option<SecurityValidator> {
        self.security
    }

    /// Builds an executor around a runner. Passing `None` for the security
    /// policy disables command checks.
    pub fn new(config: ExecutionConfig, security: Option<SecurityValidator>, runner: R) -> (r: Self)
        ensures
            r.spec_config() == config,
            r.spec_security() == security,
    {
        CommandExecutor { config, security, runner }
    }

    /// Builds an executor with an explicitly chosen runner; kept alongside
    /// `new` for harnesses that name the runner at the call site.
    pub fn new_with_runner(
        config: ExecutionConfig,
        security: Option<SecurityValidator>,
        runner: R,
    ) -> (r: Self)
        ensures
            r.spec_config() == config,
            r.spec_security() == security,
    {
        Self::new(config, security, runner)
    }

    /// Whether an executed step counts as successful: exit code zero and a
    /// stderr line count within the step's allowance.
    pub fn evaluate_step_success(&self, output: &ExecutionOutput, action: &JobAction) -> (r: bool)
        ensures
            r == spec_step_succeeded(*output, *action),
    {
        if output.exit_code != 0 {
            return false;
        }
        let allowed: i32 = match action.allow_std_err {
            Some(a) => a,
            None => 0,
        };
        if allowed < 0 {
            return true;
        }
        output.stderr_line_count <= (allowed as usize)
    }

    /// Builds the command for a step. The requested run-as-user is kept only
    /// when the elevation probe answered positively; otherwise the command
    /// runs as the current identity.
    pub fn build_command(&self, action: &JobAction, elevated: bool) -> (r: Command)
        ensures
            r.script_path == action.input.command,
            match action.input.args {
                Some(a) => r.args@ == a@,
                None => r.args@ == Seq::<String>::empty(),
            },
            r.run_as_user == if elevated {
                action.run_as_user
            } else {
                None::<String>
            },
    {
        let args: Vec<String> = match &action.input.args {
            Some(a) => clone_strings(a),
            None => Vec::new(),
        };
        let run_as_user: Option<String> = if elevated {
            match &action.run_as_user {
                Some(u) => Some(u.clone()),
                None => None,
            }
        } else {
            None
        };
        Command { script_path: action.input.command.clone(), args, run_as_user }
    }

    /// Runs one step: resolves elevation, builds the command, gates it
    /// through the security policy, and hands it to the runner with the
    /// step's timeout. A policy rejection comes back in the outer error and
    /// aborts the whole job; everything else (a failed probe, a runner
    /// error, a captured output) is the step's own outcome.
    fn execute_step(&mut self, action: &JobAction) -> (r: Result<
        Result<ExecutionOutput, DeviceOpsError>,
        DeviceOpsError,
    >)
        ensures
            final(self).spec_config() == old(self).spec_config(),
            final(self).spec_security() == old(self).spec_security(),
            match r {
                Err(e) => old(self).spec_security() matches Some(v) && ({
                    &&& !v.spec_allows(action.input.command@)
                    &&& e matches DeviceOpsError::SecurityError(m) && m@ == v.spec_rejection(
                        action.input.command@,
                    )
                }),
                Ok(outcome) => match old(self).spec_security() {
                    Some(v) => !v.spec_allows(action.input.command@) ==> (outcome is Err
                        && action.run_as_user is Some),
                    None => true,
                },
            },
    {
        let elevated: bool = match &action.run_as_user {
            Some(user) => {
                match self.runner.verify_elevation(user) {
                    Ok(available) => available,
                    Err(e) => {
                        return Ok(Err(e));
                    },
                }
            },
            None => false,
        };
        let command = self.build_command(action, elevated);
        match &self.security {
            Some(validator) => {
                match validator.validate(&command) {
                    Ok(()) => {},
                    Err(e) => {
                        return Err(e);
                    },
                }
            },
            None => {},
        }
        let timeout_secs: u64 = match action.input.timeout {
            Some(t) => t,
            None => self.config.default_timeout,
        };
        Ok(self.runner.run(&command, timeout_secs))
    }

    /// Executes every step of the document in order, stopping at the first
    /// failure that is not ignored, then the final step if the document has
    /// one and nothing halted. A security-policy rejection short-circuits
    /// the whole job with the rejection as the error, before anything runs
    /// for that step; with no policy in force, or every command admitted,
    /// execution always completes with a result. The result is the fold of
    /// the step state machine over the outcomes the runner produced.
    pub fn execute(&mut self, job_document: &JobDocument) -> (r: Result<
        JobExecutionResult,
        DeviceOpsError,
    >)
        ensures
            final(self).spec_config() == old(self).spec_config(),
            final(self).spec_security() == old(self).spec_security(),
            old(self).spec_security() is None ==> r is Ok,
            match old(self).spec_security() {
                Some(v) => (forall|j: int|
                    0 <= j < spec_all_steps(*job_document).len()
                        ==> v.spec_allows(
                        #[trigger] spec_all_steps(
                            *job_document,
                        )[j].action.input.command@,
                    )) ==> r is Ok,
                None => true,
            },
            match r {
                Ok(res) => exists|
                    moc: Seq<Result<ExecutionOutput, DeviceOpsError>>,
                    fo: Option<Result<ExecutionOutput, DeviceOpsError>>,
                |
                    spec_execute_post(old(self).spec_security(), *job_document, res, moc, fo),
                Err(e) => {
                    &&& old(self).spec_security() matches Some(v) && (exists|j: int|
                        ({
                            &&& 0 <= j < spec_all_steps(*job_document).len()
                            &&& !v.spec_allows(
                                #[trigger] spec_all_steps(
                                    *job_document,
                                )[j].action.input.command@,
                            )
                            &&& e matches DeviceOpsError::SecurityError(m) && m@
                                == v.spec_rejection(
                                spec_all_steps(
                                    *job_document,
                                )[j].action.input.command@,
                            )
                        }))
                },
            },
    {
        let ghost sec0 = self.spec_security();
        let ghost cfg0 = self.spec_config();
        let mut outputs: Vec<StepOutput> = Vec::new();
        let mut overall_success: bool = true;
        let mut failed_step: Option<String> = None;
        let ghost mut moc: Seq<Result<ExecutionOutput, DeviceOpsError>> = Seq::empty();
        let n = job_document.steps.len();
        let mut i: usize = 0;
        while i < n
            invariant_except_break
                n == job_document.steps@.len(),
                i <= n,
                moc.len() == i,
                self.spec_security() == sec0,
                self.spec_config() == cfg0,
                sec0 == old(self).spec_security(),
                cfg0 == old(self).spec_config(),
                overall_success == true,
                failed_step is None,
                forall|k: int|
                    0 <= k < i ==> spec_security_consistent(
                        sec0,
                        job_document.steps@[k],
                        #[trigger] moc[k],
                    ),
                (outputs@, overall_success, failed_step) == spec_run_steps(
                    job_document.steps@.take(i as int),
                    moc,
                    spec_init_state(),
                ),
            ensures
                n == job_document.steps@.len(),
                i <= n,
                moc.len() == i,
                self.spec_security() == sec0,
                self.spec_config() == cfg0,
                sec0 == old(self).spec_security(),
                cfg0 == old(self).spec_config(),
                forall|k: int|
                    0 <= k < i ==> spec_security_consistent(
                        sec0,
                        job_document.steps@[k],
                        #[trigger] moc[k],
                    ),
                (outputs@, overall_success, failed_step) == spec_run_steps(
                    job_document.steps@.take(i as int),
                    moc,
                    spec_init_state(),
                ),
                !overall_success || i == n,
            decreases n - i,
        {
            let ghost st_pre = (outputs@, overall_success, failed_step);
            let ghost steps_pre = job_document.steps@.take(i as int);
            let step_action = &job_document.steps[i].action;
            let attempt = self.execute_step(step_action);
            let outcome = match attempt {
                Err(e) => {
                    proof {
                        assert(spec_all_steps(*job_document)[i as int]
                            == job_document.steps@[i as int]);
                    }
                    return Err(e);
                },
                Ok(oc) => oc,
            };
            let ghost oc = outcome;
            let ghost moc_pre = moc;
            proof {
                moc = moc.push(oc);
                assert(job_document.steps@.take(i + 1) =~= steps_pre.push(
                    job_document.steps@[i as int],
                ));
                assert(st_pre == spec_run_steps(steps_pre, moc_pre, spec_init_state()));
                lemma_run_steps_push(
                    steps_pre,
                    moc_pre,
                    spec_init_state(),
                    job_document.steps@[i as int],
                    oc,
                );
                assert(spec_run_steps(
                    job_document.steps@.take(i + 1),
                    moc,
                    spec_init_state(),
                ) == spec_apply_step(st_pre, job_document.steps@[i as int], oc));
            }
            i = i + 1;
            match outcome {
                Ok(output) => {
                    let step_failed = !self.evaluate_step_success(&output, step_action);
                    let ignore_failure: bool = match step_action.ignore_step_failure {
                        Some(b) => b,
                        None => false,
                    };
                    if step_failed && !ignore_failure {
                        overall_success = false;
                        failed_step = Some(step_action.name.clone());
                        outputs.push(
                            StepOutput {
                                step_name: step_action.name.clone(),
                                output,
                                ignored_failure: false,
                            },
                        );
                        proof {
                            assert((outputs@, overall_success, failed_step) == spec_run_steps(
                                job_document.steps@.take(i as int),
                                moc,
                                spec_init_state(),
                            ));
                        }
                        break ;
                    }
                    outputs.push(
                        StepOutput {
                            step_name: step_action.name.clone(),
                            output,
                            ignored_failure: step_failed && ignore_failure,
                        },
                    );
                    proof {
                        assert((outputs@, overall_success, failed_step) == spec_run_steps(
                            job_document.steps@.take(i as int),
                            moc,
                            spec_init_state(),
                        ));
                    }
                },
                Err(_) => {
                    let ignore_failure: bool = match step_action.ignore_step_failure {
                        Some(b) => b,
                        None => false,
                    };
                    if !ignore_failure {
                        overall_success = false;
                        failed_step = Some(step_action.name.clone());
                        proof {
                            assert((outputs@, overall_success, failed_step) == spec_run_steps(
                                job_document.steps@.take(i as int),
                                moc,
                                spec_init_state(),
                            ));
                        }
                        break ;
                    }
                    proof {
                        assert((outputs@, overall_success, failed_step) == spec_run_steps(
                            job_document.steps@.take(i as int),
                            moc,
                            spec_init_state(),
                        ));
                    }
                },
            }
        }
        let ghost main = spec_run_steps(
            job_document.steps@.take(moc.len() as int),
            moc,
            spec_init_state(),
        );
        let ghost mut fo: Option<Result<ExecutionOutput, DeviceOpsError>> = None;
        if overall_success {
            match &job_document.final_step {
                Some(final_step) => {
                    let attempt = self.execute_step(&final_step.action);
                    let outcome = match attempt {
                        Err(e) => {
                            proof {
                                assert(spec_all_steps(
                                    *job_document,
                                )[job_document.steps@.len() as int] == *final_step);
                            }
                            return Err(e);
                        },
                        Ok(oc) => oc,
                    };
                    proof {
                        fo = Some(outcome);
                    }
                    match outcome {
                        Ok(output) => {
                            let step_failed = !self.evaluate_step_success(
                                &output,
                                &final_step.action,
                            );
                            if step_failed {
                                overall_success = false;
                                failed_step = Some(final_step.action.name.clone());
                            }
                            outputs.push(
                                StepOutput {
                                    step_name: final_step.action.name.clone(),
                                    output,
                                    ignored_failure: false,
                                },
                            );
                        },
                        Err(_) => {
                            overall_success = false;
                            failed_step = Some(final_step.action.name.clone());
                        },
                    }
                },
                None => {},
            }
        }
        let res = JobExecutionResult { outputs, overall_success, failed_step };
        proof {
            assert(spec_execute_post(sec0, *job_document, res, moc, fo));
        }
        Ok(res)
    }
}

/// A fresh vector holding the same strings.
fn clone_strings(v: &Vec<String>) -> (r: Vec<String>)
    ensures
        r@ == v@,
{
    let mut r: Vec<String> = Vec::new();
    let mut i: usize = 0;
    while i < v.len()
        invariant
            i <= v@.len(),
            r@ == v@.take(i as int),
        decreases v@.len() - i,
    {
        r.push(v[i].clone());
        i = i + 1;
        proof {
            assert(r@ =~= v@.take(i as int));
        }
    }
    proof {
        assert(v@.take(v@.len() as int) =~= v@);
    }
    r
}

} // verus!
