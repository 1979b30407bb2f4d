//! The stack runner's execution of a run, as a state machine: mark the run
//! started, run `terraform init` and then the run type's command in the
//! stack's working directory, record what came out, and write the final
//! status. The caller runs the commands and the database writes and hands
//! back their outcome.
use vstd::prelude::*;
use crate::pipeline::strings_view;
use crate::stack::{StackRunStatus, StackRunType};
use crate::stack_flow::opt_text;
use crate::stack_runner::{parse_plan_summary, plan_counts, plan_needs_approval, StackRunnerError};
use crate::text::{append_str, chars_of, owned, string_of};

verus! {

/// Where the execution of a run stands.
#[derive(Debug, Clone, Copy, PartialEq, Eq, Structural)]
pub enum RunnerStage {
    /// Nothing done yet.
    Start,
    /// Waiting for the run to be marked as started.
    MarkingStarted,
    /// Waiting for `terraform init`.
    Initializing,
    /// Waiting for the run type's command.
    Running,
    /// Waiting for the plan's output and counts to be recorded.
    RecordingPlan,
    /// Waiting for the run to be marked as needing approval.
    MarkingApproval,
    /// Waiting for the apply's output to be recorded.
    RecordingApply,
    /// Waiting for the final status to be written.
    Finishing,
    /// Nothing more to do.
    Done,
}

/// An error of the runner as plain text.
pub enum RunnerErrorView {
    Database(Seq<char>),
    Git(Seq<char>),
    NoWorkingDirectory,
    Execution(Seq<char>),
    TerraformFailed(Seq<char>),
    JobError(Seq<char>),
}

pub open spec fn error_view(e: StackRunnerError) -> RunnerErrorView {
    match e {
        StackRunnerError::Database(m) => RunnerErrorView::Database(m@),
        StackRunnerError::Git(m) => RunnerErrorView::Git(m@),
        StackRunnerError::NoWorkingDirectory => RunnerErrorView::NoWorkingDirectory,
        StackRunnerError::Execution(m) => RunnerErrorView::Execution(m@),
        StackRunnerError::TerraformFailed(m) => RunnerErrorView::TerraformFailed(m@),
        StackRunnerError::JobError(m) => RunnerErrorView::JobError(m@),
    }
}

/// The message of an error, as `StackRunnerError::message` gives it.
pub open spec fn error_message(e: RunnerErrorView) -> Seq<char> {
    match e {
        RunnerErrorView::Database(m) => "Database error: "@ + m,
        RunnerErrorView::Git(m) => "Git error: "@ + m,
        RunnerErrorView::NoWorkingDirectory => "No working directory set for stack"@,
        RunnerErrorView::Execution(m) => "Execution error: "@ + m,
        RunnerErrorView::TerraformFailed(m) => "Terraform command failed: "@ + m,
        RunnerErrorView::JobError(m) => "Job execution error: "@ + m,
    }
}

/// The execution of one run.
#[derive(Debug)]
pub struct RunnerTask {
    pub run_type: StackRunType,
    pub working_dir: Option<String>,
    pub auto_apply: bool,
    pub stage: RunnerStage,
    /// The output of `terraform init`, kept until the command has run.
    pub init_output: Option<String>,
    /// The plan's change counts, kept while they are recorded.
    pub counts: (i32, i32, i32),
    /// The failure being recorded, where the run failed.
    pub failure: Option<StackRunnerError>,
}

pub struct RunnerTaskView {
    pub run_type: StackRunType,
    pub working_dir: Option<Seq<char>>,
    pub auto_apply: bool,
    pub stage: RunnerStage,
    pub init_output: Option<Seq<char>>,
    pub counts: (i32, i32, i32),
    pub failure: Option<RunnerErrorView>,
}

impl View for RunnerTask {
    type V = RunnerTaskView;

    open spec fn view(&self) -> RunnerTaskView {
        RunnerTaskView {
            run_type: self.run_type,
            working_dir: opt_text(self.working_dir),
            auto_apply: self.auto_apply,
            stage: self.stage,
            init_output: opt_text(self.init_output),
            counts: self.counts,
            failure: match self.failure {
                Some(e) => Some(error_view(e)),
                None => None,
            },
        }
    }
}

/// What a finished Terraform command gave.
#[derive(Debug)]
pub struct CommandOutput {
    pub code: Option<i32>,
    pub success: bool,
    pub stdout: String,
    pub stderr: String,
}

/// The outcome of the last action.
#[derive(Debug)]
pub enum RunnerEvent {
    /// The execution begins.
    Begin,
    /// A database write finished; a failure carries the database's message.
    Written(Result<(), String>),
    /// A Terraform command finished, or could not be started (with the
    /// reason).
    Ran(Result<CommandOutput, String>),
}

pub open spec fn ran_view(r: Result<CommandOutput, String>) -> Result<(Option<i32>, bool, Seq<char>, Seq<char>), Seq<char>> {
    match r {
        Ok(o) => Ok((o.code, o.success, o.stdout@, o.stderr@)),
        Err(m) => Err(m@),
    }
}

pub enum RunnerEventView {
    Begin,
    Written(Result<(), Seq<char>>),
    Ran(Result<(Option<i32>, bool, Seq<char>, Seq<char>), Seq<char>>),
}

impl View for RunnerEvent {
    type V = RunnerEventView;

    open spec fn view(&self) -> RunnerEventView {
        match self {
            RunnerEvent::Begin => RunnerEventView::Begin,
            RunnerEvent::Written(Ok(())) => RunnerEventView::Written(Ok(())),
            RunnerEvent::Written(Err(m)) => RunnerEventView::Written(Err(m@)),
            RunnerEvent::Ran(r) => RunnerEventView::Ran(ran_view(*r)),
        }
    }
}

/// What to do next.
#[derive(Debug)]
pub enum RunnerAction {
    /// Mark the run as started.
    MarkStarted,
    /// Run `terraform` with these arguments in the directory.
    Terraform { working_dir: String, args: Vec<String> },
    /// Record the plan's output and change counts.
    RecordPlan { output: String, to_add: i32, to_change: i32, to_destroy: i32 },
    /// Write the run's status.
    SetStatus { status: StackRunStatus },
    /// Record the apply's output.
    RecordApply { output: String },
    /// Write the run's final status and error.
    Finish { status: StackRunStatus, error: Option<String> },
    /// Stop, with the execution's outcome.
    Stop { result: Result<(), StackRunnerError> },
}

pub enum RunnerActionView {
    MarkStarted,
    Terraform(Seq<char>, Seq<Seq<char>>),
    RecordPlan(Seq<char>, i32, i32, i32),
    SetStatus(StackRunStatus),
    RecordApply(Seq<char>),
    Finish(StackRunStatus, Option<Seq<char>>),
    Stop(Result<(), RunnerErrorView>),
}

impl View for RunnerAction {
    type V = RunnerActionView;

    open spec fn view(&self) -> RunnerActionView {
        match self {
            RunnerAction::MarkStarted => RunnerActionView::MarkStarted,
            RunnerAction::Terraform { working_dir, args } => RunnerActionView::Terraform(
                working_dir@,
                strings_view(args@),
            ),
            RunnerAction::RecordPlan { output, to_add, to_change, to_destroy } => RunnerActionView::RecordPlan(
                output@,
                *to_add,
                *to_change,
                *to_destroy,
            ),
            RunnerAction::SetStatus { status } => RunnerActionView::SetStatus(*status),
            RunnerAction::RecordApply { output } => RunnerActionView::RecordApply(output@),
            RunnerAction::Finish { status, error } => RunnerActionView::Finish(*status, opt_text(*error)),
            RunnerAction::Stop { result } => RunnerActionView::Stop(
                match result {
                    Ok(()) => Ok(()),
                    Err(e) => Err(error_view(*e)),
                },
            ),
        }
    }
}

/// The arguments of the command a run type runs after `terraform init`.
pub open spec fn command_args(t: StackRunType) -> Seq<Seq<char>> {
    match t {
        StackRunType::Plan => seq!["plan"@, "-input=false"@, "-no-color"@],
        StackRunType::Apply => seq!["apply"@, "-input=false"@, "-auto-approve"@, "-no-color"@],
        StackRunType::Destroy => seq!["destroy"@, "-input=false"@, "-auto-approve"@, "-no-color"@],
        StackRunType::Refresh => seq!["refresh"@, "-no-color"@],
    }
}

/// The arguments of `terraform init`.
pub open spec fn init_args() -> Seq<Seq<char>> {
    seq!["init"@, "-input=false"@]
}

/// What a command's run means: its output and error text joined by a
/// newline, as a success for a zero exit (or exit code 2 of a plan, which
/// found changes) and as a failure otherwise; a command that could not be
/// started is an execution error.
pub open spec fn command_outcome(
    is_plan: bool,
    r: Result<(Option<i32>, bool, Seq<char>, Seq<char>), Seq<char>>,
) -> Result<Seq<char>, RunnerErrorView> {
    match r {
        Err(m) => Err(RunnerErrorView::Execution(m)),
        Ok((code, success, out, err)) => {
            let combined = out + "\n"@ + err;
            if success || (is_plan && code == Some(2i32)) {
                Ok(combined)
            } else {
                Err(RunnerErrorView::TerraformFailed(combined))
            }
        },
    }
}

pub open spec fn runner_at(t: RunnerTaskView, stage: RunnerStage) -> RunnerTaskView {
    RunnerTaskView {
        run_type: t.run_type,
        working_dir: t.working_dir,
        auto_apply: t.auto_apply,
        stage,
        init_output: t.init_output,
        counts: t.counts,
        failure: t.failure,
    }
}

/// Recording a failure: the run finishes failed with the error's message.
pub open spec fn runner_fail(t: RunnerTaskView, e: RunnerErrorView) -> (RunnerTaskView, RunnerActionView) {
    (
        RunnerTaskView {
            run_type: t.run_type,
            working_dir: t.working_dir,
            auto_apply: t.auto_apply,
            stage: RunnerStage::Finishing,
            init_output: t.init_output,
            counts: t.counts,
            failure: Some(e),
        },
        RunnerActionView::Finish(StackRunStatus::Failed, Some(error_message(e))),
    )
}

pub open spec fn runner_succeed(t: RunnerTaskView) -> (RunnerTaskView, RunnerActionView) {
    (runner_at(t, RunnerStage::Finishing), RunnerActionView::Finish(StackRunStatus::Succeeded, None))
}

pub open spec fn or_empty_text(o: Option<Seq<char>>) -> Seq<char> {
    match o {
        Some(s) => s,
        None => Seq::empty(),
    }
}

/// One step of a run's execution. An outcome that does not belong to the
/// stage ends it.
pub open spec fn runner_step(t: RunnerTaskView, e: RunnerEventView) -> (RunnerTaskView, RunnerActionView) {
    match (t.stage, e) {
        (RunnerStage::Start, RunnerEventView::Begin) => (
            runner_at(t, RunnerStage::MarkingStarted),
            RunnerActionView::MarkStarted,
        ),
        (RunnerStage::MarkingStarted, RunnerEventView::Written(w)) => match w {
            Err(m) => (
                runner_at(t, RunnerStage::Done),
                RunnerActionView::Stop(Err(RunnerErrorView::Database(m))),
            ),
            Ok(_) => match t.working_dir {
                None => runner_fail(t, RunnerErrorView::NoWorkingDirectory),
                Some(d) => (runner_at(t, RunnerStage::Initializing), RunnerActionView::Terraform(d, init_args())),
            },
        },
        (RunnerStage::Initializing, RunnerEventView::Ran(r)) => match command_outcome(false, r) {
            Err(err) => runner_fail(t, err),
            Ok(out) => (
                RunnerTaskView {
                    run_type: t.run_type,
                    working_dir: t.working_dir,
                    auto_apply: t.auto_apply,
                    stage: RunnerStage::Running,
                    init_output: Some(out),
                    counts: t.counts,
                    failure: t.failure,
                },
                RunnerActionView::Terraform(or_empty_text(t.working_dir), command_args(t.run_type)),
            ),
        },
        (RunnerStage::Running, RunnerEventView::Ran(r)) => match command_outcome(
            t.run_type == StackRunType::Plan,
            r,
        ) {
            Err(err) => runner_fail(t, err),
            Ok(out) => {
                let combined = or_empty_text(t.init_output) + "\n"@ + out;
                match t.run_type {
                    StackRunType::Plan => {
                        let c = plan_counts(out);
                        (
                            RunnerTaskView {
                                run_type: t.run_type,
                                working_dir: t.working_dir,
                                auto_apply: t.auto_apply,
                                stage: RunnerStage::RecordingPlan,
                                init_output: t.init_output,
                                counts: c,
                                failure: t.failure,
                            },
                            RunnerActionView::RecordPlan(combined, c.0, c.1, c.2),
                        )
                    },
                    StackRunType::Apply => (
                        runner_at(t, RunnerStage::RecordingApply),
                        RunnerActionView::RecordApply(combined),
                    ),
                    _ => runner_succeed(t),
                }
            },
        },
        (RunnerStage::RecordingPlan, RunnerEventView::Written(w)) => match w {
            Err(m) => runner_fail(t, RunnerErrorView::Database(m)),
            Ok(_) => if !t.auto_apply && (t.counts.0 > 0 || t.counts.1 > 0 || t.counts.2 > 0) {
                (
                    runner_at(t, RunnerStage::MarkingApproval),
                    RunnerActionView::SetStatus(StackRunStatus::NeedsApproval),
                )
            } else {
                runner_succeed(t)
            },
        },
        (RunnerStage::MarkingApproval, RunnerEventView::Written(w)) => match w {
            Err(m) => runner_fail(t, RunnerErrorView::Database(m)),
            Ok(_) => runner_succeed(t),
        },
        (RunnerStage::RecordingApply, RunnerEventView::Written(w)) => match w {
            Err(m) => runner_fail(t, RunnerErrorView::Database(m)),
            Ok(_) => runner_succeed(t),
        },
        (RunnerStage::Finishing, RunnerEventView::Written(w)) => (
            RunnerTaskView {
                run_type: t.run_type,
                working_dir: t.working_dir,
                auto_apply: t.auto_apply,
                stage: RunnerStage::Done,
                init_output: t.init_output,
                counts: t.counts,
                failure: None,
            },
            RunnerActionView::Stop(
                match w {
                    Err(m) => Err(RunnerErrorView::Database(m)),
                    Ok(_) => match t.failure {
                        Some(f) => Err(f),
                        None => Ok(()),
                    },
                },
            ),
        ),
        _ => (runner_at(t, RunnerStage::Done), RunnerActionView::Stop(Ok(()))),
    }
}

fn string_list(items: &[&str]) -> (r: Vec<String>)
    ensures
        strings_view(r@) == items@.map_values(|s: &str| s@),
{
    let mut out: Vec<String> = Vec::new();
    let mut i: usize = 0;
    while i < items.len()
        invariant
            i <= items.len(),
            strings_view(out@) == items@.take(i as int).map_values(|s: &str| s@),
        decreases items.len() - i,
    {
        let ghost before = strings_view(out@);
        out.push(owned(items[i]));
        assert(strings_view(out@) =~= before.push(items@[i as int]@));
        assert(items@.take(i + 1).map_values(|s: &str| s@) =~= items@.take(i as int).map_values(
            |s: &str| s@,
        ).push(items@[i as int]@));
        i = i + 1;
    }
    assert(items@.take(i as int) =~= items@);
    out
}

fn joined(a: &str, b: &str) -> (r: String)
    ensures
        r@ == a@ + "\n"@ + b@,
{
    let mut out = chars_of(a);
    append_str(&mut out, "\n");
    append_str(&mut out, b);
    string_of(out.as_slice())
}

fn outcome_of(is_plan: bool, r: Result<CommandOutput, String>) -> (o: Result<String, StackRunnerError>)
    ensures
        match o {
            Ok(s) => command_outcome(is_plan, ran_view(r)) == Ok::<Seq<char>, RunnerErrorView>(s@),
            Err(e) => command_outcome(is_plan, ran_view(r)) == Err::<Seq<char>, RunnerErrorView>(
                error_view(e),
            ),
        },
{
    match r {
        Err(m) => Err(StackRunnerError::Execution(m)),
        Ok(o) => {
            let combined = joined(o.stdout.as_str(), o.stderr.as_str());
            if o.success || (is_plan && o.code == Some(2i32)) {
                Ok(combined)
            } else {
                Err(StackRunnerError::TerraformFailed(combined))
            }
        },
    }
}

impl RunnerTask {
    /// The stages that run commands know the directory, and the command
    /// after init knows init's output.
    pub open spec fn wf(&self) -> bool {
        &&& (self.stage == RunnerStage::Initializing || self.stage == RunnerStage::Running) ==> self.working_dir
            is Some
        &&& self.stage == RunnerStage::Running ==> self.init_output is Some
    }

    /// The execution of a run of the given type for a stack.
    pub fn new(run_type: StackRunType, working_dir: Option<String>, auto_apply: bool) -> (r: Self)
        ensures
            r.wf(),
            r@ == (RunnerTaskView {
                run_type,
                working_dir: opt_text(working_dir),
                auto_apply,
                stage: RunnerStage::Start,
                init_output: None,
                counts: (0i32, 0i32, 0i32),
                failure: None,
            }),
    {
        RunnerTask {
            run_type,
            working_dir,
            auto_apply,
            stage: RunnerStage::Start,
            init_output: None,
            counts: (0, 0, 0),
            failure: None,
        }
    }

    fn moved(self, stage: RunnerStage) -> (r: Self)
        ensures
            r@ == runner_at(self@, stage),
    {
        RunnerTask {
            run_type: self.run_type,
            working_dir: self.working_dir,
            auto_apply: self.auto_apply,
            stage,
            init_output: self.init_output,
            counts: self.counts,
            failure: self.failure,
        }
    }

    fn failed(self, e: StackRunnerError) -> (r: (Self, RunnerAction))
        ensures
            r.0@ == runner_fail(self@, error_view(e)).0,
            r.1@ == runner_fail(self@, error_view(e)).1,
            r.0.stage == RunnerStage::Finishing,
    {
        let m = e.message();
        (
            RunnerTask {
                run_type: self.run_type,
                working_dir: self.working_dir,
                auto_apply: self.auto_apply,
                stage: RunnerStage::Finishing,
                init_output: self.init_output,
                counts: self.counts,
                failure: Some(e),
            },
            RunnerAction::Finish { status: StackRunStatus::Failed, error: Some(m) },
        )
    }

    fn succeeded(self) -> (r: (Self, RunnerAction))
        ensures
            r.0@ == runner_succeed(self@).0,
            r.1@ == runner_succeed(self@).1,
            r.0.stage == RunnerStage::Finishing,
    {
        (self.moved(RunnerStage::Finishing), RunnerAction::Finish { status: StackRunStatus::Succeeded, error: None })
    }

    /// One step of the execution: the task after the outcome `event` of the
    /// last action, and the next action.
    pub fn step(self, event: RunnerEvent) -> (r: (Self, RunnerAction))
        requires
            self.wf(),
        ensures
            r.0.wf(),
            r.0@ == runner_step(self@, event@).0,
            r.1@ == runner_step(self@, event@).1,
    {
        match (self.stage, event) {
            (RunnerStage::Start, RunnerEvent::Begin) => (self.moved(RunnerStage::MarkingStarted), RunnerAction::MarkStarted),
            (RunnerStage::MarkingStarted, RunnerEvent::Written(w)) => match w {
                Err(m) => (
                    self.moved(RunnerStage::Done),
                    RunnerAction::Stop { result: Err(StackRunnerError::Database(m)) },
                ),
                Ok(()) => {
                    let dir = match &self.working_dir {
                        Some(d) => d.clone(),
                        None => {
                            return self.failed(StackRunnerError::NoWorkingDirectory);
                        },
                    };
                    let args = string_list(&["init", "-input=false"]);
                    proof {
                        reveal_strlit("init");
                        reveal_strlit("-input=false");
                        assert(strings_view(args@) =~= init_args());
                    }
                    (self.moved(RunnerStage::Initializing), RunnerAction::Terraform { working_dir: dir, args })
                },
            },
            (RunnerStage::Initializing, RunnerEvent::Ran(r)) => {
                match outcome_of(false, r) {
                    Err(e) => self.failed(e),
                    Ok(out) => {
                        let dir = match &self.working_dir {
                            Some(d) => d.clone(),
                            None => owned(""),
                        };
                        let args = match self.run_type {
                            StackRunType::Plan => string_list(&["plan", "-input=false", "-no-color"]),
                            StackRunType::Apply => string_list(
                                &["apply", "-input=false", "-auto-approve", "-no-color"],
                            ),
                            StackRunType::Destroy => string_list(
                                &["destroy", "-input=false", "-auto-approve", "-no-color"],
                            ),
                            StackRunType::Refresh => string_list(&["refresh", "-no-color"]),
                        };
                        assert(strings_view(args@) =~= command_args(self.run_type));
                        (
                            RunnerTask {
                                run_type: self.run_type,
                                working_dir: self.working_dir,
                                auto_apply: self.auto_apply,
                                stage: RunnerStage::Running,
                                init_output: Some(out),
                                counts: self.counts,
                                failure: self.failure,
                            },
                            RunnerAction::Terraform { working_dir: dir, args },
                        )
                    },
                }
            },
            (RunnerStage::Running, RunnerEvent::Ran(r)) => {
                let is_plan = self.run_type == StackRunType::Plan;
                match outcome_of(is_plan, r) {
                    Err(e) => self.failed(e),
                    Ok(out) => {
                        let init = match &self.init_output {
                            Some(i) => i.clone(),
                            None => owned(""),
                        };
                        let combined = joined(init.as_str(), out.as_str());
                        match self.run_type {
                            StackRunType::Plan => {
                                let c = parse_plan_summary(out.as_str());
                                (
                                    RunnerTask {
                                        run_type: self.run_type,
                                        working_dir: self.working_dir,
                                        auto_apply: self.auto_apply,
                                        stage: RunnerStage::RecordingPlan,
                                        init_output: self.init_output,
                                        counts: c,
                                        failure: self.failure,
                                    },
                                    RunnerAction::RecordPlan {
                                        output: combined,
                                        to_add: c.0,
                                        to_change: c.1,
                                        to_destroy: c.2,
                                    },
                                )
                            },
                            StackRunType::Apply => (
                                self.moved(RunnerStage::RecordingApply),
                                RunnerAction::RecordApply { output: combined },
                            ),
                            _ => self.succeeded(),
                        }
                    },
                }
            },
            (RunnerStage::RecordingPlan, RunnerEvent::Written(w)) => match w {
                Err(m) => self.failed(StackRunnerError::Database(m)),
                Ok(()) => {
                    if plan_needs_approval(self.auto_apply, self.counts.0, self.counts.1, self.counts.2) {
                        (
                            self.moved(RunnerStage::MarkingApproval),
                            RunnerAction::SetStatus { status: StackRunStatus::NeedsApproval },
                        )
                    } else {
                        self.succeeded()
                    }
                },
            },
            (RunnerStage::MarkingApproval, RunnerEvent::Written(w)) => match w {
                Err(m) => self.failed(StackRunnerError::Database(m)),
                Ok(()) => self.succeeded(),
            },
            (RunnerStage::RecordingApply, RunnerEvent::Written(w)) => match w {
                Err(m) => self.failed(StackRunnerError::Database(m)),
                Ok(()) => self.succeeded(),
            },
            (RunnerStage::Finishing, RunnerEvent::Written(w)) => {
                let result = match w {
                    Err(m) => Err(StackRunnerError::Database(m)),
                    Ok(()) => match self.failure {
                        Some(f) => Err(f),
                        None => Ok(()),
                    },
                };
                (
                    RunnerTask {
                        run_type: self.run_type,
                        working_dir: self.working_dir,
                        auto_apply: self.auto_apply,
                        stage: RunnerStage::Done,
                        init_output: self.init_output,
                        counts: self.counts,
                        failure: None,
                    },
                    RunnerAction::Stop { result },
                )
            },
            _ => (self.moved(RunnerStage::Done), RunnerAction::Stop { result: Ok(()) }),
        }
    }
}

/// How far a stage is from the end of the execution.
pub open spec fn runner_rank(s: RunnerStage) -> nat {
    match s {
        RunnerStage::Start => 7,
        RunnerStage::MarkingStarted => 6,
        RunnerStage::Initializing => 5,
        RunnerStage::Running => 4,
        RunnerStage::RecordingPlan => 3,
        RunnerStage::MarkingApproval => 2,
        RunnerStage::RecordingApply => 2,
        RunnerStage::Finishing => 1,
        RunnerStage::Done => 0,
    }
}

/// Every step from a stage other than the end moves the execution closer
/// to the end, so it always finishes; once done it stays done. The final
/// status is written exactly on entering the finishing stage, and the
/// execution's outcome is a success only where nothing failed.
pub proof fn lemma_runner_progress(t: RunnerTaskView, e: RunnerEventView)
    ensures
        t.stage != RunnerStage::Done ==> runner_rank(runner_step(t, e).0.stage) < runner_rank(t.stage),
        t.stage == RunnerStage::Done ==> runner_step(t, e).0.stage == RunnerStage::Done,
        runner_step(t, e).1 is Finish <==> runner_step(t, e).0.stage == RunnerStage::Finishing,
        (t.stage == RunnerStage::Finishing && e == RunnerEventView::Written(Ok(()))) ==> runner_step(t, e).1
            == RunnerActionView::Stop(
            match t.failure {
                Some(f) => Err(f),
                None => Ok(()),
            },
        ),
{
}

} // verus!
