//! The background work behind stack runs and stack set-up, as state
//! machines: each step takes the outcome of the last action and says what
//! to do next. The caller performs the actions (Terraform, the database,
//! the file system) and hands back what they gave.
use vstd::prelude::*;
use crate::git::join_path;
use crate::stack::{StackRunStatus, StackRunType, StackStatus};
use crate::terraform::{terraform_error_text, TerraformError};
use crate::text::{append_str, chars_of, owned, string_of};

verus! {

/// Where the background work of a stack run stands.
#[derive(Debug, Clone, Copy, PartialEq, Eq, Structural)]
pub enum RunStage {
    /// A triggered run, nothing done yet.
    Start,
    /// An approved run, nothing done yet.
    ApprovalStart,
    /// Waiting for the run to be marked as started.
    MarkingStarted,
    /// Waiting for the run to be marked as applying.
    SettingApplying,
    /// Waiting to learn whether the saved plan file exists.
    CheckingPlanFile,
    /// Waiting for `terraform plan`.
    Planning,
    /// Waiting for the plan's output to be recorded.
    RecordingPlan,
    /// Waiting for `terraform apply`; `auto` where it is the automatic apply
    /// after a plan run.
    Applying { auto: bool },
    /// Waiting for `terraform destroy`.
    Destroying,
    /// Waiting for the output of apply or destroy to be recorded.
    RecordingOutput,
    /// Waiting for the final status to be written.
    Finishing,
    /// Nothing more to do.
    Done,
}

/// What a successful plan said: whether there are changes, and the saved
/// plan file where there are.
#[derive(Debug, Clone)]
pub struct PlanDone {
    pub has_changes: bool,
    pub plan_file: Option<String>,
}

pub struct PlanDoneView {
    pub has_changes: bool,
    pub plan_file: Option<Seq<char>>,
}

pub open spec fn opt_text(o: Option<String>) -> Option<Seq<char>> {
    match o {
        Some(s) => Some(s@),
        None => None,
    }
}

impl View for PlanDone {
    type V = PlanDoneView;

    open spec fn view(&self) -> PlanDoneView {
        PlanDoneView { has_changes: self.has_changes, plan_file: opt_text(self.plan_file) }
    }
}

/// The background work of one stack run.
#[derive(Debug)]
pub struct StackRunTask {
    pub run_type: StackRunType,
    pub working_dir: Option<String>,
    pub auto_apply: bool,
    pub stage: RunStage,
    /// The plan's outcome, kept while its output is recorded.
    pub plan: Option<PlanDone>,
}

pub struct StackRunTaskView {
    pub run_type: StackRunType,
    pub working_dir: Option<Seq<char>>,
    pub auto_apply: bool,
    pub stage: RunStage,
    pub plan: Option<PlanDoneView>,
}

impl View for StackRunTask {
    type V = StackRunTaskView;

    open spec fn view(&self) -> StackRunTaskView {
        StackRunTaskView {
            run_type: self.run_type,
            working_dir: opt_text(self.working_dir),
            auto_apply: self.auto_apply,
            stage: self.stage,
            plan: match self.plan {
                Some(p) => Some(p@),
                None => None,
            },
        }
    }
}

/// What the last action gave.
#[derive(Debug)]
pub enum RunEvent {
    /// The work begins.
    Begin,
    /// Whether the run could be marked as started.
    StartMarked(bool),
    /// The outcome of `terraform plan`.
    Planned(Result<PlanDone, TerraformError>),
    /// Whether the saved plan file exists.
    PlanFileFound(bool),
    /// The outcome of `terraform apply`.
    Applied(Result<(), TerraformError>),
    /// The outcome of `terraform destroy`.
    Destroyed(Result<(), TerraformError>),
    /// A record or status was written (its outcome is not looked at).
    Written,
}

pub enum RunEventView {
    Begin,
    StartMarked(bool),
    Planned(Result<PlanDoneView, Seq<char>>),
    PlanFileFound(bool),
    Applied(Result<(), Seq<char>>),
    Destroyed(Result<(), Seq<char>>),
    Written,
}

impl View for RunEvent {
    type V = RunEventView;

    open spec fn view(&self) -> RunEventView {
        match self {
            RunEvent::Begin => RunEventView::Begin,
            RunEvent::StartMarked(b) => RunEventView::StartMarked(*b),
            RunEvent::Planned(Ok(p)) => RunEventView::Planned(Ok(p@)),
            RunEvent::Planned(Err(e)) => RunEventView::Planned(Err(terraform_error_text(*e))),
            RunEvent::PlanFileFound(b) => RunEventView::PlanFileFound(*b),
            RunEvent::Applied(Ok(())) => RunEventView::Applied(Ok(())),
            RunEvent::Applied(Err(e)) => RunEventView::Applied(Err(terraform_error_text(*e))),
            RunEvent::Destroyed(Ok(())) => RunEventView::Destroyed(Ok(())),
            RunEvent::Destroyed(Err(e)) => RunEventView::Destroyed(Err(terraform_error_text(*e))),
            RunEvent::Written => RunEventView::Written,
        }
    }
}

/// What to do next.
#[derive(Debug)]
pub enum RunAction {
    /// Mark the run as started.
    MarkStarted,
    /// Write the run's status.
    SetStatus { status: StackRunStatus },
    /// Look whether a saved plan file exists.
    CheckPlanFile { path: String },
    /// Run `terraform plan` in the directory.
    Plan { working_dir: String },
    /// Record the plan's output and change counts.
    RecordPlan,
    /// Run `terraform apply` of a saved plan.
    Apply { working_dir: String, plan_file: String },
    /// Run `terraform destroy` in the directory.
    Destroy { working_dir: String },
    /// Record the output of apply or destroy.
    RecordOutput,
    /// Write the run's final status and error.
    Finish { status: StackRunStatus, error: Option<String> },
    /// Stop.
    Stop,
}

pub enum RunActionView {
    MarkStarted,
    SetStatus(StackRunStatus),
    CheckPlanFile(Seq<char>),
    Plan(Seq<char>),
    RecordPlan,
    Apply(Seq<char>, Seq<char>),
    Destroy(Seq<char>),
    RecordOutput,
    Finish(StackRunStatus, Option<Seq<char>>),
    Stop,
}

impl View for RunAction {
    type V = RunActionView;

    open spec fn view(&self) -> RunActionView {
        match self {
            RunAction::MarkStarted => RunActionView::MarkStarted,
            RunAction::SetStatus { status } => RunActionView::SetStatus(*status),
            RunAction::CheckPlanFile { path } => RunActionView::CheckPlanFile(path@),
            RunAction::Plan { working_dir } => RunActionView::Plan(working_dir@),
            RunAction::RecordPlan => RunActionView::RecordPlan,
            RunAction::Apply { working_dir, plan_file } => RunActionView::Apply(working_dir@, plan_file@),
            RunAction::Destroy { working_dir } => RunActionView::Destroy(working_dir@),
            RunAction::RecordOutput => RunActionView::RecordOutput,
            RunAction::Finish { status, error } => RunActionView::Finish(*status, opt_text(*error)),
            RunAction::Stop => RunActionView::Stop,
        }
    }
}

/// The task moved to another stage.
pub open spec fn at(t: StackRunTaskView, stage: RunStage) -> StackRunTaskView {
    StackRunTaskView {
        run_type: t.run_type,
        working_dir: t.working_dir,
        auto_apply: t.auto_apply,
        stage,
        plan: t.plan,
    }
}

/// Writing the final status.
pub open spec fn finish(t: StackRunTaskView, status: StackRunStatus, error: Option<Seq<char>>) -> (
    StackRunTaskView,
    RunActionView,
) {
    (at(t, RunStage::Finishing), RunActionView::Finish(status, error))
}

pub open spec fn dir_of(t: StackRunTaskView) -> Seq<char> {
    match t.working_dir {
        Some(d) => d,
        None => Seq::empty(),
    }
}

/// The plan file that `terraform plan` saves in a directory.
pub open spec fn saved_plan(dir: Seq<char>) -> Seq<char> {
    join_path(dir, "tfplan"@)
}

/// What follows a recorded plan: approval where there are changes and no
/// auto-apply, the automatic apply where there are changes and auto-apply,
/// success where there are none.
pub open spec fn after_plan_recorded(t: StackRunTaskView, p: PlanDoneView) -> (
    StackRunTaskView,
    RunActionView,
) {
    if p.has_changes && !t.auto_apply {
        finish(t, StackRunStatus::NeedsApproval, None)
    } else if p.has_changes {
        match p.plan_file {
            Some(f) => (at(t, RunStage::Applying { auto: true }), RunActionView::Apply(dir_of(t), f)),
            None => finish(t, StackRunStatus::Succeeded, None),
        }
    } else {
        finish(t, StackRunStatus::Succeeded, None)
    }
}

/// One step of a stack run's background work: the next stage and action
/// for the outcome of the last action. An outcome that does not belong to
/// the stage ends the work.
pub open spec fn run_step(t: StackRunTaskView, e: RunEventView) -> (StackRunTaskView, RunActionView) {
    match (t.stage, e) {
        (RunStage::Start, RunEventView::Begin) => (at(t, RunStage::MarkingStarted), RunActionView::MarkStarted),
        (RunStage::ApprovalStart, RunEventView::Begin) => match t.working_dir {
            Some(_) => (
                at(t, RunStage::SettingApplying),
                RunActionView::SetStatus(StackRunStatus::Applying),
            ),
            None => (at(t, RunStage::Done), RunActionView::Stop),
        },
        (RunStage::MarkingStarted, RunEventView::StartMarked(ok)) => if !ok {
            (at(t, RunStage::Done), RunActionView::Stop)
        } else {
            match t.working_dir {
                None => finish(t, StackRunStatus::Failed, Some("Stack has no working directory"@)),
                Some(d) => match t.run_type {
                    StackRunType::Plan => (at(t, RunStage::Planning), RunActionView::Plan(d)),
                    StackRunType::Apply => (at(t, RunStage::Planning), RunActionView::Plan(d)),
                    StackRunType::Destroy => (at(t, RunStage::Destroying), RunActionView::Destroy(d)),
                    StackRunType::Refresh => finish(t, StackRunStatus::Succeeded, None),
                },
            }
        },
        (RunStage::SettingApplying, RunEventView::Written) => (
            at(t, RunStage::CheckingPlanFile),
            RunActionView::CheckPlanFile(saved_plan(dir_of(t))),
        ),
        (RunStage::CheckingPlanFile, RunEventView::PlanFileFound(found)) => if found {
            (
                at(t, RunStage::Applying { auto: false }),
                RunActionView::Apply(dir_of(t), saved_plan(dir_of(t))),
            )
        } else {
            finish(
                t,
                StackRunStatus::Failed,
                Some("Plan file not found - please run a new plan"@),
            )
        },
        (RunStage::Planning, RunEventView::Planned(Err(m))) => finish(t, StackRunStatus::Failed, Some(m)),
        (RunStage::Planning, RunEventView::Planned(Ok(p))) => if t.run_type == StackRunType::Plan {
            (
                StackRunTaskView {
                    run_type: t.run_type,
                    working_dir: t.working_dir,
                    auto_apply: t.auto_apply,
                    stage: RunStage::RecordingPlan,
                    plan: Some(p),
                },
                RunActionView::RecordPlan,
            )
        } else {
            match p.plan_file {
                Some(f) => (at(t, RunStage::Applying { auto: false }), RunActionView::Apply(dir_of(t), f)),
                None => finish(t, StackRunStatus::Succeeded, None),
            }
        },
        (RunStage::RecordingPlan, RunEventView::Written) => match t.plan {
            Some(p) => after_plan_recorded(t, p),
            None => (at(t, RunStage::Done), RunActionView::Stop),
        },
        (RunStage::Applying { auto }, RunEventView::Applied(r)) => match r {
            Ok(_) => (at(t, RunStage::RecordingOutput), RunActionView::RecordOutput),
            Err(m) => finish(
                t,
                StackRunStatus::Failed,
                if auto {
                    None
                } else {
                    Some(m)
                },
            ),
        },
        (RunStage::Destroying, RunEventView::Destroyed(r)) => match r {
            Ok(_) => (at(t, RunStage::RecordingOutput), RunActionView::RecordOutput),
            Err(m) => finish(t, StackRunStatus::Failed, Some(m)),
        },
        (RunStage::RecordingOutput, RunEventView::Written) => finish(t, StackRunStatus::Succeeded, None),
        (RunStage::Finishing, RunEventView::Written) => (at(t, RunStage::Done), RunActionView::Stop),
        _ => (at(t, RunStage::Done), RunActionView::Stop),
    }
}

/// How far a stage is from the end of the work.
pub open spec fn run_rank(s: RunStage) -> nat {
    match s {
        RunStage::ApprovalStart => 9,
        RunStage::Start => 8,
        RunStage::MarkingStarted => 7,
        RunStage::SettingApplying => 7,
        RunStage::CheckingPlanFile => 6,
        RunStage::Planning => 6,
        RunStage::RecordingPlan => 5,
        RunStage::Applying { .. } => 4,
        RunStage::Destroying => 4,
        RunStage::RecordingOutput => 3,
        RunStage::Finishing => 2,
        RunStage::Done => 0,
    }
}

impl StackRunTask {
    /// The stages that work in a directory have one; a plan being recorded
    /// is kept.
    pub open spec fn wf(&self) -> bool {
        &&& (match self.stage {
            RunStage::SettingApplying | RunStage::CheckingPlanFile | RunStage::Planning
            | RunStage::RecordingPlan | RunStage::Applying { .. } | RunStage::Destroying => self.working_dir
                is Some,
            _ => true,
        })
        &&& (self.stage == RunStage::RecordingPlan ==> self.plan is Some)
    }

    /// The work of a triggered run.
    pub fn triggered(run_type: StackRunType, working_dir: Option<String>, auto_apply: bool) -> (r: Self)
        ensures
            r.wf(),
            r.run_type == run_type,
            r.working_dir == working_dir,
            r.auto_apply == auto_apply,
            r.stage == RunStage::Start,
            r.plan is None,
    {
        StackRunTask { run_type, working_dir, auto_apply, stage: RunStage::Start, plan: None }
    }

    /// The work of an approved run: it applies the saved plan.
    pub fn approved(working_dir: Option<String>) -> (r: Self)
        ensures
            r.wf(),
            r.run_type == StackRunType::Apply,
            r.working_dir == working_dir,
            !r.auto_apply,
            r.stage == RunStage::ApprovalStart,
            r.plan is None,
    {
        StackRunTask {
            run_type: StackRunType::Apply,
            working_dir,
            auto_apply: false,
            stage: RunStage::ApprovalStart,
            plan: None,
        }
    }

    fn moved(self, stage: RunStage) -> (r: Self)
        ensures
            r@ == at(self@, stage),
    {
        StackRunTask {
            run_type: self.run_type,
            working_dir: self.working_dir,
            auto_apply: self.auto_apply,
            stage,
            plan: self.plan,
        }
    }

    fn finished(self, status: StackRunStatus, error: Option<String>) -> (r: (Self, RunAction))
        ensures
            r.0@ == finish(self@, status, opt_text(error)).0,
            r.1@ == finish(self@, status, opt_text(error)).1,
            r.0.stage == RunStage::Finishing,
    {
        (self.moved(RunStage::Finishing), RunAction::Finish { status, error })
    }

    /// One step of the work: the task after the outcome `event` of the last
    /// action, and the next action.
    pub fn step(self, event: RunEvent) -> (r: (Self, RunAction))
        requires
            self.wf(),
        ensures
            r.0.wf(),
            r.0@ == run_step(self@, event@).0,
            r.1@ == run_step(self@, event@).1,
    {
        let ghost t = self@;
        let ghost e = event@;
        let dir: Option<String> = match &self.working_dir {
            Some(d) => Some(d.clone()),
            None => None,
        };
        match (self.stage, event) {
            (RunStage::Start, RunEvent::Begin) => (self.moved(RunStage::MarkingStarted), RunAction::MarkStarted),
            (RunStage::ApprovalStart, RunEvent::Begin) => match dir {
                Some(_) => (
                    self.moved(RunStage::SettingApplying),
                    RunAction::SetStatus { status: StackRunStatus::Applying },
                ),
                None => (self.moved(RunStage::Done), RunAction::Stop),
            },
            (RunStage::MarkingStarted, RunEvent::StartMarked(ok)) => {
                if !ok {
                    return (self.moved(RunStage::Done), RunAction::Stop);
                }
                match dir {
                    None => self.finished(StackRunStatus::Failed, Some(owned("Stack has no working directory"))),
                    Some(d) => match self.run_type {
                        StackRunType::Plan | StackRunType::Apply => (
                            self.moved(RunStage::Planning),
                            RunAction::Plan { working_dir: d },
                        ),
                        StackRunType::Destroy => (
                            self.moved(RunStage::Destroying),
                            RunAction::Destroy { working_dir: d },
                        ),
                        StackRunType::Refresh => self.finished(StackRunStatus::Succeeded, None),
                    },
                }
            },
            (RunStage::SettingApplying, RunEvent::Written) => {
                let d = dir.unwrap();
                let path = plan_path(d.as_str());
                (self.moved(RunStage::CheckingPlanFile), RunAction::CheckPlanFile { path })
            },
            (RunStage::CheckingPlanFile, RunEvent::PlanFileFound(found)) => {
                let d = dir.unwrap();
                if found {
                    let plan_file = plan_path(d.as_str());
                    (
                        self.moved(RunStage::Applying { auto: false }),
                        RunAction::Apply { working_dir: d, plan_file },
                    )
                } else {
                    self.finished(
                        StackRunStatus::Failed,
                        Some(owned("Plan file not found - please run a new plan")),
                    )
                }
            },
            (RunStage::Planning, RunEvent::Planned(Err(e))) => {
                let m = e.message();
                self.finished(StackRunStatus::Failed, Some(m))
            },
            (RunStage::Planning, RunEvent::Planned(Ok(p))) => {
                if self.run_type == StackRunType::Plan {
                    let task = StackRunTask {
                        run_type: self.run_type,
                        working_dir: self.working_dir,
                        auto_apply: self.auto_apply,
                        stage: RunStage::RecordingPlan,
                        plan: Some(p),
                    };
                    (task, RunAction::RecordPlan)
                } else {
                    match p.plan_file {
                        Some(f) => {
                            let d = dir.unwrap();
                            (
                                self.moved(RunStage::Applying { auto: false }),
                                RunAction::Apply { working_dir: d, plan_file: f },
                            )
                        },
                        None => self.finished(StackRunStatus::Succeeded, None),
                    }
                }
            },
            (RunStage::RecordingPlan, RunEvent::Written) => {
                let (has_changes, plan_file) = match &self.plan {
                    Some(p) => (
                        p.has_changes,
                        match &p.plan_file {
                            Some(f) => Some(f.clone()),
                            None => None,
                        },
                    ),
                    None => {
                        return (self.moved(RunStage::Done), RunAction::Stop);
                    },
                };
                if has_changes && !self.auto_apply {
                    self.finished(StackRunStatus::NeedsApproval, None)
                } else if has_changes {
                    match plan_file {
                        Some(f) => {
                            let d = dir.unwrap();
                            (
                                self.moved(RunStage::Applying { auto: true }),
                                RunAction::Apply { working_dir: d, plan_file: f },
                            )
                        },
                        None => self.finished(StackRunStatus::Succeeded, None),
                    }
                } else {
                    self.finished(StackRunStatus::Succeeded, None)
                }
            },
            (RunStage::Applying { auto }, RunEvent::Applied(r)) => match r {
                Ok(_) => (self.moved(RunStage::RecordingOutput), RunAction::RecordOutput),
                Err(e) => {
                    if auto {
                        self.finished(StackRunStatus::Failed, None)
                    } else {
                        let m = e.message();
                        self.finished(StackRunStatus::Failed, Some(m))
                    }
                },
            },
            (RunStage::Destroying, RunEvent::Destroyed(r)) => match r {
                Ok(_) => (self.moved(RunStage::RecordingOutput), RunAction::RecordOutput),
                Err(e) => {
                    let m = e.message();
                    self.finished(StackRunStatus::Failed, Some(m))
                },
            },
            (RunStage::RecordingOutput, RunEvent::Written) => self.finished(StackRunStatus::Succeeded, None),
            (RunStage::Finishing, RunEvent::Written) => (self.moved(RunStage::Done), RunAction::Stop),
            _ => (self.moved(RunStage::Done), RunAction::Stop),
        }
    }
}

/// The saved plan file of a working directory.
fn plan_path(dir: &str) -> (r: String)
    ensures
        r@ == saved_plan(dir@),
{
    let mut out = chars_of(dir);
    if out.len() > 0 && out[out.len() - 1] != '/' {
        out.push('/');
    }
    append_str(&mut out, "tfplan");
    proof {
        reveal_strlit("/");
    }
    string_of(out.as_slice())
}

/// Every step of a run's work that does not start from the end moves it
/// closer to the end, so the work always finishes; once done, it stays done
/// and does nothing.
pub proof fn lemma_run_step_progress(t: StackRunTaskView, e: RunEventView)
    ensures
        t.stage != RunStage::Done ==> run_rank(run_step(t, e).0.stage) < run_rank(t.stage),
        t.stage == RunStage::Done ==> run_step(t, e).0.stage == RunStage::Done && run_step(t, e).1
            == RunActionView::Stop,
{
}

/// The final status is written exactly when the work enters its finishing
/// stage, and the work ends only after that write or where the run could
/// not be started.
pub proof fn lemma_run_step_finishes(t: StackRunTaskView, e: RunEventView)
    ensures
        run_step(t, e).1 is Finish <==> (run_step(t, e).0.stage == RunStage::Finishing),
        run_step(t, e).0.stage == RunStage::Finishing ==> t.stage != RunStage::Finishing,
{
}

/// The settings a new stack gets where the request leaves them out: the
/// repository root as its path, Terraform 1.5.0, no auto-apply.
pub fn stack_settings(path: Option<String>, terraform_version: Option<String>, auto_apply: Option<bool>) -> (r: (
    String,
    String,
    bool,
))
    ensures
        r.0@ == match path {
            Some(p) => p@,
            None => "."@,
        },
        r.1@ == match terraform_version {
            Some(v) => v@,
            None => "1.5.0"@,
        },
        r.2 == (auto_apply == Some(true)),
{
    let p = match path {
        Some(p) => p,
        None => owned("."),
    };
    let v = match terraform_version {
        Some(v) => v,
        None => owned("1.5.0"),
    };
    let a = match auto_apply {
        Some(b) => b,
        None => false,
    };
    (p, v, a)
}

/// `PathBuf::join`: an absolute name replaces the directory, a relative one
/// is put under it.
pub open spec fn path_join(dir: Seq<char>, name: Seq<char>) -> Seq<char> {
    if name.len() > 0 && name[0] == '/' {
        name
    } else {
        join_path(dir, name)
    }
}

/// Joins a path onto a directory as `PathBuf::join` does.
pub fn join_paths(dir: &str, name: &str) -> (r: String)
    ensures
        r@ == path_join(dir@, name@),
{
    let n = chars_of(name);
    if n.len() > 0 && n[0] == '/' {
        return owned(name);
    }
    let mut out = chars_of(dir);
    if out.len() > 0 && out[out.len() - 1] != '/' {
        out.push('/');
    }
    append_str(&mut out, name);
    proof {
        reveal_strlit("/");
    }
    string_of(out.as_slice())
}

/// Where the set-up of a new stack stands.
#[derive(Debug, Clone, Copy, PartialEq, Eq, Structural)]
pub enum SetupStage {
    /// Nothing done yet.
    Start,
    /// Waiting for the repository to be cloned.
    Cloning,
    /// Waiting for the working directory to be saved.
    SavingDir,
    /// Waiting for `terraform init`.
    Initializing,
    /// Waiting for the stack's status to be written.
    SettingStatus,
    /// Nothing more to do.
    Done,
}

/// The set-up of a stack linked to a repository: clone it, save the
/// working directory, run `terraform init`, record the outcome.
#[derive(Debug)]
pub struct StackSetup {
    pub clone_url: String,
    /// The stack's path inside the repository.
    pub path: String,
    pub working_dir: Option<String>,
    pub stage: SetupStage,
}

pub struct StackSetupView {
    pub clone_url: Seq<char>,
    pub path: Seq<char>,
    pub working_dir: Option<Seq<char>>,
    pub stage: SetupStage,
}

impl View for StackSetup {
    type V = StackSetupView;

    open spec fn view(&self) -> StackSetupView {
        StackSetupView {
            clone_url: self.clone_url@,
            path: self.path@,
            working_dir: opt_text(self.working_dir),
            stage: self.stage,
        }
    }
}

/// What the last set-up action gave.
#[derive(Debug)]
pub enum SetupEvent {
    Begin,
    /// The local directory of the clone, or `None` where cloning failed.
    Cloned(Option<String>),
    /// Whether the working directory could be saved.
    DirSaved(bool),
    /// Whether `terraform init` succeeded.
    Initialized(bool),
    /// The status was written.
    Written,
}

pub enum SetupEventView {
    Begin,
    Cloned(Option<Seq<char>>),
    DirSaved(bool),
    Initialized(bool),
    Written,
}

impl View for SetupEvent {
    type V = SetupEventView;

    open spec fn view(&self) -> SetupEventView {
        match self {
            SetupEvent::Begin => SetupEventView::Begin,
            SetupEvent::Cloned(o) => SetupEventView::Cloned(opt_text(*o)),
            SetupEvent::DirSaved(b) => SetupEventView::DirSaved(*b),
            SetupEvent::Initialized(b) => SetupEventView::Initialized(*b),
            SetupEvent::Written => SetupEventView::Written,
        }
    }
}

/// The next set-up action.
#[derive(Debug)]
pub enum SetupAction {
    Clone { url: String },
    SaveWorkingDir { dir: String },
    Init { dir: String },
    SetStatus { status: StackStatus },
    Stop,
}

pub enum SetupActionView {
    Clone(Seq<char>),
    SaveWorkingDir(Seq<char>),
    Init(Seq<char>),
    SetStatus(StackStatus),
    Stop,
}

impl View for SetupAction {
    type V = SetupActionView;

    open spec fn view(&self) -> SetupActionView {
        match self {
            SetupAction::Clone { url } => SetupActionView::Clone(url@),
            SetupAction::SaveWorkingDir { dir } => SetupActionView::SaveWorkingDir(dir@),
            SetupAction::Init { dir } => SetupActionView::Init(dir@),
            SetupAction::SetStatus { status } => SetupActionView::SetStatus(*status),
            SetupAction::Stop => SetupActionView::Stop,
        }
    }
}

pub open spec fn setup_at(t: StackSetupView, stage: SetupStage) -> StackSetupView {
    StackSetupView { clone_url: t.clone_url, path: t.path, working_dir: t.working_dir, stage }
}

/// One step of a stack's set-up. An outcome that does not belong to the
/// stage ends it.
pub open spec fn setup_step(t: StackSetupView, e: SetupEventView) -> (StackSetupView, SetupActionView) {
    match (t.stage, e) {
        (SetupStage::Start, SetupEventView::Begin) => (
            setup_at(t, SetupStage::Cloning),
            SetupActionView::Clone(t.clone_url),
        ),
        (SetupStage::Cloning, SetupEventView::Cloned(Some(repo))) => (
            StackSetupView {
                clone_url: t.clone_url,
                path: t.path,
                working_dir: Some(path_join(repo, t.path)),
                stage: SetupStage::SavingDir,
            },
            SetupActionView::SaveWorkingDir(path_join(repo, t.path)),
        ),
        (SetupStage::Cloning, SetupEventView::Cloned(None)) => (
            setup_at(t, SetupStage::SettingStatus),
            SetupActionView::SetStatus(StackStatus::Error),
        ),
        (SetupStage::SavingDir, SetupEventView::DirSaved(ok)) => if ok {
            (
                setup_at(t, SetupStage::Initializing),
                SetupActionView::Init(
                    match t.working_dir {
                        Some(d) => d,
                        None => Seq::empty(),
                    },
                ),
            )
        } else {
            (setup_at(t, SetupStage::Done), SetupActionView::Stop)
        },
        (SetupStage::Initializing, SetupEventView::Initialized(ok)) => (
            setup_at(t, SetupStage::SettingStatus),
            SetupActionView::SetStatus(
                if ok {
                    StackStatus::Ready
                } else {
                    StackStatus::Error
                },
            ),
        ),
        (SetupStage::SettingStatus, SetupEventView::Written) => (
            setup_at(t, SetupStage::Done),
            SetupActionView::Stop,
        ),
        _ => (setup_at(t, SetupStage::Done), SetupActionView::Stop),
    }
}

impl StackSetup {
    /// The stages after cloning know the working directory.
    pub open spec fn wf(&self) -> bool {
        (self.stage == SetupStage::SavingDir || self.stage == SetupStage::Initializing) ==> self.working_dir
            is Some
    }

    /// The set-up of a stack at `path` inside the repository at `clone_url`.
    pub fn new(clone_url: String, path: String) -> (r: Self)
        ensures
            r.wf(),
            r@ == (StackSetupView {
                clone_url: clone_url@,
                path: path@,
                working_dir: None,
                stage: SetupStage::Start,
            }),
    {
        StackSetup { clone_url, path, working_dir: None, stage: SetupStage::Start }
    }

    fn moved(self, stage: SetupStage) -> (r: Self)
        ensures
            r@ == setup_at(self@, stage),
    {
        StackSetup { clone_url: self.clone_url, path: self.path, working_dir: self.working_dir, stage }
    }

    /// One step of the set-up: the set-up after the outcome `event` of the
    /// last action, and the next action.
    pub fn step(self, event: SetupEvent) -> (r: (Self, SetupAction))
        requires
            self.wf(),
        ensures
            r.0.wf(),
            r.0@ == setup_step(self@, event@).0,
            r.1@ == setup_step(self@, event@).1,
    {
        match (self.stage, event) {
            (SetupStage::Start, SetupEvent::Begin) => {
                let url = self.clone_url.clone();
                (self.moved(SetupStage::Cloning), SetupAction::Clone { url })
            },
            (SetupStage::Cloning, SetupEvent::Cloned(Some(repo))) => {
                let dir = join_paths(repo.as_str(), self.path.as_str());
                let d2 = dir.clone();
                (
                    StackSetup {
                        clone_url: self.clone_url,
                        path: self.path,
                        working_dir: Some(dir),
                        stage: SetupStage::SavingDir,
                    },
                    SetupAction::SaveWorkingDir { dir: d2 },
                )
            },
            (SetupStage::Cloning, SetupEvent::Cloned(None)) => (
                self.moved(SetupStage::SettingStatus),
                SetupAction::SetStatus { status: StackStatus::Error },
            ),
            (SetupStage::SavingDir, SetupEvent::DirSaved(ok)) => {
                if ok {
                    let dir = match &self.working_dir {
                        Some(d) => d.clone(),
                        None => owned(""),
                    };
                    (self.moved(SetupStage::Initializing), SetupAction::Init { dir })
                } else {
                    (self.moved(SetupStage::Done), SetupAction::Stop)
                }
            },
            (SetupStage::Initializing, SetupEvent::Initialized(ok)) => {
                let status = if ok {
                    StackStatus::Ready
                } else {
                    StackStatus::Error
                };
                (self.moved(SetupStage::SettingStatus), SetupAction::SetStatus { status })
            },
            (SetupStage::SettingStatus, SetupEvent::Written) => (
                self.moved(SetupStage::Done),
                SetupAction::Stop,
            ),
            _ => (self.moved(SetupStage::Done), SetupAction::Stop),
        }
    }
}

} // verus!
