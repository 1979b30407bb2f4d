//! Starting a pipeline run by hand, as a state machine: create the run
//! record, load the pipeline and read its stages, answer the request, and,
//! where an orchestrator can execute pipelines, mark the run running,
//! execute it and write its final status. The caller performs each action
//! (the database, the orchestrator, the reply) and hands back what came of
//! it.
use vstd::prelude::*;
use crate::errors::{error_view, ApiError};
use crate::json::JsonValue;
use crate::pipeline::finished_run_status;
use crate::stack_flow::opt_text;
use crate::strmap::StrMap;
use crate::text::{append_str, chars_of, owned, string_of};
use crate::webhooks::{manual_git_info, manual_trigger_info, str_member, text_or_empty};

verus! {

/// Where a manually started run stands.
#[derive(Debug, Clone, Copy, PartialEq, Eq, Structural)]
pub enum TriggerStage {
    /// Nothing done yet.
    Start,
    /// Waiting for the run record to be created.
    CreatingRun,
    /// Waiting for the pipeline to be loaded.
    LoadingPipeline,
    /// Waiting for the pipeline's stages to be read from its configuration.
    ReadingStages,
    /// Waiting for the answer to be sent.
    Answering,
    /// Waiting for the run to be marked running.
    MarkingRunning,
    /// Waiting for the pipeline to execute.
    Executing,
    /// Waiting for the final status to be written.
    MarkingFinished,
    /// Nothing more to do.
    Done,
}

/// A run record as created: its id and number.
#[derive(Debug)]
pub struct CreatedRun {
    pub id: String,
    pub number: i64,
}

/// A manually started run: the branch and commit asked for, whether an
/// orchestrator can execute it, where it stands, and its record once made.
#[derive(Debug)]
pub struct ManualRun {
    pub branch: Option<String>,
    pub sha: Option<String>,
    pub can_execute: bool,
    pub stage: TriggerStage,
    pub run: Option<CreatedRun>,
}

/// What came of the last action.
#[derive(Debug)]
pub enum TriggerEvent {
    /// The request came in.
    Begin,
    RunCreated(Result<CreatedRun, ApiError>),
    PipelineLoaded(Result<(), ApiError>),
    /// The stages were read, or the reader's message why not.
    StagesRead(Result<(), String>),
    Answered,
    /// Whether the status was written.
    StatusMarked(bool),
    /// Whether the pipeline succeeded.
    Executed(bool),
}

/// The answer to a request that started a run.
#[derive(Debug)]
pub struct RunAnswer {
    pub id: String,
    pub number: i64,
    pub status: String,
}

/// What to do next.
#[derive(Debug)]
pub enum TriggerAction {
    /// Create the run record with these trigger and git records.
    CreateRun { trigger_info: JsonValue, git_info: JsonValue },
    LoadPipeline,
    ReadStages,
    /// Answer the request.
    Answer(Result<RunAnswer, ApiError>),
    /// Write the run's status.
    MarkStatus(String),
    /// Execute the pipeline with this environment.
    Execute(StrMap),
    Stop,
}

pub struct ManualRunView {
    pub branch: Option<Seq<char>>,
    pub sha: Option<Seq<char>>,
    pub can_execute: bool,
    pub stage: TriggerStage,
    pub run: Option<(Seq<char>, i64)>,
}

pub enum TriggerEventView {
    Begin,
    RunCreated(Result<(Seq<char>, i64), (u16, Seq<char>)>),
    PipelineLoaded(Result<(), (u16, Seq<char>)>),
    StagesRead(Result<(), Seq<char>>),
    Answered,
    StatusMarked(bool),
    Executed(bool),
}

pub enum TriggerActionView {
    CreateRun { branch: Seq<char>, sha: Seq<char> },
    LoadPipeline,
    ReadStages,
    Answer(Result<(Seq<char>, i64, Seq<char>), (u16, Seq<char>)>),
    MarkStatus(Seq<char>),
    Execute(Map<Seq<char>, Seq<char>>),
    Stop,
}

pub open spec fn created_view(r: CreatedRun) -> (Seq<char>, i64) {
    (r.id@, r.number)
}

impl View for ManualRun {
    type V = ManualRunView;

    open spec fn view(&self) -> ManualRunView {
        ManualRunView {
            branch: opt_text(self.branch),
            sha: opt_text(self.sha),
            can_execute: self.can_execute,
            stage: self.stage,
            run: match self.run {
                Some(r) => Some(created_view(r)),
                None => None,
            },
        }
    }
}

impl View for TriggerEvent {
    type V = TriggerEventView;

    open spec fn view(&self) -> TriggerEventView {
        match self {
            TriggerEvent::Begin => TriggerEventView::Begin,
            TriggerEvent::RunCreated(r) => TriggerEventView::RunCreated(
                match r {
                    Ok(c) => Ok(created_view(*c)),
                    Err(e) => Err(error_view(*e)),
                },
            ),
            TriggerEvent::PipelineLoaded(r) => TriggerEventView::PipelineLoaded(
                match r {
                    Ok(_) => Ok(()),
                    Err(e) => Err(error_view(*e)),
                },
            ),
            TriggerEvent::StagesRead(r) => TriggerEventView::StagesRead(
                match r {
                    Ok(_) => Ok(()),
                    Err(m) => Err(m@),
                },
            ),
            TriggerEvent::Answered => TriggerEventView::Answered,
            TriggerEvent::StatusMarked(b) => TriggerEventView::StatusMarked(*b),
            TriggerEvent::Executed(b) => TriggerEventView::Executed(*b),
        }
    }
}

impl View for TriggerAction {
    type V = TriggerActionView;

    open spec fn view(&self) -> TriggerActionView {
        match self {
            TriggerAction::CreateRun { trigger_info, git_info } => TriggerActionView::CreateRun {
                branch: git_branch_of(*git_info),
                sha: git_sha_of(*git_info),
            },
            TriggerAction::LoadPipeline => TriggerActionView::LoadPipeline,
            TriggerAction::ReadStages => TriggerActionView::ReadStages,
            TriggerAction::Answer(r) => TriggerActionView::Answer(
                match r {
                    Ok(a) => Ok((a.id@, a.number, a.status@)),
                    Err(e) => Err(error_view(*e)),
                },
            ),
            TriggerAction::MarkStatus(s) => TriggerActionView::MarkStatus(s@),
            TriggerAction::Execute(env) => TriggerActionView::Execute(env@),
            TriggerAction::Stop => TriggerActionView::Stop,
        }
    }
}

/// The text of member `i` of an object, where it is a string.
pub open spec fn member_text(v: JsonValue, i: int) -> Seq<char> {
    match v {
        JsonValue::Object(ms) => match ms@[i].1 {
            JsonValue::String(s) => s@,
            _ => Seq::empty(),
        },
        _ => Seq::empty(),
    }
}

pub open spec fn git_branch_of(g: JsonValue) -> Seq<char> {
    member_text(g, 0)
}

pub open spec fn git_sha_of(g: JsonValue) -> Seq<char> {
    member_text(g, 1)
}

/// The records a manual run is created with: trigger kind `manual`, and the
/// branch and commit asked for with an empty short hash, message and author.
pub open spec fn manual_records(t: JsonValue, g: JsonValue, branch: Seq<char>, sha: Seq<char>) -> bool {
    &&& t is Object
    &&& t->Object_0.len() == 1
    &&& str_member(t->Object_0@[0], "kind"@, "manual"@)
    &&& g is Object
    &&& g->Object_0.len() == 5
    &&& str_member(g->Object_0@[0], "branch"@, branch)
    &&& str_member(g->Object_0@[1], "sha"@, sha)
    &&& str_member(g->Object_0@[2], "short_sha"@, Seq::<char>::empty())
    &&& str_member(g->Object_0@[3], "message"@, Seq::<char>::empty())
    &&& str_member(g->Object_0@[4], "author"@, Seq::<char>::empty())
}

pub open spec fn opt_or_empty(o: Option<Seq<char>>) -> Seq<char> {
    match o {
        Some(s) => s,
        None => Seq::empty(),
    }
}

/// The environment a pipeline is executed with: `CI` and `BUILDIT`, both
/// `true`.
pub open spec fn run_env() -> Map<Seq<char>, Seq<char>> {
    Map::empty().insert("CI"@, "true"@).insert("BUILDIT"@, "true"@)
}

pub open spec fn moved_to(t: ManualRunView, stage: TriggerStage) -> ManualRunView {
    ManualRunView { stage, ..t }
}

/// One step of a manual run: where it stands after the outcome `e` of the
/// last action, and the next action. A failure before the answer is the
/// answer (a stages configuration that cannot be read is an internal error
/// saying so); the answer to a started run is its id and number with status
/// `pending`; after it, a run that can execute is marked running, executed
/// (unless that mark failed) and marked `succeeded` or `failed`.
pub open spec fn trigger_step(t: ManualRunView, e: TriggerEventView) -> (ManualRunView, TriggerActionView) {
    match (t.stage, e) {
        (TriggerStage::Start, TriggerEventView::Begin) => (
            moved_to(t, TriggerStage::CreatingRun),
            TriggerActionView::CreateRun { branch: opt_or_empty(t.branch), sha: opt_or_empty(t.sha) },
        ),
        (TriggerStage::CreatingRun, TriggerEventView::RunCreated(Ok(r))) => (
            ManualRunView { stage: TriggerStage::LoadingPipeline, run: Some(r), ..t },
            TriggerActionView::LoadPipeline,
        ),
        (TriggerStage::CreatingRun, TriggerEventView::RunCreated(Err(x))) => (
            moved_to(t, TriggerStage::Done),
            TriggerActionView::Answer(Err(x)),
        ),
        (TriggerStage::LoadingPipeline, TriggerEventView::PipelineLoaded(Ok(_))) => (
            moved_to(t, TriggerStage::ReadingStages),
            TriggerActionView::ReadStages,
        ),
        (TriggerStage::LoadingPipeline, TriggerEventView::PipelineLoaded(Err(x))) => (
            moved_to(t, TriggerStage::Done),
            TriggerActionView::Answer(Err(x)),
        ),
        (TriggerStage::ReadingStages, TriggerEventView::StagesRead(Err(m))) => (
            moved_to(t, TriggerStage::Done),
            TriggerActionView::Answer(Err((500, "Invalid stages config: "@ + m))),
        ),
        (TriggerStage::ReadingStages, TriggerEventView::StagesRead(Ok(_))) => match t.run {
            Some(r) => (
                moved_to(t, TriggerStage::Answering),
                TriggerActionView::Answer(Ok((r.0, r.1, "pending"@))),
            ),
            None => (moved_to(t, TriggerStage::Done), TriggerActionView::Stop),
        },
        (TriggerStage::Answering, TriggerEventView::Answered) => if t.can_execute {
            (moved_to(t, TriggerStage::MarkingRunning), TriggerActionView::MarkStatus("running"@))
        } else {
            (moved_to(t, TriggerStage::Done), TriggerActionView::Stop)
        },
        (TriggerStage::MarkingRunning, TriggerEventView::StatusMarked(ok)) => if ok {
            (moved_to(t, TriggerStage::Executing), TriggerActionView::Execute(run_env()))
        } else {
            (moved_to(t, TriggerStage::Done), TriggerActionView::Stop)
        },
        (TriggerStage::Executing, TriggerEventView::Executed(success)) => (
            moved_to(t, TriggerStage::MarkingFinished),
            TriggerActionView::MarkStatus(
                if success {
                    "succeeded"@
                } else {
                    "failed"@
                },
            ),
        ),
        (TriggerStage::MarkingFinished, TriggerEventView::StatusMarked(_)) => (
            moved_to(t, TriggerStage::Done),
            TriggerActionView::Stop,
        ),
        _ => (moved_to(t, TriggerStage::Done), TriggerActionView::Stop),
    }
}

fn invalid_stages(m: &str) -> (e: ApiError)
    ensures
        error_view(e) == (500u16, "Invalid stages config: "@ + m@),
{
    let mut out = chars_of("Invalid stages config: ");
    append_str(&mut out, m);
    ApiError::Internal(string_of(out.as_slice()))
}

impl ManualRun {
    /// A run asked for on `branch` at commit `sha`; `can_execute` where an
    /// orchestrator is there to execute it.
    pub fn new(branch: Option<String>, sha: Option<String>, can_execute: bool) -> (r: Self)
        ensures
            r.branch == branch,
            r.sha == sha,
            r.can_execute == can_execute,
            r.stage == TriggerStage::Start,
            r.run is None,
    {
        ManualRun { branch, sha, can_execute, stage: TriggerStage::Start, run: None }
    }

    fn moved(self, stage: TriggerStage) -> (r: Self)
        ensures
            r@ == moved_to(self@, stage),
    {
        ManualRun { branch: self.branch, sha: self.sha, can_execute: self.can_execute, stage, run: self.run }
    }

    /// One step: the run after the outcome `event` of the last action, and
    /// the next action; the records to create a run with are the manual
    /// ones.
    pub fn step(self, event: TriggerEvent) -> (r: (Self, TriggerAction))
        ensures
            r.0@ == trigger_step(self@, event@).0,
            r.1@ == trigger_step(self@, event@).1,
            r.1 matches TriggerAction::CreateRun { trigger_info, git_info } ==> manual_records(
                trigger_info,
                git_info,
                opt_or_empty(self@.branch),
                opt_or_empty(self@.sha),
            ),
    {
        match (self.stage, event) {
            (TriggerStage::Start, TriggerEvent::Begin) => {
                let t = manual_trigger_info();
                let g = {
                    let b: Option<&str> = match &self.branch {
                        Some(x) => Some(x.as_str()),
                        None => None,
                    };
                    let h: Option<&str> = match &self.sha {
                        Some(x) => Some(x.as_str()),
                        None => None,
                    };
                    let g = manual_git_info(b, h);
                    assert(text_or_empty(b) == opt_or_empty(self@.branch));
                    assert(text_or_empty(h) == opt_or_empty(self@.sha));
                    g
                };
                (self.moved(TriggerStage::CreatingRun), TriggerAction::CreateRun { trigger_info: t, git_info: g })
            },
            (TriggerStage::CreatingRun, TriggerEvent::RunCreated(Ok(run))) => (
                ManualRun {
                    branch: self.branch,
                    sha: self.sha,
                    can_execute: self.can_execute,
                    stage: TriggerStage::LoadingPipeline,
                    run: Some(run),
                },
                TriggerAction::LoadPipeline,
            ),
            (TriggerStage::CreatingRun, TriggerEvent::RunCreated(Err(x))) => (
                self.moved(TriggerStage::Done),
                TriggerAction::Answer(Err(x)),
            ),
            (TriggerStage::LoadingPipeline, TriggerEvent::PipelineLoaded(Ok(_))) => (
                self.moved(TriggerStage::ReadingStages),
                TriggerAction::ReadStages,
            ),
            (TriggerStage::LoadingPipeline, TriggerEvent::PipelineLoaded(Err(x))) => (
                self.moved(TriggerStage::Done),
                TriggerAction::Answer(Err(x)),
            ),
            (TriggerStage::ReadingStages, TriggerEvent::StagesRead(Err(m))) => {
                let e = invalid_stages(m.as_str());
                (self.moved(TriggerStage::Done), TriggerAction::Answer(Err(e)))
            },
            (TriggerStage::ReadingStages, TriggerEvent::StagesRead(Ok(_))) => {
                let answer = match &self.run {
                    Some(r) => Some(RunAnswer { id: r.id.clone(), number: r.number, status: owned("pending") }),
                    None => None,
                };
                match answer {
                    Some(a) => (self.moved(TriggerStage::Answering), TriggerAction::Answer(Ok(a))),
                    None => (self.moved(TriggerStage::Done), TriggerAction::Stop),
                }
            },
            (TriggerStage::Answering, TriggerEvent::Answered) => {
                if self.can_execute {
                    (self.moved(TriggerStage::MarkingRunning), TriggerAction::MarkStatus(owned("running")))
                } else {
                    (self.moved(TriggerStage::Done), TriggerAction::Stop)
                }
            },
            (TriggerStage::MarkingRunning, TriggerEvent::StatusMarked(ok)) => {
                if ok {
                    let mut env = StrMap::new();
                    env.insert(owned("CI"), owned("true"));
                    env.insert(owned("BUILDIT"), owned("true"));
                    (self.moved(TriggerStage::Executing), TriggerAction::Execute(env))
                } else {
                    (self.moved(TriggerStage::Done), TriggerAction::Stop)
                }
            },
            (TriggerStage::Executing, TriggerEvent::Executed(success)) => (
                self.moved(TriggerStage::MarkingFinished),
                TriggerAction::MarkStatus(owned(finished_run_status(success))),
            ),
            (TriggerStage::MarkingFinished, TriggerEvent::StatusMarked(_)) => (
                self.moved(TriggerStage::Done),
                TriggerAction::Stop,
            ),
            _ => (self.moved(TriggerStage::Done), TriggerAction::Stop),
        }
    }
}

} // verus!
