//! Pipeline and stage definitions.
use vstd::prelude::*;
use crate::deployer::DeploymentSpec;
use crate::ids::ResourceId;
use crate::strmap::StrMap;
use crate::time::Timestamp;
use crate::variables::opt_view;

verus! {

pub open spec fn strings_view(v: Seq<String>) -> Seq<Seq<char>> {
    v.map_values(|s: String| s@)
}

pub open spec fn opt_strings_view(v: Option<Vec<String>>) -> Option<Seq<Seq<char>>> {
    match v {
        Some(x) => Some(strings_view(x@)),
        None => None,
    }
}

/// A CI/CD pipeline definition.
#[derive(Debug)]
pub struct Pipeline {
    pub id: ResourceId,
    /// Pipeline name (e.g., "my-service").
    pub name: String,
    /// Tenant this pipeline belongs to.
    pub tenant_id: ResourceId,
    /// Repository URL.
    pub repository: String,
    /// Triggers that can start this pipeline.
    pub triggers: Vec<Trigger>,
    /// Pipeline stages.
    pub stages: Vec<Stage>,
    /// Global environment variables.
    pub env: StrMap,
    /// Cache configurations.
    pub caches: Vec<CacheConfig>,
}

/// What triggers a pipeline run.
#[derive(Debug, Clone)]
pub enum Trigger {
    /// Triggered on push to branches.
    Push { branches: Vec<String>, paths: Option<Vec<String>> },
    /// Triggered on pull request.
    PullRequest { branches: Option<Vec<String>> },
    /// Triggered on tag creation.
    Tag { pattern: Option<String> },
    /// Scheduled trigger (cron).
    Schedule { cron: String },
    /// Manual trigger only.
    Manual,
    /// Triggered via API/webhook.
    Webhook { secret: String },
}

pub enum TriggerView {
    Push { branches: Seq<Seq<char>>, paths: Option<Seq<Seq<char>>> },
    PullRequest { branches: Option<Seq<Seq<char>>> },
    Tag { pattern: Option<Seq<char>> },
    Schedule { cron: Seq<char> },
    Manual,
    Webhook { secret: Seq<char> },
}

impl View for Trigger {
    type V = TriggerView;

    open spec fn view(&self) -> TriggerView {
        match self {
            Trigger::Push { branches, paths } => TriggerView::Push {
                branches: strings_view(branches@),
                paths: opt_strings_view(*paths),
            },
            Trigger::PullRequest { branches } => TriggerView::PullRequest {
                branches: opt_strings_view(*branches),
            },
            Trigger::Tag { pattern } => TriggerView::Tag { pattern: opt_view(*pattern) },
            Trigger::Schedule { cron } => TriggerView::Schedule { cron: cron@ },
            Trigger::Manual => TriggerView::Manual,
            Trigger::Webhook { secret } => TriggerView::Webhook { secret: secret@ },
        }
    }
}

/// A stage in a pipeline.
#[derive(Debug)]
pub struct Stage {
    pub name: String,
    /// Dependencies (other stage names).
    pub needs: Vec<String>,
    /// Conditional execution.
    pub when: Option<StageCondition>,
    /// Whether manual approval is required.
    pub manual: bool,
    /// What this stage does.
    pub action: StageAction,
    /// Stage-specific environment variables.
    pub env: StrMap,
}

/// Condition for stage execution.
#[derive(Debug, Clone)]
pub struct StageCondition {
    /// Expression to evaluate (e.g., "{branch} == 'main'").
    pub expression: String,
}

/// What a stage does.
#[derive(Debug)]
pub enum StageAction {
    /// Run commands in a container.
    Run { image: String, commands: Vec<String>, artifacts: Vec<String> },
    /// Build and push a container image.
    ImageBuild { dockerfile: String, context: String, tags: Vec<String>, push: bool },
    /// Deploy to a target.
    Deploy(Box<DeploymentSpec>),
    /// Run stages in parallel.
    Parallel { stages: Vec<Stage> },
    /// Matrix build (multiple configurations): each variable with its values.
    Matrix { variables: Vec<(String, Vec<String>)>, stage: Box<Stage> },
}

/// The parts of a stage action that contracts speak of.
pub enum StageActionView {
    Run { image: Seq<char>, commands: Seq<Seq<char>>, artifacts: Seq<Seq<char>> },
    ImageBuild { dockerfile: Seq<char>, context: Seq<char>, tags: Seq<Seq<char>>, push: bool },
    Deploy,
    Parallel,
    Matrix,
}

impl View for StageAction {
    type V = StageActionView;

    open spec fn view(&self) -> StageActionView {
        match self {
            StageAction::Run { image, commands, artifacts } => StageActionView::Run {
                image: image@,
                commands: strings_view(commands@),
                artifacts: strings_view(artifacts@),
            },
            StageAction::ImageBuild { dockerfile, context, tags, push } =>
                StageActionView::ImageBuild {
                dockerfile: dockerfile@,
                context: context@,
                tags: strings_view(tags@),
                push: *push,
            },
            StageAction::Deploy(_) => StageActionView::Deploy,
            StageAction::Parallel { .. } => StageActionView::Parallel,
            StageAction::Matrix { .. } => StageActionView::Matrix,
        }
    }
}

pub struct StageView {
    pub name: Seq<char>,
    pub needs: Seq<Seq<char>>,
    pub when: Option<Seq<char>>,
    pub manual: bool,
    pub action: StageActionView,
    pub env: Map<Seq<char>, Seq<char>>,
}

impl View for Stage {
    type V = StageView;

    open spec fn view(&self) -> StageView {
        StageView {
            name: self.name@,
            needs: strings_view(self.needs@),
            when: match self.when {
                Some(c) => Some(c.expression@),
                None => None,
            },
            manual: self.manual,
            action: self.action@,
            env: self.env@,
        }
    }
}

/// Cache configuration.
#[derive(Debug, Clone)]
pub struct CacheConfig {
    pub name: String,
    /// Paths to cache.
    pub paths: Vec<String>,
    /// Cache key (supports variable interpolation).
    pub key: String,
    /// Fallback keys if exact match not found.
    pub restore_keys: Vec<String>,
}

pub struct CacheConfigView {
    pub name: Seq<char>,
    pub paths: Seq<Seq<char>>,
    pub key: Seq<char>,
    pub restore_keys: Seq<Seq<char>>,
}

impl View for CacheConfig {
    type V = CacheConfigView;

    open spec fn view(&self) -> CacheConfigView {
        CacheConfigView {
            name: self.name@,
            paths: strings_view(self.paths@),
            key: self.key@,
            restore_keys: strings_view(self.restore_keys@),
        }
    }
}

pub struct PipelineView {
    pub id: ResourceId,
    pub name: Seq<char>,
    pub tenant_id: ResourceId,
    pub repository: Seq<char>,
    pub triggers: Seq<TriggerView>,
    pub stages: Seq<StageView>,
    pub env: Map<Seq<char>, Seq<char>>,
    pub caches: Seq<CacheConfigView>,
}

impl View for Pipeline {
    type V = PipelineView;

    open spec fn view(&self) -> PipelineView {
        PipelineView {
            id: self.id,
            name: self.name@,
            tenant_id: self.tenant_id,
            repository: self.repository@,
            triggers: self.triggers@.map_values(|t: Trigger| t@),
            stages: self.stages@.map_values(|s: Stage| s@),
            env: self.env@,
            caches: self.caches@.map_values(|c: CacheConfig| c@),
        }
    }
}

/// A pipeline run instance.
#[derive(Debug, Clone)]
pub struct PipelineRun {
    pub id: ResourceId,
    /// Pipeline definition ID.
    pub pipeline_id: ResourceId,
    /// Run number (incrementing).
    pub number: u64,
    /// What triggered this run.
    pub trigger: TriggerInfo,
    /// Git information.
    pub git: GitInfo,
    /// Current status.
    pub status: PipelineStatus,
    /// Stage results.
    pub stages: Vec<StageResult>,
    pub created_at: Timestamp,
    pub started_at: Option<Timestamp>,
    pub finished_at: Option<Timestamp>,
}

/// Information about what triggered a run.
#[derive(Debug, Clone)]
pub struct TriggerInfo {
    pub kind: TriggerKind,
    pub actor: Option<String>,
}

#[derive(Debug, Clone)]
pub enum TriggerKind {
    Push,
    PullRequest { number: u64 },
    Tag { name: String },
    Schedule,
    Manual,
    Webhook,
    Retry { original_run_id: ResourceId },
}

/// Git information for a run.
#[derive(Debug, Clone)]
pub struct GitInfo {
    pub sha: String,
    pub short_sha: String,
    pub branch: Option<String>,
    pub tag: Option<String>,
    pub message: String,
    pub author: String,
}

/// Overall pipeline status.
#[derive(Debug, Clone)]
pub enum PipelineStatus {
    /// Waiting to start.
    Queued,
    /// Currently running.
    Running,
    /// Waiting for manual approval.
    WaitingApproval { stage: String },
    /// Completed successfully.
    Succeeded,
    /// Failed.
    Failed { stage: String },
    /// Cancelled.
    Cancelled,
}

impl PipelineStatus {
    pub open spec fn spec_is_terminal(&self) -> bool {
        self is Succeeded || self is Failed || self is Cancelled
    }

    /// Whether the run has finished: succeeded, failed or cancelled.
    pub fn is_terminal(&self) -> (b: bool)
        ensures
            b == self.spec_is_terminal(),
    {
        match self {
            PipelineStatus::Succeeded | PipelineStatus::Failed { .. } | PipelineStatus::Cancelled => true,
            _ => false,
        }
    }
}

/// Result of a stage execution.
#[derive(Debug, Clone)]
pub struct StageResult {
    pub name: String,
    pub status: StageStatus,
    /// Job handle if this was a run/build stage.
    pub job_id: Option<ResourceId>,
    /// Deployment handle if this was a deploy stage.
    pub deployment_id: Option<ResourceId>,
    pub started_at: Option<Timestamp>,
    pub finished_at: Option<Timestamp>,
}

/// Status of a stage.
#[derive(Debug, Clone)]
pub enum StageStatus {
    /// Waiting for dependencies.
    Pending,
    /// Ready to run but queued.
    Queued,
    /// Currently executing.
    Running,
    /// Waiting for manual approval.
    WaitingApproval,
    /// Completed successfully.
    Succeeded,
    /// Failed.
    Failed { message: String },
    /// Skipped (condition not met or dependency failed).
    Skipped { reason: String },
    /// Cancelled.
    Cancelled,
}

/// Whether a stage is among the wanted names.
pub open spec fn stage_wanted(s: Stage, wanted: Seq<Seq<char>>) -> bool {
    wanted.contains(s.name@)
}

/// The stages whose names are among the wanted ones, in their order (the
/// selection of stages for a local run).
pub fn select_stages(stages: Vec<Stage>, wanted: &Vec<String>) -> (r: Vec<Stage>)
    ensures
        r@ == stages@.filter(|s: Stage| stage_wanted(s, strings_view(wanted@))),
{
    let ghost ws = strings_view(wanted@);
    let ghost ss = stages@;
    let mut out: Vec<Stage> = Vec::new();
    let mut stages = stages;
    let n = stages.len();
    let mut i: usize = 0;
    while i < n
        invariant
            n == ss.len(),
            i <= n,
            stages@ == ss.skip(i as int),
            ws == strings_view(wanted@),
            out@ == ss.take(i as int).filter(|s: Stage| stage_wanted(s, ws)),
        decreases n - i,
    {
        let st = stages.remove(0);
        assert(st == ss[i as int]);
        assert(stages@ =~= ss.skip(i + 1));
        assert(ss.take(i + 1).drop_last() =~= ss.take(i as int));
        assert(ss.take(i + 1).last() == st);
        let mut found = false;
        let mut k: usize = 0;
        while k < wanted.len()
            invariant
                k <= wanted.len(),
                ws == strings_view(wanted@),
                found == exists|j: int| 0 <= j < k && ws[j] == st.name@,
            decreases wanted.len() - k,
        {
            assert(ws[k as int] == wanted@[k as int]@);
            if crate::text::str_eq(wanted[k].as_str(), st.name.as_str()) {
                found = true;
            }
            k = k + 1;
        }
        proof {
            reveal(Seq::filter);
            if found {
                let j = choose|j: int| 0 <= j < wanted.len() && ws[j] == st.name@;
                assert(ws.contains(st.name@));
            } else {
                assert(!ws.contains(st.name@));
            }
        }
        if found {
            out.push(st);
        }
        i = i + 1;
    }
    assert(ss.take(i as int) =~= ss);
    out
}

/// The status a run is left in once its pipeline has executed.
pub fn finished_run_status(success: bool) -> (r: &'static str)
    ensures
        r@ == (if success {
            "succeeded"@
        } else {
            "failed"@
        }),
{
    if success {
        "succeeded"
    } else {
        "failed"
    }
}

} // verus!
