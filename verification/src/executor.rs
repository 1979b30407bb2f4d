//! What an executor runs and reports: job specifications, handles,
//! statuses, results and log lines.
use vstd::prelude::*;
use crate::ids::ResourceId;
use crate::strmap::StrMap;
use crate::time::{Duration, Timestamp};

verus! {

/// Specification for a job to execute.
#[derive(Debug)]
pub struct JobSpec {
    /// Unique job identifier.
    pub id: ResourceId,
    /// Container image to use.
    pub image: String,
    /// Command to run.
    pub command: Vec<String>,
    /// Working directory inside the container.
    pub working_dir: Option<String>,
    /// Environment variables.
    pub env: StrMap,
    /// Resource requirements.
    pub resources: ResourceRequirements,
    /// Maximum execution time.
    pub timeout: Option<Duration>,
    /// Volumes to mount.
    pub volumes: Vec<VolumeMount>,
    /// Repository to clone before the command runs.
    pub git_clone: Option<GitCloneSpec>,
}

/// Specification for cloning a git repository before the job runs.
#[derive(Debug, Clone)]
pub struct GitCloneSpec {
    /// Repository URL to clone.
    pub url: String,
    /// Branch to checkout.
    pub branch: Option<String>,
    /// Specific commit to checkout (after cloning the branch).
    pub sha: Option<String>,
    /// Directory to clone into.
    pub target_dir: String,
    /// Clone depth (None for full clone).
    pub depth: Option<u32>,
    /// Access token for private repositories.
    pub access_token: Option<String>,
}

/// Resource requirements for a job.
#[derive(Debug, Clone)]
pub struct ResourceRequirements {
    pub cpu_limit: Option<String>,
    pub memory_limit: Option<String>,
    pub cpu_request: Option<String>,
    pub memory_request: Option<String>,
}

impl Default for ResourceRequirements {
    fn default() -> (r: Self)
        ensures
            r.cpu_limit is None,
            r.memory_limit is None,
            r.cpu_request is None,
            r.memory_request is None,
    {
        ResourceRequirements { cpu_limit: None, memory_limit: None, cpu_request: None, memory_request: None }
    }
}

/// A volume mount.
#[derive(Debug, Clone)]
pub struct VolumeMount {
    pub name: String,
    pub mount_path: String,
    pub read_only: bool,
}

/// Handle to a running job.
#[derive(Debug, Clone)]
pub struct JobHandle {
    pub id: ResourceId,
    /// Executor-specific identifier (container ID, pod name, ...).
    pub executor_id: String,
    /// Which executor is running this job.
    pub executor_name: String,
}

/// Status of a job.
#[derive(Debug, Clone)]
pub enum JobStatus {
    Pending,
    Running { started_at: Timestamp },
    Succeeded { started_at: Timestamp, finished_at: Timestamp },
    Failed {
        started_at: Option<Timestamp>,
        finished_at: Timestamp,
        exit_code: Option<i32>,
        message: String,
    },
    Cancelled { started_at: Option<Timestamp>, cancelled_at: Timestamp },
}

impl JobStatus {
    pub open spec fn terminal(&self) -> bool {
        self is Succeeded || self is Failed || self is Cancelled
    }

    /// Whether the job has finished (succeeded, failed or was cancelled).
    pub fn is_terminal(&self) -> (b: bool)
        ensures
            b == self.terminal(),
    {
        match self {
            JobStatus::Succeeded { .. } | JobStatus::Failed { .. } | JobStatus::Cancelled { .. } => true,
            _ => false,
        }
    }
}

/// The exit code that a finished status reports: 0 for success, the
/// recorded code for a failure, none otherwise.
pub open spec fn status_exit_code(s: JobStatus) -> Option<i32> {
    match s {
        JobStatus::Succeeded { .. } => Some(0),
        JobStatus::Failed { exit_code, .. } => exit_code,
        _ => None,
    }
}

pub fn terminal_exit_code(s: &JobStatus) -> (r: Option<i32>)
    ensures
        r == status_exit_code(*s),
{
    match s {
        JobStatus::Succeeded { .. } => Some(0),
        JobStatus::Failed { exit_code, .. } => *exit_code,
        _ => None,
    }
}

/// Result of a completed job.
#[derive(Debug)]
pub struct JobResult {
    pub status: JobStatus,
    pub exit_code: Option<i32>,
    pub artifacts: Vec<ArtifactRef>,
}

/// Reference to an artifact produced by a job.
#[derive(Debug, Clone)]
pub struct ArtifactRef {
    pub name: String,
    pub path: String,
    pub size: u64,
}

/// A line of log output.
#[derive(Debug, Clone)]
pub struct LogLine {
    pub timestamp: Timestamp,
    pub stream: LogStream,
    pub content: String,
}

/// Which output stream a log line came from.
#[derive(Debug, Clone, Copy, PartialEq, Eq, Structural)]
pub enum LogStream {
    Stdout,
    Stderr,
    System,
}

impl LogStream {
    /// The marker a log line of the stream gets in the command line's
    /// output: blank for standard output, `!` for standard error, `*` for
    /// the system.
    pub fn marker(&self) -> (r: &'static str)
        ensures
            r@ == match self {
                LogStream::Stdout => " "@,
                LogStream::Stderr => "!"@,
                LogStream::System => "*"@,
            },
    {
        match self {
            LogStream::Stdout => " ",
            LogStream::Stderr => "!",
            LogStream::System => "*",
        }
    }
}

} // verus!
