//! Deployment types: specifications, strategies and reported states.
use vstd::prelude::*;
use crate::ids::ResourceId;
use crate::strmap::StrMap;
use crate::time::{Duration, Timestamp};

verus! {

/// Specification for a deployment.
#[derive(Debug, Clone)]
pub struct DeploymentSpec {
    pub id: ResourceId,
    /// Service name being deployed.
    pub service: String,
    /// Target environment.
    pub environment: String,
    /// Container image to deploy.
    pub image: String,
    /// Number of replicas.
    pub replicas: u32,
    /// Environment variables.
    pub env: StrMap,
    pub strategy: DeploymentStrategy,
    pub resources: DeploymentResources,
    pub health_check: Option<HealthCheck>,
}

/// Deployment strategy.
#[derive(Debug, Clone, PartialEq, Eq)]
pub enum DeploymentStrategy {
    /// Replace instances gradually.
    RollingUpdate { max_surge: u32, max_unavailable: u32 },
    /// Gradually shift traffic to the new version.
    Canary { steps: Vec<CanaryStep> },
    /// Deploy the new version alongside the old, then switch.
    BlueGreen,
    /// Recreate all instances (downtime).
    Recreate,
}

impl DeploymentStrategy {
    /// The default strategy: a rolling update with one extra instance and none unavailable.
    pub fn default_strategy() -> (r: Self)
        ensures
            r == (DeploymentStrategy::RollingUpdate { max_surge: 1, max_unavailable: 0 }),
    {
        DeploymentStrategy::RollingUpdate { max_surge: 1, max_unavailable: 0 }
    }
}

/// The strategies that deployment to Kubernetes supports: the default
/// rolling update, and recreation.
pub fn kubernetes_strategies() -> (r: Vec<DeploymentStrategy>)
    ensures
        r@ == seq![
            DeploymentStrategy::RollingUpdate { max_surge: 1, max_unavailable: 0 },
            DeploymentStrategy::Recreate,
        ],
{
    let mut v: Vec<DeploymentStrategy> = Vec::new();
    v.push(DeploymentStrategy::RollingUpdate { max_surge: 1, max_unavailable: 0 });
    v.push(DeploymentStrategy::Recreate);
    v
}

/// A step in a canary deployment.
#[derive(Debug, Clone, PartialEq, Eq)]
pub struct CanaryStep {
    /// Percentage of traffic to send to the new version.
    pub traffic_percent: u8,
    /// How long to wait before proceeding.
    pub duration: Option<Duration>,
    /// Whether manual approval is required.
    pub manual_approval: bool,
}

/// Resource configuration for a deployment.
#[derive(Debug, Clone, Default)]
pub struct DeploymentResources {
    pub cpu_limit: Option<String>,
    pub memory_limit: Option<String>,
    pub cpu_request: Option<String>,
    pub memory_request: Option<String>,
}

/// Health check configuration.
#[derive(Debug, Clone)]
pub struct HealthCheck {
    pub path: String,
    pub port: u16,
    pub interval_seconds: u32,
    pub timeout_seconds: u32,
    pub healthy_threshold: u32,
    pub unhealthy_threshold: u32,
}

/// Handle to an active deployment.
#[derive(Debug, Clone)]
pub struct DeploymentHandle {
    pub id: ResourceId,
    pub deployer_id: String,
    pub deployer_name: String,
}

/// Current state of a deployment.
#[derive(Debug, Clone)]
pub struct DeploymentState {
    pub status: DeploymentStatus,
    pub replicas: ReplicaStatus,
    pub current_image: String,
    pub traffic_distribution: Option<TrafficDistribution>,
    pub last_updated: Timestamp,
}

/// Status of a deployment.
#[derive(Debug, Clone)]
pub enum DeploymentStatus {
    Pending,
    InProgress { progress_percent: u8 },
    Healthy,
    Degraded { message: String },
    Failed { message: String },
    Paused { reason: String },
    RollingBack,
}

/// Replica status information.
#[derive(Debug, Clone)]
pub struct ReplicaStatus {
    pub desired: u32,
    pub ready: u32,
    pub available: u32,
    pub unavailable: u32,
}

/// Traffic distribution between versions.
#[derive(Debug, Clone)]
pub struct TrafficDistribution {
    pub stable_percent: u8,
    pub canary_percent: u8,
}

/// Deployment event for real-time updates.
#[derive(Debug, Clone)]
pub struct DeploymentEvent {
    pub timestamp: Timestamp,
    pub kind: DeploymentEventKind,
    pub message: String,
}

#[derive(Debug, Clone, Copy, PartialEq, Eq)]
pub enum DeploymentEventKind {
    Started,
    ReplicaReady,
    ReplicaFailed,
    TrafficShifted,
    HealthCheckPassed,
    HealthCheckFailed,
    Paused,
    Resumed,
    Completed,
    Failed,
    RollbackStarted,
    RollbackCompleted,
}

/// Target for a rollback operation.
#[derive(Debug, Clone)]
pub enum RollbackTarget {
    /// Roll back to the previous version.
    Previous,
    /// Roll back to a specific revision.
    Revision(u32),
    /// Roll back to a specific image.
    Image(String),
}

/// Options for log retrieval.
#[derive(Debug, Clone, Default)]
pub struct LogOptions {
    pub since: Option<Timestamp>,
    pub tail_lines: Option<u32>,
    pub follow: bool,
    pub instance: Option<String>,
}

/// Warning from deployment validation.
#[derive(Debug, Clone)]
pub struct ValidationWarning {
    pub field: String,
    pub message: String,
}

} // verus!
