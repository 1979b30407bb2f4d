//! Status values of GitOps applications and their syncs, with the names under which they are stored.
use vstd::prelude::*;
use crate::ids::ResourceId;
use crate::json::JsonValue;
use crate::time::Timestamp;
use crate::text::{chars_of, eq_str, str_eq};

verus! {

/// Sync policy for an application.
#[derive(Debug, Clone, Copy, PartialEq, Eq, Structural)]
pub enum SyncPolicy {
    Manual,
    Auto,
}

impl SyncPolicy {
    /// The name under which it is shown and stored.
    pub open spec fn text(self) -> Seq<char> {
        match self {
            SyncPolicy::Manual => "manual"@,
            SyncPolicy::Auto => "auto"@,
        }
    }

    /// The value that a stored name reads as; any other name reads as `Manual`.
    pub open spec fn from_text(s: Seq<char>) -> SyncPolicy {
        if s == "manual"@ {
            SyncPolicy::Manual
        } else if s == "auto"@ {
            SyncPolicy::Auto
        } else {
            SyncPolicy::Manual
        }
    }

    pub fn as_str(&self) -> (r: &'static str)
        ensures
            r@ == self.text(),
    {
        match *self {
            SyncPolicy::Manual => "manual",
            SyncPolicy::Auto => "auto",
        }
    }

    /// Reads a stored name.
    pub fn from_db_str(s: &str) -> (r: SyncPolicy)
        ensures
            r == SyncPolicy::from_text(s@),
    {
        let c = chars_of(s);
        if eq_str(c.as_slice(), "manual") {
            SyncPolicy::Manual
        } else if eq_str(c.as_slice(), "auto") {
            SyncPolicy::Auto
        } else {
            SyncPolicy::Manual
        }
    }
}

impl Default for SyncPolicy {
    fn default() -> (r: Self)
        ensures
            r == SyncPolicy::Manual,
    {
        SyncPolicy::Manual
    }
}

/// Storing a value under its name and reading the name back gives the value.
pub proof fn lemma_sync_policy_round_trip(x: SyncPolicy)
    ensures
        SyncPolicy::from_text(x.text()) == x,
{
    reveal_strlit("manual");
    reveal_strlit("auto");
    assert("manual"@.len() == 6);
    assert("auto"@.len() == 4);
    assert("manual"@ != "auto"@);
}

/// Sync status of an application.
#[derive(Debug, Clone, Copy, PartialEq, Eq, Structural)]
pub enum SyncStatus {
    Synced,
    OutOfSync,
    Syncing,
    Unknown,
}

impl SyncStatus {
    /// The name under which it is shown and stored.
    pub open spec fn text(self) -> Seq<char> {
        match self {
            SyncStatus::Synced => "synced"@,
            SyncStatus::OutOfSync => "out_of_sync"@,
            SyncStatus::Syncing => "syncing"@,
            SyncStatus::Unknown => "unknown"@,
        }
    }

    /// The value that a stored name reads as; any other name reads as `Unknown`.
    pub open spec fn from_text(s: Seq<char>) -> SyncStatus {
        if s == "synced"@ {
            SyncStatus::Synced
        } else if s == "out_of_sync"@ {
            SyncStatus::OutOfSync
        } else if s == "syncing"@ {
            SyncStatus::Syncing
        } else if s == "unknown"@ {
            SyncStatus::Unknown
        } else {
            SyncStatus::Unknown
        }
    }

    pub fn as_str(&self) -> (r: &'static str)
        ensures
            r@ == self.text(),
    {
        match *self {
            SyncStatus::Synced => "synced",
            SyncStatus::OutOfSync => "out_of_sync",
            SyncStatus::Syncing => "syncing",
            SyncStatus::Unknown => "unknown",
        }
    }

    /// Reads a stored name.
    pub fn from_db_str(s: &str) -> (r: SyncStatus)
        ensures
            r == SyncStatus::from_text(s@),
    {
        let c = chars_of(s);
        if eq_str(c.as_slice(), "synced") {
            SyncStatus::Synced
        } else if eq_str(c.as_slice(), "out_of_sync") {
            SyncStatus::OutOfSync
        } else if eq_str(c.as_slice(), "syncing") {
            SyncStatus::Syncing
        } else if eq_str(c.as_slice(), "unknown") {
            SyncStatus::Unknown
        } else {
            SyncStatus::Unknown
        }
    }
}

impl Default for SyncStatus {
    fn default() -> (r: Self)
        ensures
            r == SyncStatus::Unknown,
    {
        SyncStatus::Unknown
    }
}

/// Storing a value under its name and reading the name back gives the value.
pub proof fn lemma_sync_status_round_trip(x: SyncStatus)
    ensures
        SyncStatus::from_text(x.text()) == x,
{
    reveal_strlit("synced");
    reveal_strlit("out_of_sync");
    reveal_strlit("syncing");
    reveal_strlit("unknown");
    assert("synced"@.len() == 6);
    assert("out_of_sync"@.len() == 11);
    assert("syncing"@.len() == 7);
    assert("unknown"@.len() == 7);
    assert("synced"@ != "out_of_sync"@);
    assert("synced"@ != "syncing"@);
    assert("synced"@ != "unknown"@);
    assert("out_of_sync"@ != "syncing"@);
    assert("out_of_sync"@ != "unknown"@);
    assert("syncing"@[0] != "unknown"@[0]);
    assert("syncing"@ != "unknown"@);
}

/// Health status of an application or resource.
#[derive(Debug, Clone, Copy, PartialEq, Eq, Structural)]
pub enum HealthStatus {
    Healthy,
    Progressing,
    Degraded,
    Suspended,
    Missing,
    Unknown,
}

impl HealthStatus {
    /// The name under which it is shown and stored.
    pub open spec fn text(self) -> Seq<char> {
        match self {
            HealthStatus::Healthy => "healthy"@,
            HealthStatus::Progressing => "progressing"@,
            HealthStatus::Degraded => "degraded"@,
            HealthStatus::Suspended => "suspended"@,
            HealthStatus::Missing => "missing"@,
            HealthStatus::Unknown => "unknown"@,
        }
    }

    /// The value that a stored name reads as; any other name reads as `Unknown`.
    pub open spec fn from_text(s: Seq<char>) -> HealthStatus {
        if s == "healthy"@ {
            HealthStatus::Healthy
        } else if s == "progressing"@ {
            HealthStatus::Progressing
        } else if s == "degraded"@ {
            HealthStatus::Degraded
        } else if s == "suspended"@ {
            HealthStatus::Suspended
        } else if s == "missing"@ {
            HealthStatus::Missing
        } else if s == "unknown"@ {
            HealthStatus::Unknown
        } else {
            HealthStatus::Unknown
        }
    }

    pub fn as_str(&self) -> (r: &'static str)
        ensures
            r@ == self.text(),
    {
        match *self {
            HealthStatus::Healthy => "healthy",
            HealthStatus::Progressing => "progressing",
            HealthStatus::Degraded => "degraded",
            HealthStatus::Suspended => "suspended",
            HealthStatus::Missing => "missing",
            HealthStatus::Unknown => "unknown",
        }
    }

    /// Reads a stored name.
    pub fn from_db_str(s: &str) -> (r: HealthStatus)
        ensures
            r == HealthStatus::from_text(s@),
    {
        let c = chars_of(s);
        if eq_str(c.as_slice(), "healthy") {
            HealthStatus::Healthy
        } else if eq_str(c.as_slice(), "progressing") {
            HealthStatus::Progressing
        } else if eq_str(c.as_slice(), "degraded") {
            HealthStatus::Degraded
        } else if eq_str(c.as_slice(), "suspended") {
            HealthStatus::Suspended
        } else if eq_str(c.as_slice(), "missing") {
            HealthStatus::Missing
        } else if eq_str(c.as_slice(), "unknown") {
            HealthStatus::Unknown
        } else {
            HealthStatus::Unknown
        }
    }
}

impl Default for HealthStatus {
    fn default() -> (r: Self)
        ensures
            r == HealthStatus::Unknown,
    {
        HealthStatus::Unknown
    }
}

/// Storing a value under its name and reading the name back gives the value.
pub proof fn lemma_health_status_round_trip(x: HealthStatus)
    ensures
        HealthStatus::from_text(x.text()) == x,
{
    reveal_strlit("healthy");
    reveal_strlit("progressing");
    reveal_strlit("degraded");
    reveal_strlit("suspended");
    reveal_strlit("missing");
    reveal_strlit("unknown");
    assert("healthy"@.len() == 7);
    assert("progressing"@.len() == 11);
    assert("degraded"@.len() == 8);
    assert("suspended"@.len() == 9);
    assert("missing"@.len() == 7);
    assert("unknown"@.len() == 7);
    assert("healthy"@ != "progressing"@);
    assert("healthy"@ != "degraded"@);
    assert("healthy"@ != "suspended"@);
    assert("healthy"@[0] != "missing"@[0]);
    assert("healthy"@ != "missing"@);
    assert("healthy"@[0] != "unknown"@[0]);
    assert("healthy"@ != "unknown"@);
    assert("progressing"@ != "degraded"@);
    assert("progressing"@ != "suspended"@);
    assert("progressing"@ != "missing"@);
    assert("progressing"@ != "unknown"@);
    assert("degraded"@ != "suspended"@);
    assert("degraded"@ != "missing"@);
    assert("degraded"@ != "unknown"@);
    assert("suspended"@ != "missing"@);
    assert("suspended"@ != "unknown"@);
    assert("missing"@[0] != "unknown"@[0]);
    assert("missing"@ != "unknown"@);
}

/// Status of one sync operation.
#[derive(Debug, Clone, Copy, PartialEq, Eq, Structural)]
pub enum ApplicationSyncStatus {
    Pending,
    Running,
    Succeeded,
    Failed,
}

impl ApplicationSyncStatus {
    /// The name under which it is shown and stored.
    pub open spec fn text(self) -> Seq<char> {
        match self {
            ApplicationSyncStatus::Pending => "pending"@,
            ApplicationSyncStatus::Running => "running"@,
            ApplicationSyncStatus::Succeeded => "succeeded"@,
            ApplicationSyncStatus::Failed => "failed"@,
        }
    }

    /// The value that a stored name reads as; any other name reads as `Pending`.
    pub open spec fn from_text(s: Seq<char>) -> ApplicationSyncStatus {
        if s == "pending"@ {
            ApplicationSyncStatus::Pending
        } else if s == "running"@ {
            ApplicationSyncStatus::Running
        } else if s == "succeeded"@ {
            ApplicationSyncStatus::Succeeded
        } else if s == "failed"@ {
            ApplicationSyncStatus::Failed
        } else {
            ApplicationSyncStatus::Pending
        }
    }

    pub fn as_str(&self) -> (r: &'static str)
        ensures
            r@ == self.text(),
    {
        match *self {
            ApplicationSyncStatus::Pending => "pending",
            ApplicationSyncStatus::Running => "running",
            ApplicationSyncStatus::Succeeded => "succeeded",
            ApplicationSyncStatus::Failed => "failed",
        }
    }

    /// Reads a stored name.
    pub fn from_db_str(s: &str) -> (r: ApplicationSyncStatus)
        ensures
            r == ApplicationSyncStatus::from_text(s@),
    {
        let c = chars_of(s);
        if eq_str(c.as_slice(), "pending") {
            ApplicationSyncStatus::Pending
        } else if eq_str(c.as_slice(), "running") {
            ApplicationSyncStatus::Running
        } else if eq_str(c.as_slice(), "succeeded") {
            ApplicationSyncStatus::Succeeded
        } else if eq_str(c.as_slice(), "failed") {
            ApplicationSyncStatus::Failed
        } else {
            ApplicationSyncStatus::Pending
        }
    }
}

/// Storing a value under its name and reading the name back gives the value.
pub proof fn lemma_app_sync_status_round_trip(x: ApplicationSyncStatus)
    ensures
        ApplicationSyncStatus::from_text(x.text()) == x,
{
    reveal_strlit("pending");
    reveal_strlit("running");
    reveal_strlit("succeeded");
    reveal_strlit("failed");
    assert("pending"@.len() == 7);
    assert("running"@.len() == 7);
    assert("succeeded"@.len() == 9);
    assert("failed"@.len() == 6);
    assert("pending"@[0] != "running"@[0]);
    assert("pending"@ != "running"@);
    assert("pending"@ != "succeeded"@);
    assert("pending"@ != "failed"@);
    assert("running"@ != "succeeded"@);
    assert("running"@ != "failed"@);
    assert("succeeded"@ != "failed"@);
}

/// What started a sync.
#[derive(Debug, Clone, Copy, PartialEq, Eq, Structural)]
pub enum SyncTriggerType {
    Manual,
    Webhook,
    Auto,
    Scheduled,
}

impl SyncTriggerType {
    /// The name under which it is shown and stored.
    pub open spec fn text(self) -> Seq<char> {
        match self {
            SyncTriggerType::Manual => "manual"@,
            SyncTriggerType::Webhook => "webhook"@,
            SyncTriggerType::Auto => "auto"@,
            SyncTriggerType::Scheduled => "scheduled"@,
        }
    }

    /// The value that a stored name reads as; any other name reads as `Manual`.
    pub open spec fn from_text(s: Seq<char>) -> SyncTriggerType {
        if s == "manual"@ {
            SyncTriggerType::Manual
        } else if s == "webhook"@ {
            SyncTriggerType::Webhook
        } else if s == "auto"@ {
            SyncTriggerType::Auto
        } else if s == "scheduled"@ {
            SyncTriggerType::Scheduled
        } else {
            SyncTriggerType::Manual
        }
    }

    pub fn as_str(&self) -> (r: &'static str)
        ensures
            r@ == self.text(),
    {
        match *self {
            SyncTriggerType::Manual => "manual",
            SyncTriggerType::Webhook => "webhook",
            SyncTriggerType::Auto => "auto",
            SyncTriggerType::Scheduled => "scheduled",
        }
    }

    /// Reads a stored name.
    pub fn from_db_str(s: &str) -> (r: SyncTriggerType)
        ensures
            r == SyncTriggerType::from_text(s@),
    {
        let c = chars_of(s);
        if eq_str(c.as_slice(), "manual") {
            SyncTriggerType::Manual
        } else if eq_str(c.as_slice(), "webhook") {
            SyncTriggerType::Webhook
        } else if eq_str(c.as_slice(), "auto") {
            SyncTriggerType::Auto
        } else if eq_str(c.as_slice(), "scheduled") {
            SyncTriggerType::Scheduled
        } else {
            SyncTriggerType::Manual
        }
    }
}

/// Storing a value under its name and reading the name back gives the value.
pub proof fn lemma_sync_trigger_round_trip(x: SyncTriggerType)
    ensures
        SyncTriggerType::from_text(x.text()) == x,
{
    reveal_strlit("manual");
    reveal_strlit("webhook");
    reveal_strlit("auto");
    reveal_strlit("scheduled");
    assert("manual"@.len() == 6);
    assert("webhook"@.len() == 7);
    assert("auto"@.len() == 4);
    assert("scheduled"@.len() == 9);
    assert("manual"@ != "webhook"@);
    assert("manual"@ != "auto"@);
    assert("manual"@ != "scheduled"@);
    assert("webhook"@ != "auto"@);
    assert("webhook"@ != "scheduled"@);
    assert("auto"@ != "scheduled"@);
}

/// Sync status of one managed resource.
#[derive(Debug, Clone, Copy, PartialEq, Eq, Structural)]
pub enum ResourceStatus {
    Synced,
    OutOfSync,
    Missing,
    Orphaned,
    Unknown,
}

impl ResourceStatus {
    /// The name under which it is shown and stored.
    pub open spec fn text(self) -> Seq<char> {
        match self {
            ResourceStatus::Synced => "synced"@,
            ResourceStatus::OutOfSync => "out_of_sync"@,
            ResourceStatus::Missing => "missing"@,
            ResourceStatus::Orphaned => "orphaned"@,
            ResourceStatus::Unknown => "unknown"@,
        }
    }

    /// The value that a stored name reads as; any other name reads as `Unknown`.
    pub open spec fn from_text(s: Seq<char>) -> ResourceStatus {
        if s == "synced"@ {
            ResourceStatus::Synced
        } else if s == "out_of_sync"@ {
            ResourceStatus::OutOfSync
        } else if s == "missing"@ {
            ResourceStatus::Missing
        } else if s == "orphaned"@ {
            ResourceStatus::Orphaned
        } else if s == "unknown"@ {
            ResourceStatus::Unknown
        } else {
            ResourceStatus::Unknown
        }
    }

    pub fn as_str(&self) -> (r: &'static str)
        ensures
            r@ == self.text(),
    {
        match *self {
            ResourceStatus::Synced => "synced",
            ResourceStatus::OutOfSync => "out_of_sync",
            ResourceStatus::Missing => "missing",
            ResourceStatus::Orphaned => "orphaned",
            ResourceStatus::Unknown => "unknown",
        }
    }

    /// Reads a stored name.
    pub fn from_db_str(s: &str) -> (r: ResourceStatus)
        ensures
            r == ResourceStatus::from_text(s@),
    {
        let c = chars_of(s);
        if eq_str(c.as_slice(), "synced") {
            ResourceStatus::Synced
        } else if eq_str(c.as_slice(), "out_of_sync") {
            ResourceStatus::OutOfSync
        } else if eq_str(c.as_slice(), "missing") {
            ResourceStatus::Missing
        } else if eq_str(c.as_slice(), "orphaned") {
            ResourceStatus::Orphaned
        } else if eq_str(c.as_slice(), "unknown") {
            ResourceStatus::Unknown
        } else {
            ResourceStatus::Unknown
        }
    }
}

/// Storing a value under its name and reading the name back gives the value.
pub proof fn lemma_resource_status_round_trip(x: ResourceStatus)
    ensures
        ResourceStatus::from_text(x.text()) == x,
{
    reveal_strlit("synced");
    reveal_strlit("out_of_sync");
    reveal_strlit("missing");
    reveal_strlit("orphaned");
    reveal_strlit("unknown");
    assert("synced"@.len() == 6);
    assert("out_of_sync"@.len() == 11);
    assert("missing"@.len() == 7);
    assert("orphaned"@.len() == 8);
    assert("unknown"@.len() == 7);
    assert("synced"@ != "out_of_sync"@);
    assert("synced"@ != "missing"@);
    assert("synced"@ != "orphaned"@);
    assert("synced"@ != "unknown"@);
    assert("out_of_sync"@ != "missing"@);
    assert("out_of_sync"@ != "orphaned"@);
    assert("out_of_sync"@ != "unknown"@);
    assert("missing"@ != "orphaned"@);
    assert("missing"@[0] != "unknown"@[0]);
    assert("missing"@ != "unknown"@);
    assert("orphaned"@ != "unknown"@);
}

/// A set of Kubernetes manifests in a repository, kept in sync with a
/// cluster.
#[derive(Debug)]
pub struct Application {
    pub id: ResourceId,
    pub tenant_id: ResourceId,
    pub repository_id: Option<ResourceId>,
    pub environment_id: Option<ResourceId>,
    pub name: String,
    pub description: Option<String>,
    /// Path to the manifests in the repository.
    pub path: String,
    /// Namespace the manifests are applied to.
    pub target_namespace: String,
    /// Cluster the manifests are applied to (the environment's where unset).
    pub target_cluster: Option<String>,
    pub sync_policy: SyncPolicy,
    /// Whether resources no longer in the repository are removed.
    pub prune: bool,
    /// Whether changes made in the cluster are reverted.
    pub self_heal: bool,
    pub sync_status: SyncStatus,
    pub health_status: HealthStatus,
    /// The revision last synced.
    pub synced_revision: Option<String>,
    pub last_synced_at: Option<Timestamp>,
    pub created_at: Timestamp,
    pub updated_at: Timestamp,
}

/// One sync of an application.
#[derive(Debug, Clone)]
pub struct ApplicationSync {
    pub id: ResourceId,
    pub application_id: ResourceId,
    /// The revision being synced.
    pub revision: String,
    pub status: ApplicationSyncStatus,
    pub triggered_by: Option<ResourceId>,
    pub trigger_type: SyncTriggerType,
    pub resources_created: i32,
    pub resources_updated: i32,
    pub resources_deleted: i32,
    pub error_message: Option<String>,
    pub started_at: Option<Timestamp>,
    pub finished_at: Option<Timestamp>,
    pub created_at: Timestamp,
}

/// A Kubernetes resource managed by an application.
#[derive(Debug)]
pub struct ApplicationResource {
    pub id: ResourceId,
    pub application_id: ResourceId,
    /// API group (`apps`, or empty for the core group).
    pub api_group: String,
    /// API version (`v1`, `apps/v1`).
    pub api_version: String,
    pub kind: String,
    pub name: String,
    pub namespace: String,
    pub status: ResourceStatus,
    pub health_status: HealthStatus,
    pub out_of_sync: bool,
    /// The state the repository asks for.
    pub desired_state: Option<JsonValue>,
    /// The state found in the cluster.
    pub live_state: Option<JsonValue>,
    pub diff: Option<String>,
    pub created_at: Timestamp,
    pub updated_at: Timestamp,
}

/// The `(kind, name, namespace)` by which a resource is kept.
pub open spec fn resource_key(r: ApplicationResource) -> (Seq<char>, Seq<char>, Seq<char>) {
    (r.kind@, r.name@, r.namespace@)
}

pub open spec fn keys_view(keep: Seq<(String, String, String)>) -> Seq<(Seq<char>, Seq<char>, Seq<char>)> {
    keep.map_values(|k: (String, String, String)| (k.0@, k.1@, k.2@))
}

/// The ids, in list order, of the resources whose key is not among those
/// to keep.
pub open spec fn orphan_ids(rs: Seq<ApplicationResource>, keep: Seq<(Seq<char>, Seq<char>, Seq<char>)>) -> Seq<
    ResourceId,
>
    decreases rs.len(),
{
    if rs.len() == 0 {
        Seq::empty()
    } else {
        let before = orphan_ids(rs.drop_last(), keep);
        if keep.contains(resource_key(rs.last())) {
            before
        } else {
            before.push(rs.last().id)
        }
    }
}

fn is_kept(r: &ApplicationResource, keep: &Vec<(String, String, String)>) -> (b: bool)
    ensures
        b == keys_view(keep@).contains(resource_key(*r)),
{
    let ghost ks = keys_view(keep@);
    let mut i: usize = 0;
    while i < keep.len()
        invariant
            i <= keep.len(),
            ks == keys_view(keep@),
            forall|j: int| 0 <= j < i ==> ks[j] != resource_key(*r),
        decreases keep.len() - i,
    {
        let k = &keep[i];
        if str_eq(k.0.as_str(), r.kind.as_str()) && str_eq(k.1.as_str(), r.name.as_str()) && str_eq(
            k.2.as_str(),
            r.namespace.as_str(),
        ) {
            assert(ks[i as int] == resource_key(*r));
            return true;
        }
        i = i + 1;
    }
    false
}

/// The resources of an application that a sync with pruning removes: those
/// whose `(kind, name, namespace)` is not among the ones to keep (all of
/// them where nothing is kept).
pub fn orphaned_resources(existing: &Vec<ApplicationResource>, keep: &Vec<(String, String, String)>) -> (r: Vec<
    ResourceId,
>)
    ensures
        r@ == orphan_ids(existing@, keys_view(keep@)),
{
    let mut out: Vec<ResourceId> = Vec::new();
    let mut i: usize = 0;
    while i < existing.len()
        invariant
            i <= existing.len(),
            out@ == orphan_ids(existing@.take(i as int), keys_view(keep@)),
        decreases existing.len() - i,
    {
        assert(existing@.take(i + 1).drop_last() =~= existing@.take(i as int));
        if !is_kept(&existing[i], keep) {
            out.push(existing[i].id);
        }
        i = i + 1;
    }
    assert(existing@.take(i as int) =~= existing@);
    out
}

} // verus!
