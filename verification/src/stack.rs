//! Status values of Terraform stacks and their runs, with the names under which they are stored.
use vstd::prelude::*;
use crate::ids::ResourceId;
use crate::json::JsonValue;
use crate::time::Timestamp;
use crate::text::{chars_of, eq_str};

verus! {

/// Status of a stack.
#[derive(Debug, Clone, Copy, PartialEq, Eq, Structural)]
pub enum StackStatus {
    Pending,
    Initializing,
    Ready,
    Error,
}

impl StackStatus {
    /// The name under which it is shown and stored.
    pub open spec fn text(self) -> Seq<char> {
        match self {
            StackStatus::Pending => "pending"@,
            StackStatus::Initializing => "initializing"@,
            StackStatus::Ready => "ready"@,
            StackStatus::Error => "error"@,
        }
    }

    /// The value that a stored name reads as; any other name reads as `Pending`.
    pub open spec fn from_text(s: Seq<char>) -> StackStatus {
        if s == "pending"@ {
            StackStatus::Pending
        } else if s == "initializing"@ {
            StackStatus::Initializing
        } else if s == "ready"@ {
            StackStatus::Ready
        } else if s == "error"@ {
            StackStatus::Error
        } else {
            StackStatus::Pending
        }
    }

    pub fn as_str(&self) -> (r: &'static str)
        ensures
            r@ == self.text(),
    {
        match *self {
            StackStatus::Pending => "pending",
            StackStatus::Initializing => "initializing",
            StackStatus::Ready => "ready",
            StackStatus::Error => "error",
        }
    }

    /// Reads a stored name.
    pub fn from_db_str(s: &str) -> (r: StackStatus)
        ensures
            r == StackStatus::from_text(s@),
    {
        let c = chars_of(s);
        if eq_str(c.as_slice(), "pending") {
            StackStatus::Pending
        } else if eq_str(c.as_slice(), "initializing") {
            StackStatus::Initializing
        } else if eq_str(c.as_slice(), "ready") {
            StackStatus::Ready
        } else if eq_str(c.as_slice(), "error") {
            StackStatus::Error
        } else {
            StackStatus::Pending
        }
    }
}

/// Storing a value under its name and reading the name back gives the value.
pub proof fn lemma_stack_status_round_trip(x: StackStatus)
    ensures
        StackStatus::from_text(x.text()) == x,
{
    reveal_strlit("pending");
    reveal_strlit("initializing");
    reveal_strlit("ready");
    reveal_strlit("error");
    assert("pending"@.len() == 7);
    assert("initializing"@.len() == 12);
    assert("ready"@.len() == 5);
    assert("error"@.len() == 5);
    assert("pending"@ != "initializing"@);
    assert("pending"@ != "ready"@);
    assert("pending"@ != "error"@);
    assert("initializing"@ != "ready"@);
    assert("initializing"@ != "error"@);
    assert("ready"@[0] != "error"@[0]);
    assert("ready"@ != "error"@);
}

/// Kind of a stack run.
#[derive(Debug, Clone, Copy, PartialEq, Eq, Structural)]
pub enum StackRunType {
    Plan,
    Apply,
    Destroy,
    Refresh,
}

impl StackRunType {
    /// The name under which it is shown and stored.
    pub open spec fn text(self) -> Seq<char> {
        match self {
            StackRunType::Plan => "plan"@,
            StackRunType::Apply => "apply"@,
            StackRunType::Destroy => "destroy"@,
            StackRunType::Refresh => "refresh"@,
        }
    }

    /// The value that a stored name stands for, if any.
    pub open spec fn from_text(s: Seq<char>) -> Option<StackRunType> {
        if s == "plan"@ {
            Some(StackRunType::Plan)
        } else if s == "apply"@ {
            Some(StackRunType::Apply)
        } else if s == "destroy"@ {
            Some(StackRunType::Destroy)
        } else if s == "refresh"@ {
            Some(StackRunType::Refresh)
        } else {
            None
        }
    }

    pub fn as_str(&self) -> (r: &'static str)
        ensures
            r@ == self.text(),
    {
        match *self {
            StackRunType::Plan => "plan",
            StackRunType::Apply => "apply",
            StackRunType::Destroy => "destroy",
            StackRunType::Refresh => "refresh",
        }
    }

    /// Reads a stored name.
    pub fn from_db_str(s: &str) -> (r: Option<StackRunType>)
        ensures
            r == StackRunType::from_text(s@),
    {
        let c = chars_of(s);
        if eq_str(c.as_slice(), "plan") {
            Some(StackRunType::Plan)
        } else if eq_str(c.as_slice(), "apply") {
            Some(StackRunType::Apply)
        } else if eq_str(c.as_slice(), "destroy") {
            Some(StackRunType::Destroy)
        } else if eq_str(c.as_slice(), "refresh") {
            Some(StackRunType::Refresh)
        } else {
            None
        }
    }
}

/// Storing a value under its name and reading the name back gives the value.
pub proof fn lemma_stack_run_type_round_trip(x: StackRunType)
    ensures
        StackRunType::from_text(x.text()) == Some(x),
{
    reveal_strlit("plan");
    reveal_strlit("apply");
    reveal_strlit("destroy");
    reveal_strlit("refresh");
    assert("plan"@.len() == 4);
    assert("apply"@.len() == 5);
    assert("destroy"@.len() == 7);
    assert("refresh"@.len() == 7);
    assert("plan"@ != "apply"@);
    assert("plan"@ != "destroy"@);
    assert("plan"@ != "refresh"@);
    assert("apply"@ != "destroy"@);
    assert("apply"@ != "refresh"@);
    assert("destroy"@[0] != "refresh"@[0]);
    assert("destroy"@ != "refresh"@);
}

/// Status of a stack run.
#[derive(Debug, Clone, Copy, PartialEq, Eq, Structural)]
pub enum StackRunStatus {
    Pending,
    Running,
    NeedsApproval,
    Approved,
    Applying,
    Succeeded,
    Failed,
    Cancelled,
}

impl StackRunStatus {
    /// The name under which it is shown and stored.
    pub open spec fn text(self) -> Seq<char> {
        match self {
            StackRunStatus::Pending => "pending"@,
            StackRunStatus::Running => "running"@,
            StackRunStatus::NeedsApproval => "needs_approval"@,
            StackRunStatus::Approved => "approved"@,
            StackRunStatus::Applying => "applying"@,
            StackRunStatus::Succeeded => "succeeded"@,
            StackRunStatus::Failed => "failed"@,
            StackRunStatus::Cancelled => "cancelled"@,
        }
    }

    /// The value that a stored name reads as; any other name reads as `Pending`.
    pub open spec fn from_text(s: Seq<char>) -> StackRunStatus {
        if s == "pending"@ {
            StackRunStatus::Pending
        } else if s == "running"@ {
            StackRunStatus::Running
        } else if s == "needs_approval"@ {
            StackRunStatus::NeedsApproval
        } else if s == "approved"@ {
            StackRunStatus::Approved
        } else if s == "applying"@ {
            StackRunStatus::Applying
        } else if s == "succeeded"@ {
            StackRunStatus::Succeeded
        } else if s == "failed"@ {
            StackRunStatus::Failed
        } else if s == "cancelled"@ {
            StackRunStatus::Cancelled
        } else {
            StackRunStatus::Pending
        }
    }

    pub fn as_str(&self) -> (r: &'static str)
        ensures
            r@ == self.text(),
    {
        match *self {
            StackRunStatus::Pending => "pending",
            StackRunStatus::Running => "running",
            StackRunStatus::NeedsApproval => "needs_approval",
            StackRunStatus::Approved => "approved",
            StackRunStatus::Applying => "applying",
            StackRunStatus::Succeeded => "succeeded",
            StackRunStatus::Failed => "failed",
            StackRunStatus::Cancelled => "cancelled",
        }
    }

    /// Reads a stored name.
    pub fn from_db_str(s: &str) -> (r: StackRunStatus)
        ensures
            r == StackRunStatus::from_text(s@),
    {
        let c = chars_of(s);
        if eq_str(c.as_slice(), "pending") {
            StackRunStatus::Pending
        } else if eq_str(c.as_slice(), "running") {
            StackRunStatus::Running
        } else if eq_str(c.as_slice(), "needs_approval") {
            StackRunStatus::NeedsApproval
        } else if eq_str(c.as_slice(), "approved") {
            StackRunStatus::Approved
        } else if eq_str(c.as_slice(), "applying") {
            StackRunStatus::Applying
        } else if eq_str(c.as_slice(), "succeeded") {
            StackRunStatus::Succeeded
        } else if eq_str(c.as_slice(), "failed") {
            StackRunStatus::Failed
        } else if eq_str(c.as_slice(), "cancelled") {
            StackRunStatus::Cancelled
        } else {
            StackRunStatus::Pending
        }
    }
}

/// Storing a value under its name and reading the name back gives the value.
pub proof fn lemma_stack_run_status_round_trip(x: StackRunStatus)
    ensures
        StackRunStatus::from_text(x.text()) == x,
{
    reveal_strlit("pending");
    reveal_strlit("running");
    reveal_strlit("needs_approval");
    reveal_strlit("approved");
    reveal_strlit("applying");
    reveal_strlit("succeeded");
    reveal_strlit("failed");
    reveal_strlit("cancelled");
    assert("pending"@.len() == 7);
    assert("running"@.len() == 7);
    assert("needs_approval"@.len() == 14);
    assert("approved"@.len() == 8);
    assert("applying"@.len() == 8);
    assert("succeeded"@.len() == 9);
    assert("failed"@.len() == 6);
    assert("cancelled"@.len() == 9);
    assert("pending"@[0] != "running"@[0]);
    assert("pending"@ != "running"@);
    assert("pending"@ != "needs_approval"@);
    assert("pending"@ != "approved"@);
    assert("pending"@ != "applying"@);
    assert("pending"@ != "succeeded"@);
    assert("pending"@ != "failed"@);
    assert("pending"@ != "cancelled"@);
    assert("running"@ != "needs_approval"@);
    assert("running"@ != "approved"@);
    assert("running"@ != "applying"@);
    assert("running"@ != "succeeded"@);
    assert("running"@ != "failed"@);
    assert("running"@ != "cancelled"@);
    assert("needs_approval"@ != "approved"@);
    assert("needs_approval"@ != "applying"@);
    assert("needs_approval"@ != "succeeded"@);
    assert("needs_approval"@ != "failed"@);
    assert("needs_approval"@ != "cancelled"@);
    assert("approved"@[3] != "applying"@[3]);
    assert("approved"@ != "applying"@);
    assert("approved"@ != "succeeded"@);
    assert("approved"@ != "failed"@);
    assert("approved"@ != "cancelled"@);
    assert("applying"@ != "succeeded"@);
    assert("applying"@ != "failed"@);
    assert("applying"@ != "cancelled"@);
    assert("succeeded"@ != "failed"@);
    assert("succeeded"@[0] != "cancelled"@[0]);
    assert("succeeded"@ != "cancelled"@);
    assert("failed"@ != "cancelled"@);
}

/// What started a stack run.
#[derive(Debug, Clone, Copy, PartialEq, Eq, Structural)]
pub enum StackTriggerType {
    Manual,
    Webhook,
    Drift,
    Scheduled,
}

impl StackTriggerType {
    /// The name under which it is shown and stored.
    pub open spec fn text(self) -> Seq<char> {
        match self {
            StackTriggerType::Manual => "manual"@,
            StackTriggerType::Webhook => "webhook"@,
            StackTriggerType::Drift => "drift"@,
            StackTriggerType::Scheduled => "scheduled"@,
        }
    }

    /// The value that a stored name reads as; any other name reads as `Manual`.
    pub open spec fn from_text(s: Seq<char>) -> StackTriggerType {
        if s == "manual"@ {
            StackTriggerType::Manual
        } else if s == "webhook"@ {
            StackTriggerType::Webhook
        } else if s == "drift"@ {
            StackTriggerType::Drift
        } else if s == "scheduled"@ {
            StackTriggerType::Scheduled
        } else {
            StackTriggerType::Manual
        }
    }

    pub fn as_str(&self) -> (r: &'static str)
        ensures
            r@ == self.text(),
    {
        match *self {
            StackTriggerType::Manual => "manual",
            StackTriggerType::Webhook => "webhook",
            StackTriggerType::Drift => "drift",
            StackTriggerType::Scheduled => "scheduled",
        }
    }

    /// Reads a stored name.
    pub fn from_db_str(s: &str) -> (r: StackTriggerType)
        ensures
            r == StackTriggerType::from_text(s@),
    {
        let c = chars_of(s);
        if eq_str(c.as_slice(), "manual") {
            StackTriggerType::Manual
        } else if eq_str(c.as_slice(), "webhook") {
            StackTriggerType::Webhook
        } else if eq_str(c.as_slice(), "drift") {
            StackTriggerType::Drift
        } else if eq_str(c.as_slice(), "scheduled") {
            StackTriggerType::Scheduled
        } else {
            StackTriggerType::Manual
        }
    }
}

/// Storing a value under its name and reading the name back gives the value.
pub proof fn lemma_stack_trigger_round_trip(x: StackTriggerType)
    ensures
        StackTriggerType::from_text(x.text()) == x,
{
    reveal_strlit("manual");
    reveal_strlit("webhook");
    reveal_strlit("drift");
    reveal_strlit("scheduled");
    assert("manual"@.len() == 6);
    assert("webhook"@.len() == 7);
    assert("drift"@.len() == 5);
    assert("scheduled"@.len() == 9);
    assert("manual"@ != "webhook"@);
    assert("manual"@ != "drift"@);
    assert("manual"@ != "scheduled"@);
    assert("webhook"@ != "drift"@);
    assert("webhook"@ != "scheduled"@);
    assert("drift"@ != "scheduled"@);
}

/// Request to create a stack variable.
#[derive(Debug, Clone)]
pub struct CreateStackVariableRequest {
    pub key: String,
    pub value: Option<String>,
    pub is_sensitive: bool,
    pub is_hcl: bool,
    pub description: Option<String>,
}

/// Request to trigger a stack run.
#[derive(Debug, Clone)]
pub struct TriggerStackRunRequest {
    pub run_type: StackRunType,
    pub commit_sha: Option<String>,
}

/// A Terraform stack.
#[derive(Debug)]
pub struct Stack {
    pub id: ResourceId,
    pub tenant_id: ResourceId,
    pub repository_id: Option<ResourceId>,
    pub name: String,
    pub description: Option<String>,
    /// Path of the configuration inside the repository.
    pub path: String,
    pub terraform_version: String,
    pub auto_apply: bool,
    /// Local directory Terraform runs in, once the repository is cloned.
    pub working_directory: Option<String>,
    pub var_file: Option<String>,
    pub backend_config: JsonValue,
    pub environment_variables: JsonValue,
    pub status: StackStatus,
    pub last_run_at: Option<Timestamp>,
    pub created_at: Timestamp,
    pub updated_at: Timestamp,
}

/// A variable of a stack.
#[derive(Debug, Clone)]
pub struct StackVariable {
    pub id: ResourceId,
    pub stack_id: ResourceId,
    pub key: String,
    pub value: Option<String>,
    pub is_sensitive: bool,
    pub is_hcl: bool,
    pub description: Option<String>,
    pub created_at: Timestamp,
    pub updated_at: Timestamp,
}

/// A run (plan, apply, destroy, refresh) of a stack.
#[derive(Debug)]
pub struct StackRun {
    pub id: ResourceId,
    pub stack_id: ResourceId,
    pub run_type: StackRunType,
    pub status: StackRunStatus,
    pub triggered_by: Option<ResourceId>,
    pub trigger_type: StackTriggerType,
    pub commit_sha: Option<String>,
    pub plan_output: Option<String>,
    pub plan_json: Option<JsonValue>,
    pub apply_output: Option<String>,
    pub resources_to_add: i32,
    pub resources_to_change: i32,
    pub resources_to_destroy: i32,
    pub approved_by: Option<ResourceId>,
    pub approved_at: Option<Timestamp>,
    pub started_at: Option<Timestamp>,
    pub finished_at: Option<Timestamp>,
    pub error_message: Option<String>,
    pub created_at: Timestamp,
}

/// The Terraform state of a stack, as stored.
#[derive(Debug)]
pub struct StackState {
    pub id: ResourceId,
    pub stack_id: ResourceId,
    pub state_json: JsonValue,
    pub serial: i32,
    pub lineage: Option<String>,
    pub lock_id: Option<String>,
    pub locked_by: Option<ResourceId>,
    pub locked_at: Option<Timestamp>,
    pub lock_info: Option<JsonValue>,
    pub updated_at: Timestamp,
}

/// Request to create a stack.
#[derive(Debug, Clone)]
pub struct CreateStackRequest {
    pub name: String,
    pub description: Option<String>,
    pub repository_id: Option<ResourceId>,
    pub path: Option<String>,
    pub terraform_version: Option<String>,
    pub auto_apply: Option<bool>,
    pub variables: Option<Vec<CreateStackVariableRequest>>,
}

} // verus!
