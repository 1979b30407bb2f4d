use buildit::api::{RepositoryResponse, StackResponse, StackRunResponse};
use buildit::ids::ResourceId;
use buildit::json::JsonValue;
use buildit::repository::{DetectedConfig, GitProvider, Repository};
use buildit::stack::{Stack, StackRun, StackRunStatus, StackRunType, StackStatus, StackTriggerType};
use buildit::time::{rfc3339_of, Timestamp};

fn at(secs: i64, nanos: u32) -> Timestamp {
    Timestamp { secs, nanos }
}

#[test]
fn rfc3339_texts() {
    assert_eq!(rfc3339_of(Some(at(1_705_314_645, 0))).as_deref(), Some("2024-01-15T10:30:45+00:00"));
    assert_eq!(rfc3339_of(Some(at(0, 500_000_000))).as_deref(), Some("1970-01-01T00:00:00.500+00:00"));
    assert_eq!(rfc3339_of(None), None);
    assert_eq!(rfc3339_of(Some(at(i64::MAX, 0))), None);
}

#[test]
fn stack_as_shown() {
    let id = ResourceId::new();
    let stack = Stack {
        id,
        tenant_id: ResourceId::new(),
        repository_id: None,
        name: "network".to_string(),
        description: Some("VPC".to_string()),
        path: "infra/network".to_string(),
        terraform_version: "1.5.0".to_string(),
        auto_apply: false,
        working_directory: None,
        var_file: None,
        backend_config: JsonValue::Null,
        environment_variables: JsonValue::Null,
        status: StackStatus::Ready,
        last_run_at: Some(at(1_705_314_645, 0)),
        created_at: at(0, 0),
        updated_at: at(0, 0),
    };
    let r = StackResponse::from_stack(stack);
    assert_eq!(r.id, id);
    assert_eq!(r.name, "network");
    assert_eq!(r.description.as_deref(), Some("VPC"));
    assert_eq!(r.path, "infra/network");
    assert_eq!(r.terraform_version, "1.5.0");
    assert!(!r.auto_apply);
    assert_eq!(r.status, "ready");
    assert_eq!(r.last_run_at.as_deref(), Some("2024-01-15T10:30:45+00:00"));
}

#[test]
fn stack_run_as_shown() {
    let run = StackRun {
        id: ResourceId::new(),
        stack_id: ResourceId::new(),
        run_type: StackRunType::Destroy,
        status: StackRunStatus::NeedsApproval,
        triggered_by: None,
        trigger_type: StackTriggerType::Webhook,
        commit_sha: None,
        plan_output: None,
        plan_json: None,
        apply_output: None,
        resources_to_add: 1,
        resources_to_change: 2,
        resources_to_destroy: 3,
        approved_by: None,
        approved_at: None,
        started_at: Some(at(60, 0)),
        finished_at: None,
        error_message: Some("boom".to_string()),
        created_at: at(0, 0),
    };
    let r = StackRunResponse::from_run(run);
    assert_eq!(r.run_type, "destroy");
    assert_eq!(r.status, "needs_approval");
    assert_eq!(r.trigger_type, "webhook");
    assert_eq!((r.resources_to_add, r.resources_to_change, r.resources_to_destroy), (1, 2, 3));
    assert_eq!(r.started_at.as_deref(), Some("1970-01-01T00:01:00+00:00"));
    assert!(r.finished_at.is_none());
    assert_eq!(r.error_message.as_deref(), Some("boom"));
}

#[test]
fn repository_as_shown() {
    let repo = Repository {
        id: ResourceId::new(),
        organization_id: ResourceId::new(),
        provider: GitProvider::Gitlab,
        provider_id: "42".to_string(),
        owner: "team".to_string(),
        name: "svc".to_string(),
        full_name: "team/svc".to_string(),
        clone_url: "https://gitlab.com/team/svc.git".to_string(),
        default_branch: "main".to_string(),
        is_private: true,
        webhook_id: None,
        webhook_secret: None,
        last_synced_at: None,
        detected_config: DetectedConfig::new(),
        created_at: at(0, 0),
        updated_at: at(0, 0),
    };
    let r = RepositoryResponse::from_repository(repo);
    assert_eq!(r.provider, "gitlab");
    assert_eq!(r.full_name, "team/svc");
    assert_eq!(r.clone_url, "https://gitlab.com/team/svc.git");
    assert!(r.is_private);
    assert!(r.last_synced_at.is_none());
    assert!(r.detected_config.buildit_config.is_none());
}

#[test]
fn nothing_detected_by_default() {
    let d = DetectedConfig::default();
    assert!(d.buildit_config.is_none());
    assert!(d.terraform_files.is_empty() && d.terraform_dirs.is_empty());
    assert!(d.kubernetes_files.is_empty() && d.kubernetes_dirs.is_empty());
    assert!(d.dockerfiles.is_empty() && d.helm_charts.is_empty() && d.other_files.is_empty());
}

#[test]
fn repository_webhook_address() {
    assert_eq!(
        buildit::views::webhook_url("550e8400-e29b-41d4-a716-446655440000"),
        "https://api.buildit.dev/webhooks/github/550e8400-e29b-41d4-a716-446655440000"
    );
}
