use buildit::application::{orphaned_resources, ApplicationResource, HealthStatus, ResourceStatus};
use buildit::ids::ResourceId;
use buildit::time::Timestamp;

fn resource(kind: &str, name: &str, namespace: &str) -> ApplicationResource {
    ApplicationResource {
        id: ResourceId::new(),
        application_id: ResourceId::from_uuid(1),
        api_group: "apps".to_string(),
        api_version: "apps/v1".to_string(),
        kind: kind.to_string(),
        name: name.to_string(),
        namespace: namespace.to_string(),
        status: ResourceStatus::Synced,
        health_status: HealthStatus::Healthy,
        out_of_sync: false,
        desired_state: None,
        live_state: None,
        diff: None,
        created_at: Timestamp { secs: 0, nanos: 0 },
        updated_at: Timestamp { secs: 0, nanos: 0 },
    }
}

fn key(kind: &str, name: &str, namespace: &str) -> (String, String, String) {
    (kind.to_string(), name.to_string(), namespace.to_string())
}

#[test]
fn resources_not_kept_are_orphaned() {
    let existing = vec![
        resource("Deployment", "web", "prod"),
        resource("Service", "web", "prod"),
        resource("Deployment", "web", "staging"),
    ];
    let keep = vec![key("Deployment", "web", "prod"), key("ConfigMap", "cfg", "prod")];
    assert_eq!(orphaned_resources(&existing, &keep), vec![existing[1].id, existing[2].id]);
    let all_kept = vec![key("Service", "web", "prod"), key("Deployment", "web", "prod"), key("Deployment", "web", "staging")];
    assert!(orphaned_resources(&existing, &all_kept).is_empty());
    let ids: Vec<ResourceId> = existing.iter().map(|r| r.id).collect();
    assert_eq!(orphaned_resources(&existing, &vec![]), ids);
}
