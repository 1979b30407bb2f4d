use buildit::application::{HealthStatus, SyncPolicy, SyncStatus};
use buildit::config::parse_pipeline;
use buildit::docker::container_name;
use buildit::errors::{ApiError, Error};
use buildit::git::GitService;
use buildit::ids::ResourceId;
use buildit::kubernetes::job_name;
use buildit::order::{lex_less, sorted_unique};
use buildit::repository::GitProvider;
use buildit::stack::{StackRunStatus, StackRunType, StackStatus, StackTriggerType};
use buildit::variables::{VariableContext, VariableContextBuilder};
use buildit::webhooks::{matches_branch_pattern, verify_github_signature};
use hmac::Mac;

fn lower_hex(bytes: &[u8]) -> String {
    bytes.iter().map(|b| format!("{:02x}", b)).collect()
}

fn github_signature(secret: &str, body: &[u8]) -> String {
    let mut mac = hmac::Hmac::<sha2::Sha256>::new_from_slice(secret.as_bytes()).unwrap();
    mac.update(body);
    format!("sha256={}", lower_hex(&mac.finalize().into_bytes()))
}

#[test]
fn law_stack_names_round_trip() {
    for s in [
        StackStatus::Pending,
        StackStatus::Initializing,
        StackStatus::Ready,
        StackStatus::Error,
    ] {
        assert_eq!(StackStatus::from_db_str(s.as_str()), s);
    }
    for t in [StackRunType::Plan, StackRunType::Apply, StackRunType::Destroy, StackRunType::Refresh] {
        assert_eq!(StackRunType::from_db_str(t.as_str()), Some(t));
    }
    for t in [
        StackTriggerType::Manual,
        StackTriggerType::Webhook,
        StackTriggerType::Drift,
        StackTriggerType::Scheduled,
    ] {
        assert_eq!(StackTriggerType::from_db_str(t.as_str()), t);
    }
    assert_eq!(StackRunStatus::from_db_str(StackRunStatus::NeedsApproval.as_str()), StackRunStatus::NeedsApproval);
    assert_eq!(StackRunStatus::NeedsApproval.as_str(), "needs_approval");
}

#[test]
fn law_application_names_round_trip() {
    for p in [SyncPolicy::Manual, SyncPolicy::Auto] {
        assert_eq!(SyncPolicy::from_db_str(p.as_str()), p);
    }
    for s in [SyncStatus::Synced, SyncStatus::OutOfSync, SyncStatus::Unknown] {
        assert_eq!(SyncStatus::from_db_str(s.as_str()), s);
    }
    assert_eq!(HealthStatus::from_db_str(HealthStatus::Degraded.as_str()), HealthStatus::Degraded);
}

#[test]
fn law_git_provider_round_trip() {
    for p in [GitProvider::Github, GitProvider::Gitlab, GitProvider::Bitbucket] {
        assert_eq!(GitProvider::parse_name(p.as_str()), Ok(p));
    }
    assert_eq!(GitProvider::parse_name("GitHub"), Ok(GitProvider::Github));
    assert_eq!(GitProvider::parse_name("svn"), Err("Unknown git provider: svn".to_string()));
}

#[test]
fn law_names_distinct_per_job() {
    let a = ResourceId::from_uuid(1);
    let b = ResourceId::from_uuid(2);
    assert_ne!(container_name(&a), container_name(&b));
    assert_ne!(job_name(&a), job_name(&b));
    assert_eq!(container_name(&a), "buildit-job-00000000-0000-0000-0000-000000000001");
    assert_eq!(job_name(&b), "buildit-job-00000000-0000-0000-0000-000000000002");
}

#[test]
fn law_core_error_status() {
    assert_eq!(ApiError::from_core(Error::NotFound("x".to_string())).status_code(), 404);
    assert_eq!(ApiError::from_core(Error::InvalidInput("x".to_string())).status_code(), 400);
    assert_eq!(ApiError::from_core(Error::Unauthorized("x".to_string())).status_code(), 401);
    assert_eq!(ApiError::from_core(Error::Forbidden("x".to_string())).status_code(), 403);
    assert_eq!(ApiError::from_core(Error::Conflict("x".to_string())).status_code(), 409);
    let e = ApiError::from_core(Error::Timeout("slow".to_string()));
    assert_eq!(e.status_code(), 500);
    assert_eq!(e.message(), "timeout: slow");
    assert_eq!(ApiError::from_core(Error::Cancelled).message(), "cancelled");
}

#[test]
fn law_manifest_needs_api_version() {
    assert!(GitService::looks_like_k8s_manifest("apiVersion: v1\nkind: Service\n"));
    assert!(!GitService::looks_like_k8s_manifest("kind: Deployment\nmetadata:\n"));
    // "apiVersion:" is one of the indicators itself.
    assert!(GitService::looks_like_k8s_manifest("apiVersion: v1\nname: x\n"));
}

#[test]
fn law_sorted_unique_is_strictly_sorted() {
    let v = vec!["b".to_string(), "a".to_string(), "b".to_string(), "ab".to_string()];
    let r = sorted_unique(&v);
    assert_eq!(r, vec!["a".to_string(), "ab".to_string(), "b".to_string()]);
    assert!(lex_less("a", "ab"));
    assert!(!lex_less("b", "b"));
    assert!(lex_less("B", "a"));
}

#[test]
fn law_cycle_is_reported_with_its_edge() {
    let kdl = r#"
        pipeline "cyclic"
        stage "a" needs="b" {
            image "alpine"
            run "echo a"
        }
        stage "b" needs="a" {
            image "alpine"
            run "echo b"
        }
    "#;
    match parse_pipeline(kdl) {
        Err(buildit::config::ConfigError::CycleDetected(m)) => {
            assert_eq!(m, "b -> a");
        }
        _ => panic!("expected a cycle"),
    }
    let inner = r#"
        pipeline "inner"
        stage "a" needs="b" {
            image "alpine"
            run "echo a"
        }
        stage "b" needs="c" {
            image "alpine"
            run "echo b"
        }
        stage "c" needs="b" {
            image "alpine"
            run "echo c"
        }
    "#;
    match parse_pipeline(inner) {
        Err(buildit::config::ConfigError::CycleDetected(m)) => assert_eq!(m, "c -> b"),
        _ => panic!("expected a cycle"),
    }
    let acyclic = r#"
        pipeline "chain"
        stage "a" {
            image "alpine"
            run "echo a"
        }
        stage "b" needs="a" {
            image "alpine"
            run "echo b"
        }
    "#;
    assert!(parse_pipeline(acyclic).is_ok());
}

#[test]
fn law_unset_references_kept() {
    let ctx = VariableContext::new();
    let text = "a ${env.NOPE} b ${unknown.x} ${custom} {\"k\": 1}";
    assert_eq!(ctx.interpolate(text), text);
    let ctx = VariableContextBuilder::new().with_env("X", "1").build();
    assert_eq!(ctx.interpolate("${env.X}${env.Y}"), "1${env.Y}");
}

#[test]
fn law_pattern_basics() {
    assert!(matches_branch_pattern("feature/x", &["*"]));
    assert!(matches_branch_pattern("", &["*"]));
    assert!(matches_branch_pattern("main", &["main"]));
    assert!(!matches_branch_pattern("main2", &["main"]));
    assert!(matches_branch_pattern("release/1.0", &["release/*"]));
    assert!(!matches_branch_pattern("hotfix/1.0", &["release/*", "main"]));
    assert!(!matches_branch_pattern("aba", &["ab*ba"]));
    assert!(matches_branch_pattern("abba", &["ab*ba"]));
    assert!(matches_branch_pattern("ab-x-ba", &["ab*ba"]));
    assert!(!matches_branch_pattern("develop", &["main", "release/*"]));
    assert!(!matches_branch_pattern("main", &[]));
}

#[test]
fn law_github_signature_accepted() {
    let secret = "s3cr3t";
    let body = br#"{"ref":"refs/heads/main"}"#;
    let sig = github_signature(secret, body);
    assert!(verify_github_signature(secret, body, Some(&sig)));
    // Upper-case hex decodes to the same tag.
    let upper = format!("sha256={}", sig["sha256=".len()..].to_uppercase());
    assert!(verify_github_signature(secret, body, Some(&upper)));
    // Another secret, another body, a missing prefix or header are refused.
    assert!(!verify_github_signature("other", body, Some(&sig)));
    assert!(!verify_github_signature(secret, b"{}", Some(&sig)));
    assert!(!verify_github_signature(secret, body, Some(&sig["sha256=".len()..])));
    assert!(!verify_github_signature(secret, body, Some("sha256=zz")));
    assert!(!verify_github_signature(secret, body, None));
}
