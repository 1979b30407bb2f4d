use buildit::executor::{JobHandle, JobSpec, JobStatus, ResourceRequirements};
use buildit::ids::ResourceId;
use buildit::kubernetes::{job_name, parse_log_line};
use buildit::strmap::StrMap;
use buildit::time::Timestamp;
use chrono::Datelike;
use buildit::kubernetes::{k8s_job_status, JobCondition, K8sJobState};
use buildit::kubernetes::plan_k8s_job;
use buildit::kubernetes::{finished_job_result, watch_step, JobWatchEvent, WatchStep};
use buildit::errors::Error;

fn utc_now() -> Timestamp {
    let now = chrono::Utc::now();
    Timestamp { secs: now.timestamp(), nanos: now.timestamp_subsec_nanos() }
}

fn make_test_spec() -> JobSpec {
    JobSpec {
        id: ResourceId::new(),
        image: "alpine:latest".to_string(),
        command: vec!["echo".to_string(), "hello".to_string()],
        working_dir: Some("/workspace".to_string()),
        env: {
            let mut env = StrMap::new();
            env.insert("FOO".to_string(), "bar".to_string());
            env.insert("BAZ".to_string(), "qux".to_string());
            env
        },
        resources: ResourceRequirements {
            cpu_limit: Some("1".to_string()),
            memory_limit: Some("512Mi".to_string()),
            cpu_request: Some("100m".to_string()),
            memory_request: Some("128Mi".to_string()),
        },
        timeout: None,
        volumes: vec![],
        git_clone: None,
    }
}

fn utc_date(t: Timestamp) -> chrono::DateTime<chrono::Utc> {
    chrono::DateTime::from_timestamp(t.secs, t.nanos).unwrap()
}

#[test]
fn test_job_name_generation() {
    let id = ResourceId::new();
    let name = job_name(&id);

    assert!(name.starts_with("buildit-job-"));
    assert!(name.len() <= 63); // K8s name limit
    assert!(
        name.chars()
            .all(|c| c.is_ascii_lowercase() || c.is_ascii_digit() || c == '-')
    );
}

#[test]
fn test_job_name_is_deterministic() {
    let id = ResourceId::new();
    let name1 = job_name(&id);
    let name2 = job_name(&id);
    assert_eq!(name1, name2);
}

#[test]
fn test_job_name_unique_per_id() {
    let id1 = ResourceId::new();
    let id2 = ResourceId::new();
    let name1 = job_name(&id1);
    let name2 = job_name(&id2);
    assert_ne!(name1, name2);
}

#[test]
fn test_job_spec_validation() {
    let spec = make_test_spec();

    assert!(!spec.command.is_empty());
    assert_eq!(spec.image, "alpine:latest");
    assert_eq!(spec.working_dir, Some("/workspace".to_string()));
    assert_eq!(spec.env.get("FOO"), Some(&"bar".to_string()));
    assert_eq!(spec.resources.cpu_limit, Some("1".to_string()));
    assert_eq!(spec.resources.memory_limit, Some("512Mi".to_string()));
}

#[test]
fn kubernetes_test_empty_command_spec() {
    let spec = JobSpec {
        id: ResourceId::new(),
        image: "alpine:latest".to_string(),
        command: vec![],
        working_dir: None,
        env: StrMap::new(),
        resources: ResourceRequirements::default(),
        timeout: None,
        volumes: vec![],
        git_clone: None,
    };

    assert!(spec.command.is_empty());
    assert!(spec.working_dir.is_none());
    assert!(spec.env.is_empty());
}

#[test]
fn test_resource_requirements_default() {
    let resources = ResourceRequirements::default();

    assert!(resources.cpu_limit.is_none());
    assert!(resources.memory_limit.is_none());
    assert!(resources.cpu_request.is_none());
    assert!(resources.memory_request.is_none());
}

#[test]
fn test_log_timestamp_parsing() {
    // Test the timestamp parsing logic used in logs()
    let content = "2024-01-15T10:30:45.123456789Z Hello, World!";

    let (timestamp, message) = parse_log_line(content, utc_now());

    assert_eq!(message, "Hello, World!");
    let timestamp = utc_date(timestamp);
    assert_eq!(timestamp.year(), 2024);
    assert_eq!(timestamp.month(), 1);
    assert_eq!(timestamp.day(), 15);
}

#[test]
fn test_log_timestamp_parsing_no_timestamp() {
    let content = "Just a plain log line";

    let (_, message) = parse_log_line(content, utc_now());

    assert_eq!(message, "Just a plain log line");
}

#[test]
fn test_job_handle_creation() {
    let id = ResourceId::new();
    let handle = JobHandle {
        id: id.clone(),
        executor_id: "test-uid-12345".to_string(),
        executor_name: "kubernetes".to_string(),
    };

    assert_eq!(handle.id, id);
    assert_eq!(handle.executor_id, "test-uid-12345");
    assert_eq!(handle.executor_name, "kubernetes");
}

#[test]
fn test_job_status_is_terminal() {
    assert!(!JobStatus::Pending.is_terminal());
    assert!(
        !JobStatus::Running {
            started_at: utc_now()
        }
        .is_terminal()
    );

    assert!(
        JobStatus::Succeeded {
            started_at: utc_now(),
            finished_at: utc_now(),
        }
        .is_terminal()
    );

    assert!(
        JobStatus::Failed {
            started_at: Some(utc_now()),
            finished_at: utc_now(),
            exit_code: Some(1),
            message: "test".to_string(),
        }
        .is_terminal()
    );

    assert!(
        JobStatus::Cancelled {
            started_at: Some(utc_now()),
            cancelled_at: utc_now(),
        }
        .is_terminal()
    );
}

#[test]
fn job_plan_carries_spec_and_labels() {
    let spec = make_test_spec();
    let mut labels = StrMap::new();
    labels.insert("app".to_string(), "buildit".to_string());
    let p = plan_k8s_job(&spec, "ci", &labels);
    assert_eq!(p.name, job_name(&spec.id));
    assert_eq!(p.namespace, "ci");
    assert_eq!(p.labels.get("app").map(|s| s.as_str()), Some("buildit"));
    assert_eq!(p.labels.get("buildit.io/job-id"), Some(&spec.id.to_string()));
    assert_eq!(p.backoff_limit, 0);
    assert_eq!(p.ttl_seconds_after_finished, 3600);
    assert_eq!(p.restart_policy, "Never");
    assert_eq!(p.container.name, "job");
    assert_eq!(p.container.image, "alpine:latest");
    assert_eq!(p.container.image_pull_policy, "IfNotPresent");
    assert_eq!(p.container.command, Some(vec!["echo".to_string(), "hello".to_string()]));
    assert_eq!(p.container.working_dir.as_deref(), Some("/workspace"));
    assert_eq!(
        p.container.env,
        Some(vec![("FOO".to_string(), "bar".to_string()), ("BAZ".to_string(), "qux".to_string())])
    );
    let r = p.container.resources.unwrap();
    assert_eq!(r.requests, Some(vec![("cpu".to_string(), "100m".to_string()), ("memory".to_string(), "128Mi".to_string())]));
    assert_eq!(r.limits, Some(vec![("cpu".to_string(), "1".to_string()), ("memory".to_string(), "512Mi".to_string())]));
    let mut bare = make_test_spec();
    bare.command = vec![];
    bare.env = StrMap::new();
    bare.resources = ResourceRequirements::default();
    let p = plan_k8s_job(&bare, "ci", &StrMap::new());
    assert!(p.container.command.is_none());
    assert!(p.container.env.is_none());
    assert!(p.container.resources.is_none());
}

#[test]
fn job_states_read_as_job_statuses() {
    let now = Timestamp { secs: 50, nanos: 0 };
    let t1 = Timestamp { secs: 1, nanos: 0 };
    let t2 = Timestamp { secs: 2, nanos: 0 };
    let st = |a, s, f, start, done, conditions| K8sJobState {
        active: a,
        succeeded: s,
        failed: f,
        start_time: start,
        completion_time: done,
        conditions,
    };
    let s = k8s_job_status(&st(Some(1), Some(1), Some(1), Some(t1), Some(t2), None), now);
    assert!(matches!(s, JobStatus::Succeeded { started_at, finished_at } if started_at == t1 && finished_at == t2));
    let conditions = vec![
        JobCondition { type_: "Complete".to_string(), message: Some("no".to_string()) },
        JobCondition { type_: "Failed".to_string(), message: Some("BackoffLimitExceeded".to_string()) },
    ];
    match k8s_job_status(&st(None, None, Some(1), Some(t1), None, Some(conditions)), now) {
        JobStatus::Failed { started_at, finished_at, exit_code, message } => {
            assert_eq!(started_at, Some(t1));
            assert_eq!(finished_at, now);
            assert!(exit_code.is_none());
            assert_eq!(message, "BackoffLimitExceeded");
        }
        _ => panic!("expected a failure"),
    }
    match k8s_job_status(&st(None, None, Some(1), None, None, None), now) {
        JobStatus::Failed { message, .. } => assert_eq!(message, "Job failed"),
        _ => panic!("expected a failure"),
    }
    let s = k8s_job_status(&st(Some(2), None, None, None, None, None), now);
    assert!(matches!(s, JobStatus::Running { started_at } if started_at == now));
    let s = k8s_job_status(&st(None, None, None, None, None, None), now);
    assert!(matches!(s, JobStatus::Pending));
    let s = k8s_job_status(&st(None, None, None, Some(t1), None, None), now);
    assert!(matches!(s, JobStatus::Running { started_at } if started_at == t1));
}

#[test]
fn waiting_on_job_watch_events() {
    let applied = |s, f| JobWatchEvent::Applied { succeeded: s, failed: f };
    assert!(matches!(watch_step(&applied(None, None)), WatchStep::KeepWaiting));
    assert!(matches!(watch_step(&applied(Some(0), Some(0))), WatchStep::KeepWaiting));
    assert!(matches!(watch_step(&applied(Some(1), None)), WatchStep::Finished));
    assert!(matches!(watch_step(&applied(None, Some(2))), WatchStep::Finished));
    assert!(matches!(watch_step(&JobWatchEvent::Listing), WatchStep::KeepWaiting));
    assert!(matches!(watch_step(&JobWatchEvent::WatchFailed), WatchStep::KeepWaiting));
    match watch_step(&JobWatchEvent::Deleted) {
        WatchStep::Fail(Error::ExecutionFailed(m)) => assert_eq!(m, "Job was deleted"),
        _ => panic!("expected a failure"),
    }
    let r = finished_job_result(JobStatus::Pending, Some(137));
    assert_eq!(r.exit_code, Some(137));
    assert!(r.artifacts.is_empty());
}
