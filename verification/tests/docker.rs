use buildit::docker::container_name;
use buildit::executor::{JobHandle, JobResult, JobSpec, JobStatus, LogLine, LogStream, ResourceRequirements};
use buildit::ids::ResourceId;
use buildit::strmap::StrMap;
use buildit::time::Timestamp;
use buildit::docker::{container_status, ContainerStateData};

fn utc_now() -> Timestamp {
    let now = chrono::Utc::now();
    Timestamp { secs: now.timestamp(), nanos: now.timestamp_subsec_nanos() }
}

fn make_test_spec() -> JobSpec {
    JobSpec {
        id: ResourceId::new(),
        image: "alpine:latest".to_string(),
        command: vec!["echo".to_string(), "hello".to_string()],
        working_dir: Some("/workspace".to_string()),
        env: {
            let mut env = StrMap::new();
            env.insert("FOO".to_string(), "bar".to_string());
            env
        },
        resources: ResourceRequirements::default(),
        timeout: None,
        volumes: vec![],
        git_clone: None,
    }
}

#[test]
fn test_container_name_generation() {
    let id = ResourceId::new();
    let name = container_name(&id);

    assert!(name.starts_with("buildit-job-"));
    assert!(name.len() > 12); // "buildit-job-" + UUID
}

#[test]
fn test_container_name_is_deterministic() {
    let id = ResourceId::new();
    let name1 = container_name(&id);
    let name2 = container_name(&id);
    assert_eq!(name1, name2);
}

#[test]
fn test_container_name_unique_per_id() {
    let id1 = ResourceId::new();
    let id2 = ResourceId::new();
    let name1 = container_name(&id1);
    let name2 = container_name(&id2);
    assert_ne!(name1, name2);
}

#[test]
fn test_job_spec_structure() {
    let spec = make_test_spec();

    assert_eq!(spec.image, "alpine:latest");
    assert_eq!(spec.command, vec!["echo", "hello"]);
    assert_eq!(spec.working_dir, Some("/workspace".to_string()));
    assert_eq!(spec.env.get("FOO"), Some(&"bar".to_string()));
}

#[test]
fn docker_test_empty_command_spec() {
    let spec = JobSpec {
        id: ResourceId::new(),
        image: "alpine:latest".to_string(),
        command: vec![],
        working_dir: None,
        env: StrMap::new(),
        resources: ResourceRequirements::default(),
        timeout: None,
        volumes: vec![],
        git_clone: None,
    };

    assert!(spec.command.is_empty());
    assert!(spec.working_dir.is_none());
}

#[test]
fn test_job_handle_structure() {
    let id = ResourceId::new();
    let handle = JobHandle {
        id: id.clone(),
        executor_id: "container-abc123".to_string(),
        executor_name: "docker".to_string(),
    };

    assert_eq!(handle.id, id);
    assert_eq!(handle.executor_id, "container-abc123");
    assert_eq!(handle.executor_name, "docker");
}

#[test]
fn test_job_status_variants() {
    // Test Pending
    let pending = JobStatus::Pending;
    assert!(!pending.is_terminal());

    // Test Running
    let running = JobStatus::Running {
        started_at: utc_now(),
    };
    assert!(!running.is_terminal());

    // Test Succeeded
    let succeeded = JobStatus::Succeeded {
        started_at: utc_now(),
        finished_at: utc_now(),
    };
    assert!(succeeded.is_terminal());

    // Test Failed
    let failed = JobStatus::Failed {
        started_at: Some(utc_now()),
        finished_at: utc_now(),
        exit_code: Some(1),
        message: "Command failed".to_string(),
    };
    assert!(failed.is_terminal());

    // Test Cancelled
    let cancelled = JobStatus::Cancelled {
        started_at: Some(utc_now()),
        cancelled_at: utc_now(),
    };
    assert!(cancelled.is_terminal());
}

#[test]
fn test_log_line_structure() {
    let log = LogLine {
        timestamp: utc_now(),
        stream: LogStream::Stdout,
        content: "Hello, World!".to_string(),
    };

    assert_eq!(log.content, "Hello, World!");
    assert!(matches!(log.stream, LogStream::Stdout));
}

#[test]
fn test_log_stream_variants() {
    let stdout = LogStream::Stdout;
    let stderr = LogStream::Stderr;
    let system = LogStream::System;

    // Just verify they exist and are different
    assert!(matches!(stdout, LogStream::Stdout));
    assert!(matches!(stderr, LogStream::Stderr));
    assert!(matches!(system, LogStream::System));
}

#[test]
fn test_job_result_structure() {
    let result = JobResult {
        status: JobStatus::Succeeded {
            started_at: utc_now(),
            finished_at: utc_now(),
        },
        exit_code: Some(0),
        artifacts: vec![],
    };

    assert_eq!(result.exit_code, Some(0));
    assert!(result.artifacts.is_empty());
    assert!(result.status.is_terminal());
}

#[test]
fn container_plan_for_a_plain_job() {
    let spec = make_test_spec();
    let p = buildit::docker::plan_container(&spec);
    assert_eq!(p.name, container_name(&spec.id));
    assert_eq!(p.image, "alpine:latest");
    assert_eq!(p.cmd, Some(vec!["echo".to_string(), "hello".to_string()]));
    assert_eq!(p.env, vec!["FOO=bar".to_string()]);
    assert_eq!(p.working_dir.as_deref(), Some("/workspace"));
    assert!(p.binds.is_none());
}

#[test]
fn container_plan_with_clone_and_volumes() {
    let mut spec = make_test_spec();
    spec.command = vec!["make".to_string(), "make test".to_string()];
    spec.volumes = vec![
        buildit::executor::VolumeMount { name: "cache".to_string(), mount_path: "/cache".to_string(), read_only: false },
        buildit::executor::VolumeMount { name: "cfg".to_string(), mount_path: "/etc/cfg".to_string(), read_only: true },
    ];
    spec.git_clone = Some(buildit::executor::GitCloneSpec {
        url: "https://github.com/acme/app.git".to_string(),
        branch: Some("main".to_string()),
        sha: Some("abc123".to_string()),
        target_dir: "/src".to_string(),
        depth: Some(1),
        access_token: Some("tok".to_string()),
    });
    let p = buildit::docker::plan_container(&spec);
    let script = "git clone --depth 1 -b main https://tok@github.com/acme/app.git /src && git checkout abc123 && cd /src && make && make test";
    assert_eq!(p.cmd, Some(vec!["sh".to_string(), "-c".to_string(), script.to_string()]));
    assert_eq!(p.working_dir.as_deref(), Some("/src"));
    assert_eq!(p.binds, Some(vec!["cache:/cache:rw".to_string(), "cfg:/etc/cfg:ro".to_string()]));
    spec.command = vec![];
    let p = buildit::docker::plan_container(&spec);
    let script = "git clone --depth 1 -b main https://tok@github.com/acme/app.git /src && git checkout abc123";
    assert_eq!(p.cmd, Some(vec!["sh".to_string(), "-c".to_string(), script.to_string()]));
}

#[test]
fn container_states_read_as_job_statuses() {
    let now = Timestamp { secs: 100, nanos: 0 };
    let state = |running, paused, exit_code, started: Option<&str>, finished: Option<&str>, error: Option<&str>| ContainerStateData {
        running,
        paused,
        exit_code,
        started_at: started.map(String::from),
        finished_at: finished.map(String::from),
        error: error.map(String::from),
    };
    let t10 = Timestamp { secs: 1_704_067_210, nanos: 0 };
    let t20 = Timestamp { secs: 1_704_067_220, nanos: 0 };
    let s = container_status(&state(Some(true), None, None, Some("2024-01-01T00:00:10Z"), None, None), now);
    assert!(matches!(s, JobStatus::Running { started_at } if started_at == t10));
    let s = container_status(&state(Some(false), Some(true), None, None, None, None), now);
    assert!(matches!(s, JobStatus::Pending));
    let s = container_status(
        &state(Some(false), None, Some(0), Some("2024-01-01T00:00:10Z"), Some("2024-01-01T00:00:20Z"), None),
        now,
    );
    assert!(matches!(s, JobStatus::Succeeded { started_at, finished_at } if started_at == t10 && finished_at == t20));
    let s = container_status(&state(None, None, Some(2), None, Some("garbage"), Some("oom")), now);
    match s {
        JobStatus::Failed { started_at, finished_at, exit_code, message } => {
            assert!(started_at.is_none());
            assert_eq!(finished_at, now);
            assert_eq!(exit_code, Some(2));
            assert_eq!(message, "oom");
        }
        _ => panic!("expected a failure"),
    }
}
