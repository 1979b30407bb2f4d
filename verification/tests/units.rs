use buildit::api::{
    ExecutorType, GitHubStatusResponse, RepoResponse, ReposQuery, SetVariableRequest, StackVariableResponse,
    TriggerRunApiRequest,
};
use buildit::config::{parse_pipeline, ConfigError};
use buildit::errors::ApiError;
use buildit::git::{repo_dir_name, GitService};
use buildit::github::{filter_repos, GitHubConfig, GitHubRepo, RepoOwner};
use buildit::ids::ResourceId;
use buildit::json::{json_get, json_str_at, JsonValue};
use buildit::stack::StackRunType;
use buildit::stack_runner::parse_plan_summary;
use buildit::system::parse_system_config;
use buildit::terraform::{join_lines, TerraformError, TerraformService};
use buildit::time::Timestamp;
use buildit::ui::{capitalize_first, compute_dag_layout, time_ago_label, StageView};
use buildit::webhooks::{parse_webhook_payload, payload_repository_name};
use buildit::api::{BroadcastEvent, Subscriptions};
use buildit::stack_runner::StackRunnerConfig;
use buildit::pipeline::select_stages;
use buildit::docker::{docker_log_line, finished_result, waited_result, DockerOutput};
use buildit::executor::{JobStatus, LogStream};
use buildit::kubernetes::can_cut_log_line;
use buildit::pipeline::finished_run_status;
use buildit::repository::{connection_details, GitProvider};
use buildit::webhooks::{manual_git_info, manual_trigger_info};
use buildit::git::GitError;
use buildit::git::{scan_tree, FsEntry};
use buildit::github::{check_token, GitHubError, TokenResponse};
use buildit::stack_runner::StackRunnerError;
use buildit::deployer::DeploymentStrategy;
use buildit::github::{hooks_url, repo_url};
use buildit::stack_runner::{build_plan_commands, build_terraform_job_spec, terraform_run_succeeded};

fn stage(name: &str, deps: &[&str]) -> StageView {
    StageView {
        name: name.to_string(),
        status: "pending".to_string(),
        duration: "-".to_string(),
        dependencies: deps.iter().map(|d| d.to_string()).collect(),
        column: 0,
        row: 0,
        x: 0,
        y: 0,
    }
}

fn repo(name: &str, full_name: &str) -> GitHubRepo {
    GitHubRepo {
        id: 7,
        name: name.to_string(),
        full_name: full_name.to_string(),
        owner: RepoOwner { login: "octo".to_string(), id: 1, avatar_url: String::new() },
        private: false,
        html_url: String::new(),
        clone_url: format!("https://github.com/{}.git", full_name),
        default_branch: "main".to_string(),
        description: None,
        language: Some("Rust".to_string()),
        updated_at: "2024-01-01T00:00:00Z".to_string(),
    }
}

#[test]
fn dag_layout_of_a_chain() {
    let mut stages = vec![stage("a", &[]), stage("b", &["a"])];
    let (edges, width, height) = compute_dag_layout(&mut stages);
    assert_eq!((stages[0].x, stages[0].y), (40, 40));
    assert_eq!((stages[1].x, stages[1].y), (280, 40));
    assert_eq!((width, height), (460, 160));
    assert_eq!(edges.len(), 1);
    assert_eq!((edges[0].from_x, edges[0].from_y, edges[0].to_x, edges[0].to_y), (180, 70, 280, 70));
    assert_eq!(edges[0].control_offset, 0);
    assert_eq!(edges[0].from_name, "a");
    assert_eq!(edges[0].to_name, "b");
}

#[test]
fn dag_layout_of_a_diamond() {
    let mut stages = vec![stage("a", &[]), stage("b", &["a"]), stage("c", &["a"]), stage("d", &["b", "c"])];
    let (edges, width, height) = compute_dag_layout(&mut stages);
    let pos: Vec<(i32, i32)> = stages.iter().map(|s| (s.x, s.y)).collect();
    assert_eq!(pos, vec![(40, 95), (280, 40), (280, 150), (520, 95)]);
    assert_eq!((width, height), (700, 250));
    assert_eq!(edges.len(), 4);
    assert_eq!(edges[0].control_offset, -20);
    assert_eq!(edges[1].control_offset, 0);
    assert_eq!(edges[2].control_offset, 0);
    assert_eq!(edges[3].control_offset, 0);
    assert_eq!((edges[0].from_x, edges[0].from_y, edges[0].to_x, edges[0].to_y), (180, 125, 280, 70));
}

#[test]
fn arrows_leaving_one_stage_are_spread() {
    let mut stages = vec![stage("a", &[]), stage("b", &["a"]), stage("c", &[]), stage("d", &["a"]), stage("e", &["c", "a"])];
    let (edges, _, _) = compute_dag_layout(&mut stages);
    let from_a: Vec<i32> = edges.iter().filter(|e| e.from_name == "a").map(|e| e.control_offset).collect();
    assert_eq!(from_a, vec![-20, 0, 20]);
    let from_c: Vec<i32> = edges.iter().filter(|e| e.from_name == "c").map(|e| e.control_offset).collect();
    assert_eq!(from_c, vec![0]);
}

#[test]
fn dag_layout_of_a_cycle() {
    let mut stages = vec![stage("a", &["b"]), stage("b", &["a"])];
    let (edges, width, height) = compute_dag_layout(&mut stages);
    assert_eq!((stages[0].x, stages[0].y), (520, 40));
    assert_eq!((stages[1].x, stages[1].y), (280, 40));
    assert_eq!((width, height), (700, 160));
    assert_eq!(edges.len(), 2);
    let mut stages = vec![stage("a", &["a"]), stage("b", &["a", "zzz"])];
    let (edges, width, _) = compute_dag_layout(&mut stages);
    assert_eq!(stages[0].x, 280);
    assert_eq!(stages[1].x, 520);
    assert_eq!(width, 700);
    assert_eq!(edges.len(), 2);
}

#[test]
fn dag_layout_empty() {
    let mut stages: Vec<StageView> = vec![];
    let (edges, width, height) = compute_dag_layout(&mut stages);
    assert!(edges.is_empty());
    assert_eq!((width, height), (200, 120));
}

#[test]
fn time_ago_labels() {
    let now = Timestamp { secs: 1_000_000, nanos: 0 };
    let at = |secs: i64| Timestamp { secs, nanos: 0 };
    assert_eq!(time_ago_label(now, at(1_000_000 - 30)), "30s ago");
    assert_eq!(time_ago_label(now, at(1_000_000 - 150)), "2m ago");
    assert_eq!(time_ago_label(now, at(1_000_000 - 7300)), "2h ago");
    assert_eq!(time_ago_label(now, at(1_000_000 - 3 * 86400)), "3d ago");
    assert_eq!(time_ago_label(now, at(1_000_000 + 5)), "-5s ago");
}

#[test]
fn capitalize_uses_unicode_upper_case() {
    assert_eq!(capitalize_first("github"), "Github");
    assert_eq!(capitalize_first(""), "");
    assert_eq!(capitalize_first("ßa"), "SSa");
}

#[test]
fn repo_dir_is_md5_of_url() {
    let url = "https://github.com/octo/repo.git";
    let expected = format!("{:x}", md5::compute(url.as_bytes()));
    assert_eq!(repo_dir_name(url), expected);
    let svc = GitService::with_work_dir("/tmp/buildit-repos".to_string());
    assert_eq!(svc.get_repo_path(url), format!("/tmp/buildit-repos/{}", expected));
}

#[test]
fn auth_url_encodes_redirect() {
    let cfg = GitHubConfig {
        client_id: "cid".to_string(),
        client_secret: "sec".to_string(),
        redirect_uri: "http://localhost:3000/cb?x=1".to_string(),
    };
    assert_eq!(
        cfg.auth_url("st"),
        "https://github.com/login/oauth/authorize?client_id=cid&redirect_uri=http%3A%2F%2Flocalhost%3A3000%2Fcb%3Fx%3D1&scope=repo,read:user&state=st"
    );
}

#[test]
fn repo_search_ignores_case() {
    let repos = vec![repo("Alpha", "octo/Alpha"), repo("beta", "octo/beta"), repo("gamma", "other/GAMMA")];
    let found = filter_repos(repos, "ALP");
    assert_eq!(found.len(), 1);
    assert_eq!(found[0].name, "Alpha");
    let found = filter_repos(vec![repo("x", "Other/y")], "other/");
    assert_eq!(found.len(), 1);
}

#[test]
fn resource_id_text_round_trip() {
    let text = "550e8400-e29b-41d4-a716-446655440000";
    let id = ResourceId::from_str(text).unwrap();
    assert_eq!(id.to_string(), text);
    assert_eq!(ResourceId::from_str("550E8400-E29B-41D4-A716-446655440000"), Some(id));
    assert_eq!(ResourceId::from_str("not-a-uuid"), None);
    let fresh = ResourceId::new();
    assert_eq!(ResourceId::from_str(&fresh.to_string()), Some(fresh));
    let fresh_text: Vec<char> = fresh.to_string().chars().collect();
    assert_eq!(fresh_text[14], '7');
    assert!(matches!(fresh_text[19], '8' | '9' | 'a' | 'b'));
}

#[test]
fn rfc3339_reading() {
    let now = Timestamp { secs: 7, nanos: 0 };
    let (t, text) = buildit::kubernetes::parse_log_line("2024-01-15T10:30:45.5+01:00 hello there", now);
    assert_eq!(t, Timestamp { secs: 1705311045, nanos: 500_000_000 });
    assert_eq!(text, "hello there");
    let (t, text) = buildit::kubernetes::parse_log_line("2024-99-15T10:30:45.5+01:00 not a time", now);
    assert_eq!(t, now);
    assert_eq!(text, "2024-99-15T10:30:45.5+01:00 not a time");
}

#[test]
fn webhook_payload_reading() {
    let body = br#"{"repository": {"full_name": "octo/repo", "id": 3}, "ref": "refs/heads/main"}"#;
    let v = parse_webhook_payload(body).unwrap();
    assert_eq!(payload_repository_name(&v), Some("octo/repo"));
    assert_eq!(json_str_at(&v, "ref"), Some("refs/heads/main"));
    match json_get(json_get(&v, "repository").unwrap(), "id") {
        Some(JsonValue::Number(n)) => assert_eq!(*n, Some(3)),
        _ => panic!("expected a number"),
    }
    match parse_webhook_payload(b"{not json") {
        Err(ApiError::BadRequest(m)) => assert!(m.starts_with("Invalid JSON: ")),
        _ => panic!("expected a bad request"),
    }
    let v = parse_webhook_payload(b"{}").unwrap();
    assert_eq!(payload_repository_name(&v), None);
}

#[test]
fn config_error_messages() {
    match parse_pipeline("stage \"x\" {") {
        Err(e @ ConfigError::Parse(_)) => {
            assert_eq!(e.message(), "KDL parse error: Failed to parse KDL document")
        }
        _ => panic!("expected a parse error"),
    }
    let e = ConfigError::InvalidValue { field: "timeout".to_string(), message: "negative".to_string() };
    assert_eq!(e.message(), "invalid value for timeout: negative");
    match parse_system_config("multi_tenant true") {
        Err(e @ ConfigError::MissingField(_)) => {
            assert_eq!(e.message(), "missing required field: not yet implemented")
        }
        _ => panic!("expected a missing field"),
    }
}

#[test]
fn terraform_results() {
    let tf = TerraformService::with_binary("terraform".to_string());
    let lines = vec![
        "  # aws_instance.web will be created".to_string(),
        "  # aws_s3_bucket.logs will be destroyed".to_string(),
        "Plan: 1 to add, 0 to change, 1 to destroy.".to_string(),
    ];
    assert_eq!(join_lines(&lines), lines.join("\n"));
    let r = tf.plan_result(Some(2), &lines, "/w/tfplan".to_string()).unwrap();
    assert!(r.has_changes);
    assert_eq!(r.plan_file, Some("/w/tfplan".to_string()));
    assert_eq!(r.summary.to_add.len(), 1);
    assert_eq!(r.summary.to_add[0].resource_type, "aws_instance");
    assert_eq!(r.summary.to_add[0].name, "web");
    assert_eq!(r.summary.to_destroy.len(), 1);
    assert_eq!(r.summary.to_destroy[0].action, "delete");
    let r = tf.plan_result(Some(0), &vec![], "/w/tfplan".to_string()).unwrap();
    assert!(!r.has_changes);
    assert_eq!(r.plan_file, None);
    match tf.plan_result(Some(1), &lines, "/w/tfplan".to_string()) {
        Err(e @ TerraformError::PlanFailed(_)) => {
            assert_eq!(e.message(), format!("Terraform plan failed: {}", lines.join("\n")))
        }
        _ => panic!("expected a failed plan"),
    }
    assert_eq!(tf.init_result(Some(0), "out", "err").unwrap(), "out\nerr");
    assert!(matches!(tf.init_result(None, "out", "err"), Err(TerraformError::InitFailed(_))));
    assert_eq!(tf.apply_result(Some(0), &lines).unwrap(), lines.join("\n"));
    assert!(matches!(tf.destroy_result(Some(3), &lines), Err(TerraformError::DestroyFailed(_))));
    assert_eq!(parse_plan_summary("Plan: 3 to add, 1 to change, 2 to destroy."), (3, 1, 2));
    assert_eq!(parse_plan_summary("No changes."), (0, 0, 0));
}

#[test]
fn executor_choice() {
    assert_eq!(ExecutorType::from_settings(Some("K8S"), false), ExecutorType::Kubernetes);
    assert_eq!(ExecutorType::from_settings(Some("Local"), true), ExecutorType::Docker);
    assert_eq!(ExecutorType::from_settings(Some("podman"), true), ExecutorType::Kubernetes);
    assert_eq!(ExecutorType::from_settings(Some("podman"), false), ExecutorType::Docker);
    assert_eq!(ExecutorType::from_settings(None, true), ExecutorType::Kubernetes);
    assert_eq!(ExecutorType::default(), ExecutorType::Docker);
}

#[test]
fn api_requests_and_responses() {
    assert_eq!(ReposQuery { page: None, per_page: None }.paging(), (1, 30));
    assert_eq!(ReposQuery { page: Some(3), per_page: Some(500) }.paging(), (3, 100));
    assert_eq!(ReposQuery { page: Some(2), per_page: Some(10) }.paging(), (2, 10));
    let ok = TriggerRunApiRequest { run_type: "destroy".to_string() };
    assert_eq!(ok.run_type().unwrap(), StackRunType::Destroy);
    match (TriggerRunApiRequest { run_type: "Plan".to_string() }).run_type() {
        Err(e @ ApiError::BadRequest(_)) => {
            assert_eq!(e.message(), "Invalid run type");
            assert_eq!(e.status_code(), 400);
        }
        _ => panic!("expected a bad request"),
    }
    let hidden = StackVariableResponse::new("K".to_string(), Some("v".to_string()), true, false, None);
    assert_eq!(hidden.value, None);
    let shown = StackVariableResponse::new("K".to_string(), Some("v".to_string()), false, true, None);
    assert_eq!(shown.value, Some("v".to_string()));
    let req = SetVariableRequest {
        key: "K".to_string(),
        value: None,
        is_sensitive: Some(true),
        is_hcl: None,
        description: None,
    };
    assert_eq!(req.flags(), (true, false));
    let status = GitHubStatusResponse::new(true, Some("octo".to_string()));
    assert!(status.configured && status.connected);
    assert!(!GitHubStatusResponse::new(false, None).connected);
    let r: RepoResponse = repo("a", "octo/a").into();
    assert_eq!(r.owner, "octo");
    assert_eq!(r.full_name, "octo/a");
    assert_eq!(r.language, Some("Rust".to_string()));
}

#[test]
fn websocket_subscriptions() {
    let run = BroadcastEvent::RunUpdate { run_id: "r1".to_string(), status: "running".to_string() };
    let log = BroadcastEvent::LogLine {
        run_id: "r2".to_string(),
        stage_name: "build".to_string(),
        content: "x".to_string(),
        stream: "stdout".to_string(),
    };
    assert_eq!(run.channel(), "run:r1");
    let mut subs = Subscriptions::new();
    assert!(!subs.wants(&run));
    subs.subscribe("run:r1".to_string());
    subs.subscribe("run:r1".to_string());
    assert!(subs.wants(&run));
    assert!(!subs.wants(&log));
    subs.unsubscribe("run:r1");
    assert!(!subs.wants(&run));
    assert!(!subs.contains("run:r1"));
    subs.subscribe("*".to_string());
    assert!(subs.wants(&run) && subs.wants(&log));
}

#[test]
fn settings_defaults() {
    let tf = TerraformService::from_setting(None);
    assert_eq!(tf.terraform_bin, "terraform");
    assert_eq!(TerraformService::from_setting(Some("/opt/tf".to_string())).terraform_bin, "/opt/tf");
    let c = StackRunnerConfig::from_settings(None, Some("/w".to_string()), None);
    assert_eq!(c.terraform_image, "hashicorp/terraform:1.5");
    assert_eq!(c.work_dir, "/w");
    assert_eq!(c.namespace, "buildit");
    assert!(GitHubConfig::from_settings(Some("id".to_string()), None, None).is_none());
    let g = GitHubConfig::from_settings(Some("id".to_string()), Some("s".to_string()), None).unwrap();
    assert_eq!(g.redirect_uri, "http://localhost:30080/auth/github/callback");
    assert_eq!(GitService::from_setting(None, "/tmp").work_dir, "/tmp/buildit-repos");
    assert_eq!(GitService::from_setting(None, "/tmp/").work_dir, "/tmp/buildit-repos");
    assert_eq!(GitService::from_setting(Some("/data".to_string()), "/tmp").work_dir, "/data");
}

#[test]
fn local_run_stage_selection() {
    let kdl = r#"
        pipeline "p"
        stage "lint" {
            image "alpine"
            run "echo lint"
        }
        stage "test" {
            image "alpine"
            run "echo test"
        }
        stage "build" needs="test" {
            image "alpine"
            run "echo build"
        }
    "#;
    let p = parse_pipeline(kdl).unwrap();
    let picked = select_stages(p.stages, &vec!["build".to_string(), "lint".to_string()]);
    let names: Vec<&str> = picked.iter().map(|s| s.name.as_str()).collect();
    assert_eq!(names, vec!["lint", "build"]);
    let p = parse_pipeline(kdl).unwrap();
    assert!(select_stages(p.stages, &vec!["deploy".to_string()]).is_empty());
    assert_eq!(LogStream::Stdout.marker(), " ");
    assert_eq!(LogStream::Stderr.marker(), "!");
    assert_eq!(LogStream::System.marker(), "*");
}

#[test]
fn plan_json_reading() {
    let tf = TerraformService::with_binary("terraform".to_string());
    let v = tf.read_plan_json(Some(0), r#"{"format_version": "1.2"}"#, "").unwrap();
    assert_eq!(json_str_at(&v, "format_version"), Some("1.2"));
    match tf.read_plan_json(Some(1), "", "no plan") {
        Err(e @ TerraformError::ShowFailed(_)) => assert_eq!(e.message(), "Terraform show failed: no plan"),
        _ => panic!("expected a show failure"),
    }
    assert!(matches!(tf.read_plan_json(Some(0), "{", ""), Err(TerraformError::ParseFailed(_))));
}

#[test]
fn log_lines_that_can_be_cut() {
    assert!(can_cut_log_line("plain"));
    assert!(can_cut_log_line("2024-01-15T10:30:45.123456789Z Hello, World!"));
    // A multi-byte character across byte 30 of a line with no space.
    let line = format!("2024-01-15T10:30:45.123456789{}tail", "é");
    assert!(!can_cut_log_line(&line));
}

#[test]
fn manual_runs_and_connections() {
    let g = manual_git_info(Some("dev"), None);
    assert_eq!(json_str_at(&g, "branch"), Some("dev"));
    assert_eq!(json_str_at(&g, "sha"), Some(""));
    assert_eq!(json_str_at(&g, "author"), Some(""));
    assert_eq!(json_str_at(&manual_trigger_info(), "kind"), Some("manual"));
    assert_eq!(finished_run_status(true), "succeeded");
    assert_eq!(finished_run_status(false), "failed");
    let (p, url, id) = connection_details("GitLab", "team", "svc").unwrap();
    assert_eq!(p, GitProvider::Gitlab);
    assert_eq!(url, "https://gitlab.com/team/svc.git");
    assert_eq!(id, "team/svc");
    match connection_details("svn", "a", "b") {
        Err(e @ ApiError::BadRequest(_)) => assert_eq!(e.message(), "Unknown git provider: svn"),
        _ => panic!("expected a bad request"),
    }
}

#[test]
fn docker_output_and_results() {
    let now = Timestamp { secs: 9, nanos: 0 };
    let l = docker_log_line(DockerOutput::StdErr, "oops \n", now);
    assert_eq!(l.stream, LogStream::Stderr);
    assert_eq!(l.content, "oops");
    assert_eq!(l.timestamp, now);
    let l = docker_log_line(DockerOutput::Console, "hi", now);
    assert_eq!(l.stream, LogStream::Stdout);
    assert!(finished_result(JobStatus::Running { started_at: now }).is_none());
    let r = finished_result(JobStatus::Succeeded { started_at: now, finished_at: now }).unwrap();
    assert_eq!(r.exit_code, Some(0));
    let failed = JobStatus::Failed { started_at: None, finished_at: now, exit_code: Some(3), message: "x".to_string() };
    assert_eq!(finished_result(failed).unwrap().exit_code, Some(3));
    let r = waited_result(JobStatus::Pending, Some(4_294_967_297));
    assert_eq!(r.exit_code, Some(1));
    assert!(r.artifacts.is_empty());
}

#[test]
fn service_error_messages() {
    assert_eq!(GitError::Io("disk".to_string()).message(), "IO error: disk");
    assert_eq!(GitError::CloneFailed("denied".to_string()).message(), "Clone failed: denied");
    assert_eq!(GitError::InvalidUrl.message(), "Invalid repository URL");
    assert_eq!(GitHubError::Request("timeout".to_string()).message(), "Request failed: timeout");
    assert_eq!(GitHubError::Parse("eof".to_string()).message(), "Parse error: eof");
    assert_eq!(StackRunnerError::NoWorkingDirectory.message(), "No working directory set for stack");
    assert_eq!(StackRunnerError::Git("x".to_string()).message(), "Git error: x");
    assert_eq!(StackRunnerError::TerraformFailed("y".to_string()).message(), "Terraform command failed: y");
    assert_eq!(StackRunnerError::JobError("z".to_string()).message(), "Job execution error: z");
    let empty = TokenResponse { access_token: String::new(), token_type: "bearer".to_string(), scope: String::new() };
    match check_token(empty) {
        Err(e @ GitHubError::Api(_)) => assert_eq!(e.message(), "API error: No access token in response"),
        _ => panic!("expected an API error"),
    }
    let ok = TokenResponse { access_token: "t".to_string(), token_type: "bearer".to_string(), scope: String::new() };
    assert_eq!(check_token(ok).unwrap().access_token, "t");
}

#[test]
fn terraform_command_arguments() {
    let tf = TerraformService::with_binary("terraform".to_string());
    let mut vars = buildit::strmap::StrMap::new();
    vars.insert("region".to_string(), "eu-west-1".to_string());
    vars.insert("size".to_string(), "2".to_string());
    assert_eq!(
        tf.plan_args("tfplan", &vars, Some("prod.tfvars")),
        vec!["plan", "-input=false", "-no-color", "-detailed-exitcode", "-out=tfplan", "-var=region=eu-west-1", "-var=size=2", "-var-file=prod.tfvars"]
    );
    assert_eq!(
        tf.plan_args("p", &buildit::strmap::StrMap::new(), None),
        vec!["plan", "-input=false", "-no-color", "-detailed-exitcode", "-out=p"]
    );
    assert_eq!(tf.apply_args("tfplan"), vec!["apply", "-input=false", "-no-color", "-auto-approve", "tfplan"]);
    assert_eq!(
        tf.destroy_args(&vars),
        vec!["destroy", "-input=false", "-no-color", "-auto-approve", "-var=region=eu-west-1", "-var=size=2"]
    );
}

#[test]
fn terraform_job_for_a_stack() {
    let config = StackRunnerConfig::from_settings(Some("tf:1.7".to_string()), None, None);
    let env = parse_webhook_payload(br#"{"TF_VAR_a": "1", "COUNT": 3, "TF_LOG": "debug"}"#).unwrap();
    let commands = build_plan_commands();
    let job = build_terraform_job_spec(&config, "/work/stack", &env, &commands);
    assert_eq!(job.image, "tf:1.7");
    assert_eq!(
        job.command,
        vec![
            "/bin/sh".to_string(),
            "-c".to_string(),
            "terraform init -input=false && terraform plan -input=false -no-color -out=tfplan -detailed-exitcode || true".to_string(),
        ]
    );
    assert_eq!(job.env.get("TF_VAR_a").map(|s| s.as_str()), Some("1"));
    assert_eq!(job.env.get("TF_LOG").map(|s| s.as_str()), Some("debug"));
    assert!(job.env.get("COUNT").is_none());
    assert_eq!(job.working_dir.as_deref(), Some("/work/stack"));
    assert_eq!(job.timeout, Some(buildit::time::Duration { secs: 3600, nanos: 0 }));
    assert!(job.volumes.is_empty() && job.git_clone.is_none());
    assert!(terraform_run_succeeded(true, false, Some(2)));
    assert!(!terraform_run_succeeded(false, false, Some(2)));
    assert!(terraform_run_succeeded(false, true, Some(0)));
    assert!(!terraform_run_succeeded(true, false, Some(1)));
}

#[test]
fn github_endpoints() {
    assert_eq!(repo_url("acme", "app"), "https://api.github.com/repos/acme/app");
    assert_eq!(hooks_url("acme", "app"), "https://api.github.com/repos/acme/app/hooks");
    assert_eq!(
        buildit::github::list_repos_url(2, 30),
        "https://api.github.com/user/repos?sort=updated&direction=desc&page=2&per_page=30&type=all"
    );
    assert_eq!(buildit::github::bearer("tok"), "Bearer tok");
    assert!(buildit::stack_runner::plan_needs_approval(false, 0, 1, 0));
    assert!(!buildit::stack_runner::plan_needs_approval(true, 5, 5, 5));
    assert!(!buildit::stack_runner::plan_needs_approval(false, 0, 0, 0));
}

#[test]
fn default_deployment_strategy() {
    match DeploymentStrategy::default_strategy() {
        DeploymentStrategy::RollingUpdate { max_surge, max_unavailable } => {
            assert_eq!(max_surge, 1);
            assert_eq!(max_unavailable, 0);
        }
        _ => panic!("expected a rolling update"),
    }
    let all = buildit::deployer::kubernetes_strategies();
    assert_eq!(all.len(), 2);
    assert_eq!(all[0], DeploymentStrategy::default_strategy());
    assert_eq!(all[1], DeploymentStrategy::Recreate);
}

#[test]
fn scan_of_a_repository_tree() {
    let file = |name: &str| FsEntry::File { name: name.to_string(), content: None };
    let dir = |name: &str, entries: Vec<FsEntry>| FsEntry::Dir { name: name.to_string(), entries };
    let root = vec![
        dir("node_modules", vec![file("lib.tf")]),
        dir("infra", vec![file("main.tf"), file("vars.tf"), dir("modules", vec![file("net.tf")])]),
        file(".buildit.kdl"),
        file("main.tf"),
        dir(".git", vec![file("config.tf")]),
        FsEntry::File { name: "deploy.yaml".to_string(), content: Some("apiVersion: apps/v1\nkind: Deployment\n".to_string()) },
        dir("chart", vec![file("Chart.yaml"), file("Dockerfile.dev")]),
        FsEntry::Other,
        file("Makefile"),
    ];
    let c = scan_tree(&root);
    assert_eq!(c.buildit_config.as_deref(), Some(".buildit.kdl"));
    assert_eq!(c.terraform_files, vec!["infra/main.tf", "infra/vars.tf", "infra/modules/net.tf", "main.tf"]);
    assert_eq!(c.terraform_dirs, vec![".", "infra", "infra/modules"]);
    assert_eq!(c.kubernetes_files, vec!["deploy.yaml"]);
    assert_eq!(c.kubernetes_dirs, vec!["."]);
    assert_eq!(c.helm_charts, vec!["chart"]);
    assert_eq!(c.dockerfiles, vec!["chart/Dockerfile.dev"]);
    assert_eq!(c.other_files, vec!["Makefile"]);
}

#[test]
fn terraform_outputs_by_name() {
    let tf = TerraformService::with_binary("terraform".to_string());
    let text = r#"{"ip": {"value": "10.0.0.1", "type": "string", "sensitive": false}, "n": {"value": 3, "type": "number"}}"#;
    let outs = tf.outputs_result(Some(0), text);
    assert_eq!(outs.len(), 2);
    assert_eq!(outs[0].0, "ip");
    assert!(matches!(&outs[0].1, JsonValue::String(s) if s == "10.0.0.1"));
    assert_eq!(outs[1].0, "n");
    assert!(matches!(outs[1].1, JsonValue::Number(Some(3))));
    assert!(tf.outputs_result(Some(1), text).is_empty());
    assert!(tf.outputs_result(Some(0), r#"{"ip": {"value": 1}}"#).is_empty());
    assert!(tf.outputs_result(Some(0), r#"{"ip": {"value": 1, "type": "n", "sensitive": "yes"}}"#).is_empty());
    assert!(tf.outputs_result(Some(0), "[1]").is_empty());
    assert!(tf.outputs_result(Some(0), "not json").is_empty());
    let arr = tf.outputs_result(Some(0), r#"{"a": [7, "number", null]}"#);
    assert_eq!(arr.len(), 1);
    assert!(matches!(arr[0].1, JsonValue::Number(Some(7))));
    assert!(tf.outputs_result(Some(0), "{}").is_empty());
}
