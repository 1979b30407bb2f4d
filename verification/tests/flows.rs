use buildit::runner_flow::{CommandOutput, RunnerAction, RunnerEvent, RunnerStage, RunnerTask};
use buildit::stack_runner::StackRunnerError;
use buildit::json::JsonValue;
use buildit::stack::{StackRunStatus, StackRunType, StackStatus};
use buildit::stack_flow::{
    join_paths, stack_settings, PlanDone, RunAction, RunEvent, RunStage, SetupAction, SetupEvent, SetupStage,
    StackRunTask, StackSetup,
};
use buildit::terraform::TerraformError;
use buildit::time::Timestamp;
use buildit::views::{
    deployment_duration, duration_label, first_chars, masked_value, resource_count, run_duration, run_has_changes,
    span_label, stack_run_duration, stage_views, trigger_summary, StageDefinition, StageTiming,
};

fn at(secs: i64) -> Timestamp {
    Timestamp { secs, nanos: 0 }
}

fn run(task: StackRunTask, event: RunEvent) -> (StackRunTask, RunAction) {
    task.step(event)
}

#[test]
fn plan_with_changes_waits_for_approval() {
    let t = StackRunTask::triggered(StackRunType::Plan, Some("/w".to_string()), false);
    let (t, a) = run(t, RunEvent::Begin);
    assert!(matches!(a, RunAction::MarkStarted));
    let (t, a) = run(t, RunEvent::StartMarked(true));
    match a {
        RunAction::Plan { working_dir } => assert_eq!(working_dir, "/w"),
        other => panic!("{:?}", other),
    }
    let done = PlanDone { has_changes: true, plan_file: Some("/w/tfplan".to_string()) };
    let (t, a) = run(t, RunEvent::Planned(Ok(done)));
    assert!(matches!(a, RunAction::RecordPlan));
    let (t, a) = run(t, RunEvent::Written);
    match a {
        RunAction::Finish { status, error } => {
            assert_eq!(status, StackRunStatus::NeedsApproval);
            assert_eq!(error, None);
        }
        other => panic!("{:?}", other),
    }
    let (t, a) = run(t, RunEvent::Written);
    assert!(matches!(a, RunAction::Stop));
    assert_eq!(t.stage, RunStage::Done);
}

#[test]
fn plan_with_auto_apply_applies() {
    let t = StackRunTask::triggered(StackRunType::Plan, Some("/w".to_string()), true);
    let (t, _) = run(t, RunEvent::Begin);
    let (t, _) = run(t, RunEvent::StartMarked(true));
    let done = PlanDone { has_changes: true, plan_file: Some("/w/tfplan".to_string()) };
    let (t, _) = run(t, RunEvent::Planned(Ok(done)));
    let (t, a) = run(t, RunEvent::Written);
    match a {
        RunAction::Apply { working_dir, plan_file } => {
            assert_eq!(working_dir, "/w");
            assert_eq!(plan_file, "/w/tfplan");
        }
        other => panic!("{:?}", other),
    }
    // A failed automatic apply records no error text.
    let (_, a) = run(t, RunEvent::Applied(Err(TerraformError::ApplyFailed("boom".to_string()))));
    match a {
        RunAction::Finish { status, error } => {
            assert_eq!(status, StackRunStatus::Failed);
            assert_eq!(error, None);
        }
        other => panic!("{:?}", other),
    }
}

#[test]
fn plan_without_changes_succeeds() {
    let t = StackRunTask::triggered(StackRunType::Plan, Some("/w".to_string()), false);
    let (t, _) = run(t, RunEvent::Begin);
    let (t, _) = run(t, RunEvent::StartMarked(true));
    let (t, _) = run(t, RunEvent::Planned(Ok(PlanDone { has_changes: false, plan_file: None })));
    let (_, a) = run(t, RunEvent::Written);
    assert!(matches!(a, RunAction::Finish { status: StackRunStatus::Succeeded, error: None }));
}

#[test]
fn apply_run_reports_apply_error() {
    let t = StackRunTask::triggered(StackRunType::Apply, Some("/w".to_string()), false);
    let (t, _) = run(t, RunEvent::Begin);
    let (t, _) = run(t, RunEvent::StartMarked(true));
    let done = PlanDone { has_changes: true, plan_file: Some("/w/tfplan".to_string()) };
    let (t, a) = run(t, RunEvent::Planned(Ok(done)));
    assert!(matches!(a, RunAction::Apply { .. }));
    let (_, a) = run(t, RunEvent::Applied(Err(TerraformError::ApplyFailed("boom".to_string()))));
    match a {
        RunAction::Finish { status, error } => {
            assert_eq!(status, StackRunStatus::Failed);
            assert_eq!(error, Some("Terraform apply failed: boom".to_string()));
        }
        other => panic!("{:?}", other),
    }
}

#[test]
fn destroy_and_refresh_runs() {
    let t = StackRunTask::triggered(StackRunType::Destroy, Some("/w".to_string()), false);
    let (t, _) = run(t, RunEvent::Begin);
    let (t, a) = run(t, RunEvent::StartMarked(true));
    assert!(matches!(a, RunAction::Destroy { .. }));
    let (t, a) = run(t, RunEvent::Destroyed(Ok(())));
    assert!(matches!(a, RunAction::RecordOutput));
    let (_, a) = run(t, RunEvent::Written);
    assert!(matches!(a, RunAction::Finish { status: StackRunStatus::Succeeded, error: None }));

    let t = StackRunTask::triggered(StackRunType::Refresh, Some("/w".to_string()), false);
    let (t, _) = run(t, RunEvent::Begin);
    let (_, a) = run(t, RunEvent::StartMarked(true));
    assert!(matches!(a, RunAction::Finish { status: StackRunStatus::Succeeded, error: None }));
}

#[test]
fn run_without_directory_or_start_fails() {
    let t = StackRunTask::triggered(StackRunType::Plan, None, false);
    let (t, _) = run(t, RunEvent::Begin);
    let (_, a) = run(t, RunEvent::StartMarked(true));
    match a {
        RunAction::Finish { status, error } => {
            assert_eq!(status, StackRunStatus::Failed);
            assert_eq!(error, Some("Stack has no working directory".to_string()));
        }
        other => panic!("{:?}", other),
    }
    let t = StackRunTask::triggered(StackRunType::Plan, Some("/w".to_string()), false);
    let (t, _) = run(t, RunEvent::Begin);
    let (t, a) = run(t, RunEvent::StartMarked(false));
    assert!(matches!(a, RunAction::Stop));
    assert_eq!(t.stage, RunStage::Done);
    let t = StackRunTask::triggered(StackRunType::Plan, Some("/w".to_string()), false);
    let (t, _) = run(t, RunEvent::Begin);
    let (t, _) = run(t, RunEvent::StartMarked(true));
    let (_, a) = run(t, RunEvent::Planned(Err(TerraformError::PlanFailed("bad".to_string()))));
    match a {
        RunAction::Finish { error, .. } => assert_eq!(error, Some("Terraform plan failed: bad".to_string())),
        other => panic!("{:?}", other),
    }
}

#[test]
fn approved_run_applies_saved_plan() {
    let t = StackRunTask::approved(Some("/w".to_string()));
    let (t, a) = run(t, RunEvent::Begin);
    assert!(matches!(a, RunAction::SetStatus { status: StackRunStatus::Applying }));
    let (t, a) = run(t, RunEvent::Written);
    match a {
        RunAction::CheckPlanFile { path } => assert_eq!(path, "/w/tfplan"),
        other => panic!("{:?}", other),
    }
    let (t, a) = run(t, RunEvent::PlanFileFound(true));
    assert!(matches!(a, RunAction::Apply { .. }));
    let (t, _) = run(t, RunEvent::Applied(Ok(())));
    let (_, a) = run(t, RunEvent::Written);
    assert!(matches!(a, RunAction::Finish { status: StackRunStatus::Succeeded, error: None }));

    let t = StackRunTask::approved(Some("/w/".to_string()));
    let (t, _) = run(t, RunEvent::Begin);
    let (t, _) = run(t, RunEvent::Written);
    let (_, a) = run(t, RunEvent::PlanFileFound(false));
    match a {
        RunAction::Finish { status, error } => {
            assert_eq!(status, StackRunStatus::Failed);
            assert_eq!(error, Some("Plan file not found - please run a new plan".to_string()));
        }
        other => panic!("{:?}", other),
    }
    let (t, a) = run(StackRunTask::approved(None), RunEvent::Begin);
    assert!(matches!(a, RunAction::Stop));
    assert_eq!(t.stage, RunStage::Done);
}

#[test]
fn stack_setup_flow() {
    let (path, version, auto) = stack_settings(None, None, None);
    assert_eq!((path.as_str(), version.as_str(), auto), (".", "1.5.0", false));
    let s = StackSetup::new("https://github.com/o/r.git".to_string(), "infra".to_string());
    let (s, a) = s.step(SetupEvent::Begin);
    assert!(matches!(a, SetupAction::Clone { ref url } if url == "https://github.com/o/r.git"));
    let (s, a) = s.step(SetupEvent::Cloned(Some("/repos/abc".to_string())));
    match a {
        SetupAction::SaveWorkingDir { dir } => assert_eq!(dir, "/repos/abc/infra"),
        other => panic!("{:?}", other),
    }
    let (s, a) = s.step(SetupEvent::DirSaved(true));
    assert!(matches!(a, SetupAction::Init { ref dir } if dir == "/repos/abc/infra"));
    let (s, a) = s.step(SetupEvent::Initialized(false));
    assert!(matches!(a, SetupAction::SetStatus { status: StackStatus::Error }));
    let (s, a) = s.step(SetupEvent::Written);
    assert!(matches!(a, SetupAction::Stop));
    assert_eq!(s.stage, SetupStage::Done);

    let s = StackSetup::new("u".to_string(), ".".to_string());
    let (s, _) = s.step(SetupEvent::Begin);
    let (_, a) = s.step(SetupEvent::Cloned(None));
    assert!(matches!(a, SetupAction::SetStatus { status: StackStatus::Error }));
    assert_eq!(join_paths("/repos/abc", "/abs"), "/abs");
    assert_eq!(join_paths("/repos/abc", "."), "/repos/abc/.");
}

#[test]
fn durations_as_shown() {
    assert_eq!(duration_label(42), "42s");
    assert_eq!(duration_label(83), "1m 23s");
    assert_eq!(duration_label(-5), "-5s");
    assert_eq!(span_label(Some(at(100)), Some(at(225)), at(0)), "2m 5s");
    assert_eq!(span_label(Some(at(100)), None, at(130)), "30s");
    assert_eq!(span_label(None, Some(at(5)), at(130)), "-");
    assert_eq!(stack_run_duration(Some(at(100)), None, at(190)), "90s (running)");
    assert_eq!(stack_run_duration(Some(at(100)), Some(at(190)), at(0)), "1m 30s");
    assert_eq!(deployment_duration(Some(at(100)), None), "-");
    let half = Timestamp { secs: 101, nanos: 500_000_000 };
    assert_eq!(span_label(Some(half), Some(at(100)), at(0)), "-1s");
}

#[test]
fn run_page_details() {
    let info = JsonValue::Object(vec![
        ("commit_sha".to_string(), JsonValue::String("0123456789abcdef".to_string())),
        ("kind".to_string(), JsonValue::String("push".to_string())),
    ]);
    let (branch, sha, message, kind) = trigger_summary(&info);
    assert_eq!(branch, "main");
    assert_eq!(sha, "0123456");
    assert_eq!(message, "No message");
    assert_eq!(kind, "push");
    assert_eq!(first_chars("abc", 7), "abc");
    assert_eq!(masked_value(Some("v".to_string()), true), "********");
    assert_eq!(masked_value(None, false), "");
    let state = JsonValue::Object(vec![(
        "resources".to_string(),
        JsonValue::Array(vec![JsonValue::Null, JsonValue::Null]),
    )]);
    assert_eq!(resource_count(Some(&state)), 2);
    assert_eq!(resource_count(None), 0);
    assert!(run_has_changes(0, 1, 0));
    assert!(!run_has_changes(0, 0, 0));
}

#[test]
fn stages_merged_with_results() {
    let defs = vec![
        StageDefinition { name: "build".to_string(), depends_on: vec![] },
        StageDefinition { name: "test".to_string(), depends_on: vec!["build".to_string()] },
        StageDefinition { name: "deploy".to_string(), depends_on: vec!["test".to_string()] },
    ];
    let results = vec![
        StageTiming {
            stage_name: "build".to_string(),
            status: "failed".to_string(),
            started_at: Some(at(10)),
            finished_at: Some(at(20)),
        },
        StageTiming {
            stage_name: "test".to_string(),
            status: "running".to_string(),
            started_at: Some(at(30)),
            finished_at: None,
        },
        StageTiming {
            stage_name: "build".to_string(),
            status: "succeeded".to_string(),
            started_at: Some(at(5)),
            finished_at: Some(at(25)),
        },
    ];
    let views = stage_views(defs, &results, at(100));
    assert_eq!(views.len(), 3);
    assert_eq!((views[0].status.as_str(), views[0].duration.as_str()), ("succeeded", "20s"));
    assert_eq!((views[1].status.as_str(), views[1].duration.as_str()), ("running", "1m 10s"));
    assert_eq!((views[2].status.as_str(), views[2].duration.as_str()), ("pending", "-"));
    assert_eq!(views[2].dependencies, vec!["test".to_string()]);
    assert_eq!(run_duration(&results, at(100)), "20s");
    assert_eq!(run_duration(&vec![], at(100)), "-");
}

fn ran(code: i32, stdout: &str) -> RunnerEvent {
    RunnerEvent::Ran(Ok(CommandOutput {
        code: Some(code),
        success: code == 0,
        stdout: stdout.to_string(),
        stderr: String::new(),
    }))
}

#[test]
fn runner_plan_needing_approval() {
    let t = RunnerTask::new(StackRunType::Plan, Some("/w".to_string()), false);
    let (t, a) = t.step(RunnerEvent::Begin);
    assert!(matches!(a, RunnerAction::MarkStarted));
    let (t, a) = t.step(RunnerEvent::Written(Ok(())));
    match a {
        RunnerAction::Terraform { working_dir, args } => {
            assert_eq!(working_dir, "/w");
            assert_eq!(args, vec!["init", "-input=false"]);
        }
        other => panic!("{:?}", other),
    }
    let (t, a) = t.step(ran(0, "initialized"));
    match a {
        RunnerAction::Terraform { args, .. } => assert_eq!(args, vec!["plan", "-input=false", "-no-color"]),
        other => panic!("{:?}", other),
    }
    let (t, a) = t.step(ran(0, "Plan: 2 to add, 0 to change, 1 to destroy."));
    match a {
        RunnerAction::RecordPlan { output, to_add, to_change, to_destroy } => {
            assert_eq!(output, "initialized\n\nPlan: 2 to add, 0 to change, 1 to destroy.\n");
            assert_eq!((to_add, to_change, to_destroy), (2, 0, 1));
        }
        other => panic!("{:?}", other),
    }
    let (t, a) = t.step(RunnerEvent::Written(Ok(())));
    assert!(matches!(a, RunnerAction::SetStatus { status: StackRunStatus::NeedsApproval }));
    let (t, a) = t.step(RunnerEvent::Written(Ok(())));
    assert!(matches!(a, RunnerAction::Finish { status: StackRunStatus::Succeeded, error: None }));
    let (t, a) = t.step(RunnerEvent::Written(Ok(())));
    assert!(matches!(a, RunnerAction::Stop { result: Ok(()) }));
    assert_eq!(t.stage, RunnerStage::Done);
}

#[test]
fn runner_failures() {
    // No working directory.
    let t = RunnerTask::new(StackRunType::Apply, None, false);
    let (t, _) = t.step(RunnerEvent::Begin);
    let (t, a) = t.step(RunnerEvent::Written(Ok(())));
    match a {
        RunnerAction::Finish { status, error } => {
            assert_eq!(status, StackRunStatus::Failed);
            assert_eq!(error, Some("No working directory set for stack".to_string()));
        }
        other => panic!("{:?}", other),
    }
    let (_, a) = t.step(RunnerEvent::Written(Ok(())));
    assert!(matches!(a, RunnerAction::Stop { result: Err(StackRunnerError::NoWorkingDirectory) }));
    // A failing command.
    let t = RunnerTask::new(StackRunType::Destroy, Some("/w".to_string()), false);
    let (t, _) = t.step(RunnerEvent::Begin);
    let (t, _) = t.step(RunnerEvent::Written(Ok(())));
    let (t, _) = t.step(ran(0, "ok"));
    let (t, a) = t.step(ran(1, "boom"));
    match a {
        RunnerAction::Finish { error, .. } => {
            assert_eq!(error, Some("Terraform command failed: boom\n".to_string()))
        }
        other => panic!("{:?}", other),
    }
    let (_, a) = t.step(RunnerEvent::Written(Err("db down".to_string())));
    match a {
        RunnerAction::Stop { result: Err(e) } => assert_eq!(e.message(), "Database error: db down"),
        other => panic!("{:?}", other),
    }
    // The run cannot be marked as started.
    let t = RunnerTask::new(StackRunType::Plan, Some("/w".to_string()), false);
    let (t, _) = t.step(RunnerEvent::Begin);
    let (_, a) = t.step(RunnerEvent::Written(Err("gone".to_string())));
    assert!(matches!(a, RunnerAction::Stop { result: Err(StackRunnerError::Database(_)) }));
    // A plan exiting with 2 found changes; the command could not start.
    let t = RunnerTask::new(StackRunType::Plan, Some("/w".to_string()), true);
    let (t, _) = t.step(RunnerEvent::Begin);
    let (t, _) = t.step(RunnerEvent::Written(Ok(())));
    let (t, _) = t.step(ran(0, "i"));
    let (t, a) = t.step(ran(2, "Plan: 1 to add, 0 to change, 0 to destroy."));
    assert!(matches!(a, RunnerAction::RecordPlan { to_add: 1, .. }));
    let (_, a) = t.step(RunnerEvent::Written(Ok(())));
    assert!(matches!(a, RunnerAction::Finish { status: StackRunStatus::Succeeded, .. }));
    let t = RunnerTask::new(StackRunType::Refresh, Some("/w".to_string()), false);
    let (t, _) = t.step(RunnerEvent::Begin);
    let (t, _) = t.step(RunnerEvent::Written(Ok(())));
    let (_, a) = t.step(RunnerEvent::Ran(Err("no terraform".to_string())));
    match a {
        RunnerAction::Finish { error, .. } => assert_eq!(error, Some("Execution error: no terraform".to_string())),
        other => panic!("{:?}", other),
    }
}
