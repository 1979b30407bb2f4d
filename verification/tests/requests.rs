use buildit::errors::ApiError;
use buildit::json::JsonValue;
use buildit::run_trigger::{CreatedRun, ManualRun, TriggerAction, TriggerEvent, TriggerStage};
use buildit::webhook_flow::{WebhookAction, WebhookEvent, WebhookRepo, WebhookStage, WebhookTask};
use hmac::{Hmac, Mac};

const PUSH: &str = r#"{
    "ref": "refs/heads/main",
    "before": "0000000000000000000000000000000000000000",
    "after": "a1b2c3d4e5f6a7b8c9d0a1b2c3d4e5f6a7b8c9d0",
    "repository": {"full_name": "acme/app"},
    "pusher": {"name": "octocat"},
    "commits": []
}"#;

fn text_member(v: &JsonValue, i: usize) -> (String, String) {
    match v {
        JsonValue::Object(ms) => match &ms[i].1 {
            JsonValue::String(s) => (ms[i].0.clone(), s.clone()),
            JsonValue::Null => (ms[i].0.clone(), "null".to_string()),
            _ => panic!("expected a string member"),
        },
        _ => panic!("expected an object"),
    }
}

fn sign(secret: &str, body: &[u8]) -> String {
    let mut mac = Hmac::<sha2::Sha256>::new_from_slice(secret.as_bytes()).unwrap();
    mac.update(body);
    let tag = mac.finalize().into_bytes();
    format!("sha256={}", hex::encode(tag))
}

#[test]
fn manual_run_is_answered_pending_then_executed() {
    let t = ManualRun::new(Some("main".to_string()), None, true);
    let (t, a) = t.step(TriggerEvent::Begin);
    match &a {
        TriggerAction::CreateRun { trigger_info, git_info } => {
            assert_eq!(text_member(trigger_info, 0), ("kind".to_string(), "manual".to_string()));
            assert_eq!(text_member(git_info, 0), ("branch".to_string(), "main".to_string()));
            assert_eq!(text_member(git_info, 1), ("sha".to_string(), "".to_string()));
            assert_eq!(text_member(git_info, 2), ("short_sha".to_string(), "".to_string()));
        }
        other => panic!("unexpected {:?}", other),
    }
    let (t, a) = t.step(TriggerEvent::RunCreated(Ok(CreatedRun { id: "run-1".to_string(), number: 7 })));
    assert!(matches!(a, TriggerAction::LoadPipeline));
    let (t, a) = t.step(TriggerEvent::PipelineLoaded(Ok(())));
    assert!(matches!(a, TriggerAction::ReadStages));
    let (t, a) = t.step(TriggerEvent::StagesRead(Ok(())));
    match a {
        TriggerAction::Answer(Ok(answer)) => {
            assert_eq!(answer.id, "run-1");
            assert_eq!(answer.number, 7);
            assert_eq!(answer.status, "pending");
        }
        other => panic!("unexpected {:?}", other),
    }
    let (t, a) = t.step(TriggerEvent::Answered);
    assert!(matches!(a, TriggerAction::MarkStatus(ref s) if s == "running"));
    let (t, a) = t.step(TriggerEvent::StatusMarked(true));
    match &a {
        TriggerAction::Execute(env) => {
            assert_eq!(env.len(), 2);
            assert_eq!(env.get("CI").map(|s| s.as_str()), Some("true"));
            assert_eq!(env.get("BUILDIT").map(|s| s.as_str()), Some("true"));
        }
        other => panic!("unexpected {:?}", other),
    }
    let (t, a) = t.step(TriggerEvent::Executed(false));
    assert!(matches!(a, TriggerAction::MarkStatus(ref s) if s == "failed"));
    let (t, a) = t.step(TriggerEvent::StatusMarked(true));
    assert!(matches!(a, TriggerAction::Stop));
    assert_eq!(t.stage, TriggerStage::Done);
}

#[test]
fn manual_run_with_unreadable_stages_is_an_internal_error() {
    let t = ManualRun::new(None, Some("abc".to_string()), true);
    let (t, _) = t.step(TriggerEvent::Begin);
    let (t, _) = t.step(TriggerEvent::RunCreated(Ok(CreatedRun { id: "r".to_string(), number: 1 })));
    let (t, _) = t.step(TriggerEvent::PipelineLoaded(Ok(())));
    let (t, a) = t.step(TriggerEvent::StagesRead(Err("missing field `name`".to_string())));
    match a {
        TriggerAction::Answer(Err(e)) => {
            assert_eq!(e.status_code(), 500);
            assert_eq!(e.message(), "Invalid stages config: missing field `name`");
        }
        other => panic!("unexpected {:?}", other),
    }
    assert_eq!(t.stage, TriggerStage::Done);
}

#[test]
fn manual_run_without_an_orchestrator_or_a_running_mark_stops() {
    let t = ManualRun::new(None, None, false);
    let (t, _) = t.step(TriggerEvent::Begin);
    let (t, a) = t.step(TriggerEvent::RunCreated(Err(ApiError::NotFound("pipeline".to_string()))));
    assert!(matches!(a, TriggerAction::Answer(Err(ApiError::NotFound(_)))));
    assert_eq!(t.stage, TriggerStage::Done);

    let t = ManualRun::new(None, None, false);
    let (t, _) = t.step(TriggerEvent::Begin);
    let (t, _) = t.step(TriggerEvent::RunCreated(Ok(CreatedRun { id: "r".to_string(), number: 1 })));
    let (t, _) = t.step(TriggerEvent::PipelineLoaded(Ok(())));
    let (t, _) = t.step(TriggerEvent::StagesRead(Ok(())));
    let (_, a) = t.step(TriggerEvent::Answered);
    assert!(matches!(a, TriggerAction::Stop));

    let t = ManualRun::new(None, None, true);
    let (t, _) = t.step(TriggerEvent::Begin);
    let (t, _) = t.step(TriggerEvent::RunCreated(Ok(CreatedRun { id: "r".to_string(), number: 1 })));
    let (t, _) = t.step(TriggerEvent::PipelineLoaded(Ok(())));
    let (t, _) = t.step(TriggerEvent::StagesRead(Ok(())));
    let (t, _) = t.step(TriggerEvent::Answered);
    let (_, a) = t.step(TriggerEvent::StatusMarked(false));
    assert!(matches!(a, TriggerAction::Stop));
}

#[test]
fn push_to_a_repository_without_a_secret_is_handled() {
    let t = WebhookTask::new(
        Some("push".to_string()),
        Some("d-1".to_string()),
        None,
        PUSH.as_bytes().to_vec(),
        None,
    );
    let (t, a) = t.step(WebhookEvent::Begin);
    assert!(matches!(a, WebhookAction::FindRepoByName(ref n) if n == "acme/app"));
    let repo = WebhookRepo { id: "repo-1".to_string(), webhook_secret: None };
    let (t, a) = t.step(WebhookEvent::RepoFound(Ok(Some(repo))));
    match &a {
        WebhookAction::StoreEvent { repo_id, event_type, headers, signature } => {
            assert_eq!(repo_id.as_deref(), Some("repo-1"));
            assert_eq!(event_type, "push");
            assert_eq!(text_member(headers, 0), ("delivery".to_string(), "d-1".to_string()));
            assert_eq!(text_member(headers, 1), ("event".to_string(), "push".to_string()));
            assert!(signature.is_none());
        }
        other => panic!("unexpected {:?}", other),
    }
    let (t, a) = t.step(WebhookEvent::EventStored(Ok("ev-1".to_string())));
    match &a {
        WebhookAction::HandlePush(p) => {
            assert_eq!(p.branch.as_deref(), Some("main"));
            assert_eq!(p.repository_full_name, "acme/app");
        }
        other => panic!("unexpected {:?}", other),
    }
    let (t, a) = t.step(WebhookEvent::PushHandled(Ok(())));
    assert!(matches!(a, WebhookAction::MarkProcessed(ref id) if id == "ev-1"));
    let (t, a) = t.step(WebhookEvent::Processed(Ok(())));
    assert!(matches!(a, WebhookAction::Respond(Ok(200))));
    assert_eq!(t.stage, WebhookStage::Done);
}

#[test]
fn webhook_with_a_bad_signature_is_refused_after_it_is_recorded() {
    let t = WebhookTask::new(
        Some("push".to_string()),
        None,
        Some("sha256=00".to_string()),
        PUSH.as_bytes().to_vec(),
        Some("repo-9".to_string()),
    );
    let (t, a) = t.step(WebhookEvent::Begin);
    assert!(matches!(a, WebhookAction::FindRepoById(ref id) if id == "repo-9"));
    let repo = WebhookRepo { id: "repo-9".to_string(), webhook_secret: Some("s3cret".to_string()) };
    let (t, a) = t.step(WebhookEvent::RepoFound(Ok(Some(repo))));
    match &a {
        WebhookAction::StoreEvent { headers, .. } => {
            assert_eq!(text_member(headers, 0), ("delivery".to_string(), "null".to_string()));
        }
        other => panic!("unexpected {:?}", other),
    }
    let (t, a) = t.step(WebhookEvent::EventStored(Ok("ev-2".to_string())));
    assert!(matches!(a, WebhookAction::RecordSignature { ref event_id, valid: false } if event_id == "ev-2"));
    let (t, a) = t.step(WebhookEvent::SignatureRecorded(Ok(())));
    assert!(matches!(a, WebhookAction::Respond(Ok(401))));
    assert_eq!(t.stage, WebhookStage::Done);
}

#[test]
fn webhook_with_a_good_signature_goes_on() {
    let body = br#"{"zen": "Keep it simple.", "repository": {"full_name": "acme/app"}}"#.to_vec();
    let sig = sign("s3cret", &body);
    let t = WebhookTask::new(Some("ping".to_string()), None, Some(sig), body, None);
    let (t, _) = t.step(WebhookEvent::Begin);
    let repo = WebhookRepo { id: "repo-1".to_string(), webhook_secret: Some("s3cret".to_string()) };
    let (t, _) = t.step(WebhookEvent::RepoFound(Ok(Some(repo))));
    let (t, a) = t.step(WebhookEvent::EventStored(Ok("ev-3".to_string())));
    assert!(matches!(a, WebhookAction::RecordSignature { valid: true, .. }));
    let (t, a) = t.step(WebhookEvent::SignatureRecorded(Ok(())));
    assert!(matches!(a, WebhookAction::MarkProcessed(ref id) if id == "ev-3"));
    let (_, a) = t.step(WebhookEvent::Processed(Ok(())));
    assert!(matches!(a, WebhookAction::Respond(Ok(200))));
}

#[test]
fn webhook_with_an_unreadable_body_or_no_repository() {
    let t = WebhookTask::new(None, None, None, b"not json".to_vec(), None);
    assert_eq!(t.event_type, "unknown");
    let (t, a) = t.step(WebhookEvent::Begin);
    match a {
        WebhookAction::Respond(Err(ApiError::BadRequest(m))) => assert!(m.starts_with("Invalid JSON: ")),
        other => panic!("unexpected {:?}", other),
    }
    assert_eq!(t.stage, WebhookStage::Done);

    let t = WebhookTask::new(Some("ping".to_string()), None, None, b"{}".to_vec(), None);
    let (t, a) = t.step(WebhookEvent::Begin);
    assert!(matches!(a, WebhookAction::StoreEvent { repo_id: None, .. }));
    let (t, a) = t.step(WebhookEvent::EventStored(Err(ApiError::Internal("db".to_string()))));
    assert!(matches!(a, WebhookAction::Respond(Err(ApiError::Internal(_)))));
    assert_eq!(t.stage, WebhookStage::Done);
}
