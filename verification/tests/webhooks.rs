use buildit::json::{json_get, json_str_at, JsonValue};
use buildit::webhooks::{
    parse_webhook_payload, pipelines_to_trigger, push_git_info, push_to_handle, push_trigger_info,
    webhook_authorized,
};

const PUSH: &str = r#"{
    "ref": "refs/heads/main",
    "before": "0000000000000000000000000000000000000000",
    "after": "a1b2c3d4e5f6a7b8c9d0a1b2c3d4e5f6a7b8c9d0",
    "repository": {"full_name": "acme/app"},
    "pusher": {"name": "octocat"},
    "head_commit": {
        "id": "a1b2c3d4e5f6a7b8c9d0a1b2c3d4e5f6a7b8c9d0",
        "message": "Fix build",
        "author": {"name": "Mona", "email": "mona@example.com"},
        "added": ["a.txt"],
        "modified": [],
        "removed": []
    },
    "commits": []
}"#;

fn json(text: &str) -> JsonValue {
    parse_webhook_payload(text.as_bytes()).unwrap()
}

fn member<'a>(v: &'a JsonValue, i: usize) -> &'a (String, JsonValue) {
    match v {
        JsonValue::Object(ms) => &ms[i],
        _ => panic!("expected an object"),
    }
}

#[test]
fn push_payload_is_read_only_for_push_events() {
    let payload = json(PUSH);
    assert!(push_to_handle("ping", &payload).is_none());
    let e = push_to_handle("push", &payload).unwrap();
    assert_eq!(e.ref_name, "refs/heads/main");
    assert_eq!(e.branch.as_deref(), Some("main"));
    assert!(e.tag.is_none());
    assert_eq!(e.repository_full_name, "acme/app");
    assert_eq!(e.pusher, "octocat");
    let head = e.head_commit.clone().unwrap();
    assert_eq!(head.message, "Fix build");
    assert_eq!(head.author, "Mona");
    assert_eq!(head.added, vec!["a.txt".to_string()]);
    assert!(e.commits.is_empty());
    let no_after = json(r#"{"ref": "refs/tags/v1", "before": "x", "repository": {"full_name": "a/b"}}"#);
    assert!(push_to_handle("push", &no_after).is_none());
}

#[test]
fn tag_push_and_missing_pusher() {
    let p = json(r#"{"ref": "refs/tags/v1.0", "before": "x", "after": "y", "repository": {"full_name": "a/b"}}"#);
    let e = push_to_handle("push", &p).unwrap();
    assert!(e.branch.is_none());
    assert_eq!(e.tag.as_deref(), Some("v1.0"));
    assert_eq!(e.pusher, "unknown");
    assert!(e.head_commit.is_none());
}

#[test]
fn git_and_trigger_records_of_a_push() {
    let e = push_to_handle("push", &json(PUSH)).unwrap();
    let git = push_git_info(&e);
    assert_eq!(member(&git, 0).0, "sha");
    assert_eq!(json_str_at(&git, "short_sha"), Some("a1b2c3d"));
    assert_eq!(json_str_at(&git, "branch"), Some("main"));
    assert_eq!(json_str_at(&git, "ref"), Some("refs/heads/main"));
    assert_eq!(json_str_at(&git, "message"), Some("Fix build"));
    assert_eq!(json_str_at(&git, "author"), Some("Mona"));
    assert_eq!(json_str_at(&git, "repository"), Some("acme/app"));
    let trigger = push_trigger_info(&e);
    assert_eq!(json_str_at(&trigger, "kind"), Some("push"));
    assert_eq!(json_str_at(&trigger, "actor"), Some("octocat"));
    assert_eq!(json_str_at(&trigger, "ref"), Some("refs/heads/main"));
    let short = push_to_handle(
        "push",
        &json(r#"{"ref": "refs/tags/t", "before": "x", "after": "abc", "repository": {"full_name": "a/b"}}"#),
    )
    .unwrap();
    let git = push_git_info(&short);
    assert_eq!(json_str_at(&git, "short_sha"), Some("abc"));
    assert!(matches!(json_get(&git, "branch"), Some(JsonValue::Null)));
    assert!(matches!(json_get(&git, "message"), Some(JsonValue::Null)));
}

#[test]
fn pipelines_chosen_by_their_triggers() {
    let e = push_to_handle("push", &json(PUSH)).unwrap();
    let configs = vec![
        json(r#"{"triggers": [{"type": "push", "branches": ["release/*"]}]}"#),
        json(r#"{"triggers": [{"type": "push", "branches": ["main", "dev"]}]}"#),
        json(r#"{"triggers": [{"type": "push"}]}"#),
        json(r#"{"triggers": [{"type": "pull_request"}]}"#),
        json(r#"{}"#),
        json(r#"{"triggers": "push"}"#),
    ];
    assert_eq!(pipelines_to_trigger(&e, true, "main", &configs), vec![1, 2, 4, 5]);
    assert_eq!(pipelines_to_trigger(&e, true, "trunk", &configs), vec![1, 2]);
    assert!(pipelines_to_trigger(&e, false, "main", &configs).is_empty());
}

#[test]
fn unsigned_webhooks_pass_without_a_secret() {
    assert!(webhook_authorized(None, b"{}", None));
    assert!(!webhook_authorized(Some("s"), b"{}", None));
    assert!(!webhook_authorized(Some("s"), b"{}", Some("sha256=00")));
}
