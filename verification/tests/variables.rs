use buildit::strmap::StrMap;
use buildit::variables::{GitRepoOutputs, VariableContext, VariableContextBuilder};

#[test]
fn test_basic_interpolation() {
    let ctx = VariableContextBuilder::new()
        .with_git_sha("abc1234567890")
        .with_git_branch("main")
        .build();

    let result = ctx.interpolate("Commit ${git.sha} on ${git.branch}");
    assert_eq!(result, "Commit abc1234567890 on main");
}

#[test]
fn test_short_sha() {
    let ctx = VariableContextBuilder::new()
        .with_git_sha("abc1234567890def")
        .build();

    let result = ctx.interpolate("Short: ${git.short_sha}");
    assert_eq!(result, "Short: abc1234");
}

#[test]
fn test_env_variables() {
    let ctx = VariableContextBuilder::new()
        .with_env("MY_VAR", "hello")
        .with_env("ANOTHER", "world")
        .build();

    let result = ctx.interpolate("${env.MY_VAR} ${env.ANOTHER}!");
    assert_eq!(result, "hello world!");
}

#[test]
fn test_secrets() {
    let ctx = VariableContextBuilder::new()
        .with_secret("API_KEY", "super-secret-key")
        .build();

    let result = ctx.interpolate("Key: ${secrets.API_KEY}");
    assert_eq!(result, "Key: super-secret-key");
}

#[test]
fn test_unknown_variable_preserved() {
    let ctx = VariableContext::new();
    let result = ctx.interpolate("Unknown: ${unknown.var}");
    assert_eq!(result, "Unknown: ${unknown.var}");
}

#[test]
fn test_pipeline_and_run_context() {
    let ctx = VariableContextBuilder::new()
        .with_pipeline("pipeline-123", "my-pipeline")
        .with_run("run-456", 42)
        .with_stage("build", 1)
        .build();

    let result =
        ctx.interpolate("Pipeline ${pipeline.name} run #${run.number} stage ${stage.name}");
    assert_eq!(result, "Pipeline my-pipeline run #42 stage build");
}

#[test]
fn test_interpolate_vec() {
    let ctx = VariableContextBuilder::new()
        .with_git_branch("develop")
        .build();

    let inputs = vec![
        "echo ${git.branch}".to_string(),
        "deploy to ${git.branch}".to_string(),
    ];
    let results = ctx.interpolate_vec(&inputs);
    assert_eq!(results[0], "echo develop");
    assert_eq!(results[1], "deploy to develop");
}

#[test]
fn test_custom_variables() {
    let mut ctx = VariableContext::new();
    ctx.set("version", "1.2.3");
    ctx.set("app_name", "myapp");

    let result = ctx.interpolate("${app_name} v${version}");
    assert_eq!(result, "myapp v1.2.3");
}

#[test]
fn test_timestamp_variables() {
    let ctx = VariableContext::new();

    let result = ctx.interpolate("${date}");
    // Should be in YYYY-MM-DD format
    assert!(result.len() == 10);
    assert!(result.contains('-'));
}

#[test]
fn test_find_secrets() {
    let ctx = VariableContext::new();
    let secrets = ctx.find_secrets_in_string(
        "Using ${secrets.API_KEY} and ${secrets.DB_PASSWORD} with ${git.sha}",
    );
    assert_eq!(secrets.len(), 2);
    assert!(secrets.contains(&"secrets.API_KEY".to_string()));
    assert!(secrets.contains(&"secrets.DB_PASSWORD".to_string()));
}

#[test]
fn test_nested_braces() {
    let ctx = VariableContextBuilder::new().with_git_sha("abc123").build();

    // Make sure we don't mess up JSON or other nested braces
    let result = ctx.interpolate(r#"{"sha": "${git.sha}"}"#);
    assert_eq!(result, r#"{"sha": "abc123"}"#);
}

#[test]
fn builder_tag_and_custom_values() {
    let ctx = VariableContextBuilder::new()
        .with_git_branch("main")
        .with_git_tag("v1.0")
        .with_custom("flavour", "vanilla")
        .build();
    assert_eq!(ctx.interpolate("${git.tag} ${git.ref} ${git.branch} ${flavour}"), "v1.0 v1.0 main vanilla");
}

#[test]
fn environment_and_secret_values() {
    let mut ctx = VariableContextBuilder::new()
        .with_secret("A", "one")
        .with_secret("B", "two")
        .build();
    let mut secrets = ctx.get_secret_values();
    secrets.sort();
    assert_eq!(secrets, vec!["one", "two"]);
    ctx.populate_env(vec![("HOME".to_string(), "/root".to_string()), ("HOME".to_string(), "/home".to_string())]);
    assert_eq!(ctx.interpolate("${env.HOME}"), "/home");
    let mut m = StrMap::new();
    m.insert("DIR".to_string(), "${env.HOME}/src".to_string());
    m.insert("KEY".to_string(), "${secrets.B}".to_string());
    let out = ctx.interpolate_map(&m);
    assert_eq!(out.get("DIR").map(|s| s.as_str()), Some("/home/src"));
    assert_eq!(out.get("KEY").map(|s| s.as_str()), Some("two"));
    assert_eq!(out.len(), 2);
}

#[test]
fn git_context_from_repository_outputs() {
    let outputs = GitRepoOutputs {
        head_sha: Some("0123456789abcdef\n".to_string()),
        abbrev_ref: Some("HEAD\n".to_string()),
        exact_tag: Some(" v2.1 \n".to_string()),
        subject: Some("Fix it\n".to_string()),
        author_name: Some("Mona\n".to_string()),
        author_email: None,
    };
    let ctx = VariableContext::from_git_repo(&outputs);
    assert_eq!(ctx.git.sha, "0123456789abcdef");
    assert_eq!(ctx.git.short_sha, "0123456");
    assert_eq!(ctx.git.branch, "");
    assert_eq!(ctx.git.tag.as_deref(), Some("v2.1"));
    assert_eq!(ctx.git.ref_name, "v2.1");
    assert_eq!(ctx.git.message, "Fix it");
    assert_eq!(ctx.git.author, "Mona");
    assert_eq!(ctx.git.author_email, "");
    let on_branch = GitRepoOutputs { abbrev_ref: Some("feature/x\n".to_string()), exact_tag: None, ..outputs };
    let ctx = VariableContext::from_git_repo(&on_branch);
    assert_eq!(ctx.git.branch, "feature/x");
    assert_eq!(ctx.git.ref_name, "feature/x");
    assert!(ctx.git.tag.is_none());
}

#[test]
fn git_context_from_ci_environment() {
    let mut env = StrMap::new();
    env.insert("GITHUB_SHA".to_string(), "fedcba9876543210".to_string());
    env.insert("GITHUB_REF_NAME".to_string(), "v3".to_string());
    env.insert("GITHUB_REF_TYPE".to_string(), "tag".to_string());
    env.insert("CI_COMMIT_MESSAGE".to_string(), "Release".to_string());
    let mut ctx = VariableContext::new();
    ctx.populate_git_from_env(&env);
    assert_eq!(ctx.git.sha, "fedcba9876543210");
    assert_eq!(ctx.git.short_sha, "fedcba9");
    assert_eq!(ctx.git.branch, "v3");
    assert_eq!(ctx.git.tag.as_deref(), Some("v3"));
    assert_eq!(ctx.git.ref_name, "v3");
    assert_eq!(ctx.git.message, "Release");
    assert_eq!(ctx.git.author, "");
    env.insert("BUILDIT_BRANCH".to_string(), "main".to_string());
    env.insert("GITHUB_REF_TYPE".to_string(), "branch".to_string());
    let mut ctx = VariableContext::new();
    ctx.populate_git_from_env(&env);
    assert_eq!(ctx.git.branch, "main");
    assert!(ctx.git.tag.is_none());
    assert_eq!(ctx.git.ref_name, "main");
}

fn assert_empty(ctx: &VariableContext) {
    assert_eq!(ctx.git.sha, "");
    assert_eq!(ctx.git.short_sha, "");
    assert_eq!(ctx.git.branch, "");
    assert!(ctx.git.tag.is_none());
    assert_eq!(ctx.git.ref_name, "");
    assert_eq!(ctx.git.message, "");
    assert_eq!(ctx.git.author, "");
    assert_eq!(ctx.git.author_email, "");
    assert_eq!((ctx.pipeline.id.as_str(), ctx.pipeline.name.as_str(), ctx.pipeline.repository.as_str()), ("", "", ""));
    assert_eq!((ctx.run.id.as_str(), ctx.run.number, ctx.run.trigger.as_str()), ("", 0, ""));
    assert_eq!((ctx.stage.name.as_str(), ctx.stage.index), ("", 0));
    assert!(ctx.env.is_empty() && ctx.secrets.is_empty() && ctx.custom.is_empty());
}

#[test]
fn empty_contexts_agree() {
    assert_empty(&VariableContext::new());
    assert_empty(&VariableContext::default());
    assert_empty(&VariableContextBuilder::new().build());
    assert_empty(&VariableContextBuilder::default().build());
}

#[test]
fn ref_follows_the_latest_branch_unless_tagged() {
    let ctx = VariableContextBuilder::new().with_git_branch("a").with_git_branch("b").build();
    assert_eq!(ctx.interpolate("${git.branch} ${git.ref}"), "b b");
    let ctx = VariableContextBuilder::new().with_git_tag("v1").with_git_branch("main").build();
    assert_eq!(ctx.interpolate("${git.branch} ${git.ref} ${git.tag}"), "main v1 v1");
}
