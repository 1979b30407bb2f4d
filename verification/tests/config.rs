use buildit::config::{parse_pipeline, ConfigError};

#[test]
fn test_parse_simple_pipeline() {
    let kdl = r#"
        pipeline "test-pipeline"

        stage "build" {
            image "rust:1.75"
            run "cargo build"
        }
    "#;

    let pipeline = parse_pipeline(kdl).unwrap();
    assert_eq!(pipeline.name, "test-pipeline");
    assert_eq!(pipeline.stages.len(), 1);
    assert_eq!(pipeline.stages[0].name, "build");
}

#[test]
fn test_parse_pipeline_with_dependencies() {
    let kdl = r#"
        pipeline "multi-stage"

        stage "test" {
            image "rust:1.75"
            run "cargo test"
        }

        stage "build" needs="test" {
            image "rust:1.75"
            run "cargo build --release"
        }
    "#;

    let pipeline = parse_pipeline(kdl).unwrap();
    assert_eq!(pipeline.stages.len(), 2);
    assert_eq!(pipeline.stages[1].needs, vec!["test"]);
}

#[test]
fn test_detect_missing_dependency() {
    let kdl = r#"
        pipeline "bad-deps"

        stage "build" needs="nonexistent" {
            image "rust:1.75"
            run "cargo build"
        }
    "#;

    let result = parse_pipeline(kdl);
    assert!(result.is_err());
    assert!(matches!(
        result.unwrap_err(),
        ConfigError::InvalidReference(_)
    ));
}

#[test]
fn test_detect_cycle() {
    let kdl = r#"
        pipeline "cyclic"

        stage "a" needs="b" {
            image "alpine"
            run "echo a"
        }

        stage "b" needs="a" {
            image "alpine"
            run "echo b"
        }
    "#;

    let result = parse_pipeline(kdl);
    assert!(result.is_err());
    assert!(matches!(result.unwrap_err(), ConfigError::CycleDetected(_)));
}

#[test]
fn unknown_trigger_type_is_an_invalid_value() {
    let kdl = r#"
        pipeline "p"
        on "nightly"
        stage "build" {
            image "rust:1.75"
            run "cargo build"
        }
    "#;
    match parse_pipeline(kdl) {
        Err(e @ ConfigError::InvalidValue { .. }) => {
            assert_eq!(e.message(), "invalid value for trigger type: unknown trigger type: nightly");
        }
        _ => panic!("expected an invalid value"),
    }
}

#[test]
fn schedule_without_cron_is_a_missing_field() {
    let kdl = r#"
        pipeline "p"
        on "schedule"
    "#;
    match parse_pipeline(kdl) {
        Err(e @ ConfigError::MissingField(_)) => {
            assert_eq!(e.message(), "missing required field: schedule cron");
        }
        _ => panic!("expected a missing field"),
    }
}

#[test]
fn duplicate_error_message() {
    let e = ConfigError::Duplicate("stage build".to_string());
    assert_eq!(e.message(), "duplicate definition: stage build");
}
