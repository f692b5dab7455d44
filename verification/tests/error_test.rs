use omni_up::error::UpError;

#[test]
fn adding_context_does_not_repeat_the_variant_prefix() {
    let inner = UpError::Exec("process exited with status 1".to_string());
    let outer = inner.with_context("failed to install packages");

    assert_eq!(
        outer.display_string(),
        "execution error: failed to install packages: process exited with status 1"
    );
    assert_eq!(outer.display_string().matches("execution error").count(), 1);
}

#[test]
fn interpolating_display_is_what_double_prefixed() {
    let inner = UpError::Exec("process exited with status 1".to_string());
    let doubled = UpError::Exec(format!(
        "failed to install packages: {}",
        inner.display_string()
    ));

    assert_eq!(doubled.display_string().matches("execution error").count(), 2);
}

#[test]
fn the_variant_is_preserved() {
    let timeout = UpError::Timeout("waited 60s".to_string()).with_context("installing node");
    assert!(matches!(timeout, UpError::Timeout(_)));
    assert_eq!(timeout.display_string(), "timeout: installing node: waited 60s");
}

#[test]
fn context_stacks_without_accumulating_prefixes() {
    let err = UpError::Exec("boom".to_string())
        .with_context("inner")
        .with_context("outer");

    assert_eq!(err.display_string(), "execution error: outer: inner: boom");
    assert_eq!(err.display_string().matches("execution error").count(), 1);
}

#[test]
fn step_failed_is_left_alone() {
    let step = UpError::StepFailed("node".to_string(), Some((2, 6)));
    let contextual = step.clone().with_context("should not appear");

    assert_eq!(contextual, step);
    assert_eq!(contextual.display_string(), "step 2/6 'node' failed");
}

#[test]
fn tap_in_use_has_no_message_to_extend() {
    let err = UpError::HomebrewTapInUse.with_context("nope");
    assert_eq!(err, UpError::HomebrewTapInUse);
}

#[test]
fn error_display_of_every_variant() {
    assert_eq!(UpError::Config("x".to_string()).display_string(), "configuration error: x");
    assert_eq!(UpError::Cache("x".to_string()).display_string(), "cache error: x");
    assert_eq!(UpError::IOError("x".to_string()).display_string(), "I/O error: x");
    assert_eq!(UpError::HomebrewTapInUse.display_string(), "tap in use");
    assert_eq!(UpError::HomebrewTapInUse.message(), "tap in use");
    assert_eq!(
        UpError::StepFailed("go".to_string(), None).display_string(),
        "step 'go' failed"
    );
    assert_eq!(
        UpError::StepFailed("go".to_string(), Some((10, 120))).display_string(),
        "step 10/120 'go' failed"
    );
    assert_eq!(
        UpError::Cache("c".to_string()).with_context("ctx").message(),
        "ctx: c"
    );
}
