//! How a miss is told from a failure.

use capsule_workspace_core::error::{is_not_found, names_absence, StoreError};

#[test]
fn only_not_found_is_a_miss() {
    let missing = anyhow::Error::new(StoreError::NotFound("x".to_string()));
    assert!(is_not_found(&missing));
    assert!(is_not_found(&missing.context("while reading")));
    assert!(!is_not_found(&anyhow::Error::new(StoreError::Failed("x".to_string()))));
    assert!(!is_not_found(&anyhow::Error::msg("not found: x")));
    assert!(!is_not_found(&anyhow::Error::new(std::io::Error::from(std::io::ErrorKind::NotFound))));
}

#[test]
fn absence_is_named_by_not_found() {
    assert!(names_absence(Some(&StoreError::NotFound("x".to_string()))));
    assert!(!names_absence(Some(&StoreError::Failed("x".to_string()))));
    assert!(!names_absence(None));
}

#[test]
fn errors_say_what_happened() {
    assert_eq!(StoreError::NotFound("x".to_string()).to_string(), "not found: x");
    assert_eq!(StoreError::Failed("timed out".to_string()).to_string(), "timed out");
}

#[test]
fn a_miss_attached_as_context_is_a_miss() {
    let cause = anyhow::Error::new(std::fmt::Error);
    assert!(!is_not_found(&cause));
    assert!(is_not_found(&cause.context(StoreError::NotFound("x".to_string()))));
}
