//! Fencing, lifecycle and redaction of control requests.

use sandbox_runner::control::executor::unsupported_lifecycle_request;
use sandbox_runner::control::executor::valid_control_id;
use sandbox_runner::control::executor::MAX_CONTROL_ID_BYTES;
use sandbox_runner::control::model::ControlRequest;
use sandbox_runner::control::model::SecretLiveChange;
use sandbox_runner::control::model::SecretValue;

type Request = ControlRequest<()>;

fn assert_redacted() {
    let request = Request::SecretsUpdate {
        changes: vec![SecretLiveChange::Rotate {
            name: "API_KEY".into(),
            value: SecretValue("sentinel-secret-value".into()),
        }],
    };

    let debug = request.describe();
    assert!(!debug.contains("sentinel-secret-value"));
    assert!(debug.contains("[redacted]"));
    assert!(debug.contains("API_KEY"));
}

#[test]
fn control_secret_value_debug_is_redacted() {
    let request = Request::SecretsUpdate {
        changes: vec![SecretLiveChange::Rotate {
            name: "API_KEY".into(),
            value: SecretValue("sentinel-secret-value".into()),
        }],
    };

    let debug = request.describe();
    assert!(!debug.contains("sentinel-secret-value"));
    assert!(debug.contains("[redacted]"));
    assert!(debug.contains("API_KEY"));
}

#[test]
fn legacy_tests_secret_value_debug_is_redacted() {
    let request = Request::SecretsUpdate {
        changes: vec![SecretLiveChange::Rotate {
            name: "API_KEY".into(),
            value: SecretValue("sentinel-secret-value".into()),
        }],
    };

    let debug = request.describe();
    assert!(!debug.contains("sentinel-secret-value"));
    assert!(debug.contains("[redacted]"));
    assert!(debug.contains("API_KEY"));
}

#[test]
fn tests_secret_value_debug_is_redacted() {
    assert_redacted();
}

#[test]
fn unsupported_pause_and_resume_refuse_before_idempotent_mutation() {
    for request in [Request::Pause, Request::Resume] {
        let refused = unsupported_lifecycle_request(&request, false).unwrap();
        assert!(!refused.ok);
        assert_eq!(
            refused.error_code.as_deref(),
            Some("pause_resume_unavailable")
        );
        assert!(refused.pause.is_none());
        assert!(unsupported_lifecycle_request(&request, true).is_none());
    }
    // Observation remains safe without a kernel clock callback.
    assert!(unsupported_lifecycle_request(&Request::PauseState, false).is_none());
    assert!(unsupported_lifecycle_request(&Request::Capabilities, false).is_none());
}

#[test]
fn control_ids_are_bounded_and_printable() {
    assert!(valid_control_id("request_42"));
    assert!(!valid_control_id(""));
    assert!(!valid_control_id("contains space"));
    assert!(!valid_control_id(&"x".repeat(MAX_CONTROL_ID_BYTES + 1)));
}
