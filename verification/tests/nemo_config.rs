use praxis::nemo::{DEFAULT_TIMEOUT_MS, NemoConfig, NemoProvider, default_timeout_ms};

#[test]
fn default_timeout_is_ten_seconds() {
    assert_eq!(default_timeout_ms(), 10_000);
    assert_eq!(DEFAULT_TIMEOUT_MS, 10_000);
}

#[test]
fn valid_config_builds_provider() {
    let p = NemoProvider::from_config(NemoConfig {
        endpoint: "http://nemo:8000/v1/guardrail/checks".to_owned(),
        timeout_ms: 2500,
    })
    .ok()
    .unwrap();
    assert_eq!(p.endpoint(), "http://nemo:8000/v1/guardrail/checks");
    assert_eq!(p.timeout_ms(), 2500);
}

#[test]
fn empty_endpoint_is_rejected_first() {
    let e = NemoProvider::from_config(NemoConfig { endpoint: String::new(), timeout_ms: 0 })
        .err()
        .unwrap();
    assert_eq!(e.message, "ai_guardrails (nemo): 'endpoint' must not be empty");
}

#[test]
fn zero_timeout_is_rejected() {
    let e = NemoProvider::from_config(NemoConfig { endpoint: "http://n".to_owned(), timeout_ms: 0 })
        .err()
        .unwrap();
    assert_eq!(e.message, "ai_guardrails (nemo): 'timeout_ms' must be greater than zero");
}
