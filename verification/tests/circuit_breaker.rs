use mofa_engine::circuit_breaker::{CircuitBreakerConfig, CircuitBreakerRegistry, CircuitState};

fn test_config() -> CircuitBreakerConfig {
    CircuitBreakerConfig {
        failure_threshold: 3,
        cool_down_secs: 1,
    }
}

const SEC: u64 = 1_000_000_000;

#[test]
fn closed_allows_requests() {
    let mut reg = CircuitBreakerRegistry::new(test_config());
    assert!(reg.allow_request("provider-a"));
    assert_eq!(reg.state("provider-a"), CircuitState::Closed);
}

#[test]
fn opens_after_threshold_failures() {
    let mut reg = CircuitBreakerRegistry::new(test_config());
    reg.record_failure("p");
    reg.record_failure("p");
    assert_eq!(reg.state("p"), CircuitState::Closed);

    reg.record_failure("p");
    assert_eq!(reg.state("p"), CircuitState::Open);
    assert!(!reg.allow_request("p"));
}

#[test]
fn late_success_does_not_reopen_an_open_circuit() {
    let mut reg = CircuitBreakerRegistry::new(test_config());
    reg.record_failure("p");
    reg.record_failure("p");
    reg.record_failure("p");
    assert_eq!(reg.state("p"), CircuitState::Open);

    reg.record_success("p");
    assert_eq!(reg.state("p"), CircuitState::Open);
    assert!(!reg.allow_request("p"));
}

#[test]
fn transitions_to_half_open_after_cooldown_at() {
    let cfg = CircuitBreakerConfig { failure_threshold: 1, cool_down_secs: 0 };
    let mut reg = CircuitBreakerRegistry::new(cfg);
    reg.record_failure_at("p", 0);
    assert_eq!(reg.state("p"), CircuitState::Open);
    assert!(reg.allow_request_at("p", 10));
    assert_eq!(reg.state("p"), CircuitState::HalfOpen);
}

#[test]
fn half_open_admits_exactly_one_probe_at() {
    let cfg = CircuitBreakerConfig { failure_threshold: 1, cool_down_secs: 0 };
    let mut reg = CircuitBreakerRegistry::new(cfg);
    reg.record_failure_at("p", 0);
    assert!(reg.allow_request_at("p", 10));
    assert!(!reg.allow_request_at("p", 11));
    assert!(!reg.allow_request_at("p", 12));
    reg.record_success("p");
    assert_eq!(reg.state("p"), CircuitState::Closed);
    assert!(reg.allow_request_at("p", 13));
}

#[test]
fn stuck_probe_self_heals_at() {
    let cfg = CircuitBreakerConfig { failure_threshold: 1, cool_down_secs: 1 };
    let mut reg = CircuitBreakerRegistry::new(cfg);
    reg.record_failure_at("p", 0);
    assert!(!reg.allow_request_at("p", SEC / 2));
    assert!(reg.allow_request_at("p", SEC + 1));
    assert_eq!(reg.state("p"), CircuitState::HalfOpen);
    assert!(!reg.allow_request_at("p", SEC + 2));
    // After the probe timeout a fresh probe is admitted.
    assert!(reg.allow_request_at("p", 3 * SEC));
}

#[test]
fn failure_in_half_open_reopens_at() {
    let cfg = CircuitBreakerConfig { failure_threshold: 1, cool_down_secs: 0 };
    let mut reg = CircuitBreakerRegistry::new(cfg);
    reg.record_failure_at("p", 0);
    assert!(reg.allow_request_at("p", 10));
    reg.record_failure_at("p", 11);
    assert_eq!(reg.state("p"), CircuitState::Open);
}

#[test]
fn success_resets_failure_count() {
    let mut reg = CircuitBreakerRegistry::new(test_config());
    reg.record_failure("p");
    reg.record_failure("p");
    reg.record_success("p");
    reg.record_failure("p");
    reg.record_failure("p");
    assert_eq!(reg.state("p"), CircuitState::Closed);
}

#[test]
fn default_config_values() {
    let c = CircuitBreakerConfig::default();
    assert_eq!(c.failure_threshold, 3);
    assert_eq!(c.cool_down_secs, 30);
}

#[test]
fn state_names() {
    assert_eq!(CircuitState::Closed.as_str(), "closed");
    assert_eq!(CircuitState::Open.as_str(), "open");
    assert_eq!(CircuitState::HalfOpen.as_str(), "half_open");
}
