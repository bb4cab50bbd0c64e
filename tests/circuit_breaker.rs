use scryfall_cache::circuit_breaker::{
    CircuitBreaker, CircuitBreakerConfig, CircuitBreakerError, CircuitState, CircuitStateData,
};

fn fail(cb: &mut CircuitBreaker, now: u64) -> bool {
    match cb.permit::<&str>(now) {
        Ok(()) => cb.execute::<(), &str>(Err("failure"), now).is_err(),
        Err(_) => true,
    }
}

#[test]
fn test_circuit_breaker_opens_after_failures() {
    let config = CircuitBreakerConfig {
        failure_threshold: 3,
        success_threshold: 2,
        timeout_ms: 1000,
        half_open_max_requests: 2,
    };
    let mut cb = CircuitBreaker::new("test".to_string(), config);
    for _ in 0..3 {
        assert!(fail(&mut cb, 0));
    }
    assert_eq!(cb.state(0), CircuitState::Open);
}

#[test]
fn test_circuit_breaker_rejects_when_open() {
    let config = CircuitBreakerConfig {
        failure_threshold: 2,
        success_threshold: 2,
        timeout_ms: 1000,
        half_open_max_requests: 2,
    };
    let mut cb = CircuitBreaker::new("test".to_string(), config);
    for _ in 0..2 {
        fail(&mut cb, 0);
    }
    let result = cb.permit::<&str>(10);
    assert!(matches!(result, Err(CircuitBreakerError::Open)));
}

#[test]
fn test_circuit_breaker_transitions_to_half_open() {
    let config = CircuitBreakerConfig {
        failure_threshold: 2,
        success_threshold: 2,
        timeout_ms: 100,
        half_open_max_requests: 2,
    };
    let mut cb = CircuitBreaker::new("test".to_string(), config);
    for _ in 0..2 {
        fail(&mut cb, 0);
    }
    assert_eq!(cb.state(0), CircuitState::Open);
    assert_eq!(cb.state(150), CircuitState::HalfOpen);
}

#[test]
fn test_circuit_breaker_closes_after_recovery() {
    let config = CircuitBreakerConfig {
        failure_threshold: 2,
        success_threshold: 2,
        timeout_ms: 100,
        half_open_max_requests: 3,
    };
    let mut cb = CircuitBreaker::new("test".to_string(), config);
    for _ in 0..2 {
        fail(&mut cb, 0);
    }
    assert_eq!(cb.state(150), CircuitState::HalfOpen);
    for _ in 0..2 {
        assert!(cb.permit::<&str>(150).is_ok());
        let result = cb.execute::<(), &str>(Ok(()), 150);
        assert!(result.is_ok());
    }
    assert_eq!(cb.state(150), CircuitState::Closed);
}

#[test]
fn open_fallback_after_five_failures_and_recovery() {
    let config = CircuitBreakerConfig {
        failure_threshold: 5,
        success_threshold: 2,
        timeout_ms: 1000,
        half_open_max_requests: 3,
    };
    let mut cb = CircuitBreaker::new("upstream".to_string(), config);
    for t in 0..5u64 {
        assert!(cb.permit::<&str>(t).is_ok());
        assert!(matches!(cb.execute::<(), &str>(Err("502"), t), Err(CircuitBreakerError::Inner("502"))));
    }
    // the sixth call is refused without running
    assert!(matches!(cb.permit::<&str>(5), Err(CircuitBreakerError::Open)));
    // after the timeout two probes succeed and the breaker closes
    assert!(cb.permit::<&str>(1004).is_ok());
    assert!(cb.execute::<u8, &str>(Ok(7), 1004) .is_ok());
    assert_eq!(cb.state(1004), CircuitState::HalfOpen);
    assert!(cb.permit::<&str>(1005).is_ok());
    assert!(matches!(cb.execute::<u8, &str>(Ok(8), 1005), Ok(8)));
    assert_eq!(cb.state(1005), CircuitState::Closed);
    let m = cb.metrics();
    assert_eq!(m.name, "upstream");
    assert_eq!(m.failure_count, 0);
}

#[test]
fn failed_probe_reopens_and_probe_limit_holds() {
    let config = CircuitBreakerConfig {
        failure_threshold: 1,
        success_threshold: 3,
        timeout_ms: 10,
        half_open_max_requests: 1,
    };
    let mut cb = CircuitBreaker::new("b".to_string(), config);
    fail(&mut cb, 0);
    assert!(cb.permit::<&str>(10).is_ok());
    assert!(matches!(cb.permit::<&str>(10), Err(CircuitBreakerError::Open)));
    assert!(cb.execute::<(), &str>(Err("x"), 11).is_err());
    assert_eq!(cb.state(12), CircuitState::Open);
    assert_eq!(cb.state(21), CircuitState::HalfOpen);
}

#[test]
fn state_record_helpers() {
    let mut d = CircuitStateData::new();
    assert_eq!(d.state, CircuitState::Closed);
    assert!(!d.should_attempt_reset(10, 100));
    d.state = CircuitState::Open;
    d.last_failure_time = Some(50);
    d.failure_count = 4;
    assert!(!d.should_attempt_reset(100, 149));
    assert!(d.should_attempt_reset(100, 150));
    d.reset();
    assert_eq!(d.failure_count, 0);
    assert_eq!(d.state, CircuitState::Open);
    assert_eq!(CircuitState::Closed.as_metric_value(), 0);
    assert_eq!(CircuitState::Open.as_metric_value(), 1);
    assert_eq!(CircuitState::HalfOpen.as_metric_value(), 2);
    let c = CircuitBreakerConfig::default();
    assert_eq!((c.failure_threshold, c.success_threshold, c.timeout_ms, c.half_open_max_requests), (5, 2, 60_000, 3));
}
