use thronion::tor::CircuitEvent;
use thronion::VERSION;

#[test]
fn lib_test_version() {
    assert!(!VERSION.is_empty());
}

#[test]
fn test_circuit_event_types() {
    let event1 = CircuitEvent::Launched { circuit_id: 1 };
    let event2 = CircuitEvent::Built { circuit_id: 1 };
    let event3 = CircuitEvent::Failed {
        circuit_id: 1,
        reason: "timeout".to_string(),
    };

    assert!(matches!(event1, CircuitEvent::Launched { .. }));
    assert!(matches!(event2, CircuitEvent::Built { .. }));
    assert!(matches!(event3, CircuitEvent::Failed { .. }));
}
