use thronion::decision::{CircuitAction, DecisionEngine};
use thronion::threshold::AdaptiveThreshold;

#[test]
fn test_decision_engine() {
    let mut engine = DecisionEngine::new();

    let action1 = engine.decide(800_000, 500_000);
    assert_eq!(action1, CircuitAction::Forward);

    let action2 = engine.decide(300_000, 500_000);
    assert_eq!(action2, CircuitAction::Absorb);

    let stats = engine.statistics();
    assert_eq!(stats.total_decisions, 2);
    assert_eq!(stats.forwarded, 1);
    assert_eq!(stats.absorbed, 1);
}

#[test]
fn decision_score_equal_to_threshold_absorbs() {
    let mut engine = DecisionEngine::new();
    assert_eq!(engine.decide(500_000, 500_000), CircuitAction::Absorb);
    assert_eq!(engine.decide(500_001, 500_000), CircuitAction::Forward);
}

#[test]
fn decision_counts_add_up_and_reset() {
    let mut engine = DecisionEngine::new();
    for i in 0..25u64 {
        engine.decide(i * 40_000, 500_000);
    }
    let stats = engine.statistics();
    assert_eq!(stats.forwarded + stats.absorbed, stats.total_decisions);
    assert_eq!(stats.total_decisions, 25);
    // scores 0, 40_000, ..., 480_000 and 520_000, ..., 960_000
    assert_eq!(stats.absorbed, 13);
    assert_eq!(stats.forwarded, 12);
    assert_eq!(stats.absorption_rate, 520_000);
    engine.reset();
    let stats = engine.statistics();
    assert_eq!(stats.total_decisions, 0);
    assert_eq!(stats.forwarded, 0);
    assert_eq!(stats.absorbed, 0);
    assert_eq!(stats.absorption_rate, 0);
}

#[test]
fn test_adaptive_threshold() {
    let threshold = AdaptiveThreshold::new(500_000, 1_000, 950_000);
    let mut threshold = threshold.unwrap();
    threshold.update(800_000, 300_000);
    let value = threshold.value();
    assert!(value <= 1_000_000);
}

#[test]
fn lib_test_threshold_update() {
    // gradient 0.2 (no coherence, flood energy 1.0 at weight 0.2), rate 0.1
    let mut threshold = AdaptiveThreshold::new(500_000, 100_000, 950_000).unwrap();
    threshold.update(0, 1_000_000);
    assert!(threshold.value() < 500_000);
    assert_eq!(threshold.value(), 480_000);
}

#[test]
fn threshold_rises_with_coherence_and_clamps() {
    let mut threshold = AdaptiveThreshold::new(500_000, 1_000_000, 950_000).unwrap();
    // gradient -0.3: theta 0.5 + 0.3
    threshold.update(300_000, 0);
    assert_eq!(threshold.value(), 800_000);
    threshold.update(1_000_000, 0);
    assert_eq!(threshold.value(), 1_000_000);
    // gradient 0.2 * 5.0 = 1.0 pushes it to the floor
    threshold.update(0, 5_000_000);
    threshold.update(0, 5_000_000);
    assert_eq!(threshold.value(), 0);
}

#[test]
fn threshold_rejects_out_of_range_parameters() {
    assert!(AdaptiveThreshold::new(1_500_000, 1_000, 950_000).is_err());
    assert!(AdaptiveThreshold::new(500_000, 1_000_001, 950_000).is_err());
    assert!(AdaptiveThreshold::new(500_000, 1_000, 1_000_001).is_err());
}

#[test]
fn absorption_rate_over_window() {
    let mut threshold = AdaptiveThreshold::new(500_000, 1_000, 950_000).unwrap();
    assert_eq!(threshold.absorption_rate(), 0);
    threshold.record_absorption(true);
    threshold.record_absorption(false);
    threshold.record_absorption(true);
    threshold.record_absorption(true);
    assert_eq!(threshold.absorption_rate(), 750_000);
    assert!(!threshold.has_converged());
}

#[test]
fn absorption_window_drops_oldest() {
    let mut threshold = AdaptiveThreshold::new(500_000, 1_000, 1_000_000).unwrap();
    for _ in 0..1000 {
        threshold.record_absorption(false);
    }
    assert_eq!(threshold.absorption_rate(), 0);
    for _ in 0..1000 {
        threshold.record_absorption(true);
    }
    assert_eq!(threshold.absorption_rate(), 1_000_000);
    assert!(threshold.has_converged());
    threshold.record_absorption(false);
    assert_eq!(threshold.absorption_rate(), 999_000);
}

#[test]
fn threshold_update_from_absorption_uses_forwarded_share() {
    // window: 3 absorbed of 4, so the flood energy is 0.25
    let mut threshold = AdaptiveThreshold::new(500_000, 1_000_000, 950_000).unwrap();
    threshold.record_absorption(true);
    threshold.record_absorption(true);
    threshold.record_absorption(false);
    threshold.record_absorption(true);
    // gradient = -0.1 + 0.2 * 0.25 = -0.05
    threshold.update_from_absorption(100_000);
    assert_eq!(threshold.value(), 550_000);
}
