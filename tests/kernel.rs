use thronion::config::ThronionSettings;
use thronion::engine::EnhancedThronionKernel;
use thronion::kernel::ThronionKernel;
use thronion::optimizer::OptimizerAction;
use thronion::quantum::{QuantumState, HILBERT_DIM};
use thronion::region::{GabrielRegion, HybridScorer};
use thronion::signature::ClassicalSignature;
use thronion::tor::{MetadataExtractor, TorCellType};

/// Harmonic expansion of the five features into the state space, normalised
/// and written in fixed point.
fn embed(sig: &ClassicalSignature) -> QuantumState {
    let v: Vec<f64> = [
        sig.mean_interval,
        sig.std_dev_interval,
        sig.data_ratio,
        sig.intro_ratio,
        sig.log_total_bytes,
    ]
    .iter()
    .map(|x| *x as f64 / 1e6)
    .collect();
    let mut amps = vec![0.0f64; HILBERT_DIM];
    for i in 0..5 {
        amps[i] = v[i];
    }
    for i in 5..HILBERT_DIM {
        let phase = i as f64 * std::f64::consts::PI / HILBERT_DIM as f64;
        amps[i] = v[i % 5] * phase.sin();
    }
    let norm = amps.iter().map(|a| a * a).sum::<f64>().sqrt();
    let re: Vec<i64> = amps.iter().map(|a| (a / norm * 1e6).round() as i64).collect();
    QuantumState::from_amplitudes(re, vec![0; HILBERT_DIM]).unwrap()
}

fn signature_of(timings: &[u64], cells: &[TorCellType], total_bytes: u64) -> ClassicalSignature {
    let timing = MetadataExtractor::extract_timing_features(&timings.to_vec());
    let dist = MetadataExtractor::analyze_cell_types(&cells.to_vec());
    let log = ((total_bytes as f64 / 1024.0).ln() * 1e6).round() as i64;
    ClassicalSignature::from_features(&timing, &dist, log)
}

fn create_test_metadata(is_attack: bool) -> (ClassicalSignature, QuantumState) {
    let sig = if is_attack {
        signature_of(
            &[10, 11, 10, 12],
            &[TorCellType::Data, TorCellType::Data, TorCellType::Data, TorCellType::Padding],
            10_000,
        )
    } else {
        signature_of(
            &[100, 150, 80, 120],
            &[TorCellType::Introduce2, TorCellType::Data, TorCellType::Rendezvous1, TorCellType::Data],
            2_000,
        )
    };
    let state = embed(&sig);
    (sig, state)
}

fn test_signature() -> ClassicalSignature {
    // 100 us mean, 20 us spread, 0.8 data, 0.1 introduction, 1 KB
    ClassicalSignature {
        mean_interval: 100_000,
        std_dev_interval: 20_000,
        data_ratio: 800_000,
        intro_ratio: 100_000,
        log_total_bytes: 0,
    }
}

#[test]
fn test_gabriel_region_creation() {
    let sig = test_signature();
    let quantum = embed(&sig);
    let region = GabrielRegion::new(sig, quantum, 100_000, false);
    assert_eq!(region.sample_count, 0);
    assert_eq!(region.learning_rate, 100_000);
    assert_eq!(region.attack_probability, 0);
}

#[test]
fn test_hybrid_resonance() {
    let sig = test_signature();
    let quantum = embed(&sig);
    let region = GabrielRegion::new(sig, quantum.clone(), 100_000, false);
    let score = region.hybrid_resonance(&sig, &quantum);
    assert!(score > 700_000, "Self-resonance should be high, got {}", score);
    assert!(score >= 999_980);
}

#[test]
fn test_region_update() {
    let sig = test_signature();
    let quantum = embed(&sig);
    let mut region = GabrielRegion::new(sig, quantum.clone(), 100_000, true);
    region.update(sig, quantum, true);
    assert_eq!(region.sample_count, 1);
    assert!(region.attack_probability > 500_000);
}

#[test]
fn region_update_blends_probability() {
    let sig = test_signature();
    let quantum = embed(&sig);
    let mut region = GabrielRegion::new(sig, quantum.clone(), 100_000, true);
    region.update(sig, quantum, false);
    assert_eq!(region.attack_probability, 900_000);
    assert_eq!(region.sample_count, 1);
}

#[test]
fn test_attack_detection() {
    let sig = test_signature();
    let quantum = embed(&sig);
    let mut region = GabrielRegion::new(sig, quantum.clone(), 500_000, true);
    for _ in 0..5 {
        region.update(sig, quantum.clone(), true);
    }
    assert!(region.is_attack_region());
}

#[test]
fn test_kernel_creation() {
    let kernel = ThronionKernel::new();
    assert_eq!(kernel.len(), 0);
    assert_eq!(kernel.stats().attack_threshold, 500_000);
    assert_eq!(kernel.max_regions(), 100);
}

#[test]
fn test_kernel_learning() {
    let mut kernel = ThronionKernel::new();
    let (sig, state) = create_test_metadata(false);
    kernel.learn(sig, state, false);
    assert_eq!(kernel.len(), 1);
    assert!(!kernel.region(0).is_attack_region());
}

#[test]
fn test_kernel_classification() {
    let mut kernel = ThronionKernel::new();
    let (sig, state) = create_test_metadata(false);
    kernel.learn(sig, state.clone(), false);
    let (sig_attack, state_attack) = create_test_metadata(true);
    kernel.learn(sig_attack, state_attack.clone(), true);

    assert!(kernel.len() >= 1);
    assert!(kernel.len() <= 2);

    let (is_attack, resonance, _) = kernel.classify(&sig, &state);
    assert!(!is_attack || resonance < 600_000);

    let (_is_attack_2, _, _) = kernel.classify(&sig_attack, &state_attack);
}

#[test]
fn test_kernel_stats() {
    let mut kernel = ThronionKernel::new();
    let (sig_benign, state_benign) = create_test_metadata(false);
    let (sig_attack, state_attack) = create_test_metadata(true);
    kernel.learn(sig_benign, state_benign, false);
    kernel.learn(sig_attack, state_attack, true);
    let stats = kernel.stats();
    assert!(stats.total_regions >= 1 && stats.total_regions <= 2);
    assert_eq!(stats.attack_regions + stats.benign_regions, stats.total_regions);
}

#[test]
fn test_kernel_capacity() {
    let mut kernel = ThronionKernel::with_params(500_000, 5, 100_000).unwrap();
    for i in 0..10 {
        let (sig, state) = create_test_metadata(i % 2 == 0);
        kernel.learn(sig, state, i % 2 == 0);
    }
    assert!(kernel.len() <= 5);
}

#[test]
fn kernel_rejects_invalid_parameters() {
    assert!(ThronionKernel::with_params(500_000, 0, 100_000).is_err());
    assert!(ThronionKernel::with_params(1_500_000, 5, 100_000).is_err());
    assert!(ThronionKernel::with_params(500_000, 5, 1_500_000).is_err());
}

/// Signatures far apart from each other, each with its own basis state.
fn distinct_sample(k: usize) -> (ClassicalSignature, QuantumState) {
    let sig = ClassicalSignature {
        mean_interval: (k as i64) * 1_000_000_000_000,
        std_dev_interval: 0,
        data_ratio: 0,
        intro_ratio: 0,
        log_total_bytes: 0,
    };
    (sig, QuantumState::basis_state(k % HILBERT_DIM))
}

#[test]
fn kernel_store_never_exceeds_capacity() {
    let mut kernel = ThronionKernel::with_params(500_000, 3, 100_000).unwrap();
    for k in 0..8 {
        let (sig, state) = distinct_sample(k);
        kernel.learn(sig, state, k % 3 == 0);
        assert!(kernel.len() <= 3);
    }
    assert_eq!(kernel.len(), 3);
}

#[test]
fn kernel_evicts_least_confident_region() {
    let mut kernel = ThronionKernel::with_params(500_000, 2, 100_000).unwrap();
    let (s0, q0) = distinct_sample(0);
    let (s1, q1) = distinct_sample(1);
    kernel.learn(s0, q0.clone(), true);
    kernel.learn(s1, q1.clone(), false);
    // pull region 0 toward 0.5 with a benign sample: 1.0 -> 0.9
    kernel.learn(s0, q0, false);
    assert_eq!(kernel.region(0).attack_probability, 900_000);
    let (s2, q2) = distinct_sample(2);
    kernel.learn(s2, q2, true);
    assert_eq!(kernel.len(), 2);
    // region 0 (confidence 0.4) gave way, region 1 (confidence 0.5) stayed
    assert_eq!(kernel.region(0).classical_center, s2);
    assert_eq!(kernel.region(0).attack_probability, 1_000_000);
    assert_eq!(kernel.region(0).sample_count, 1);
    assert_eq!(kernel.region(1).classical_center, s1);
}

#[test]
fn repeated_benign_samples_stay_benign() {
    let mut kernel = ThronionKernel::with_params(500_000, 16, 100_000).unwrap();
    let (sig, state) = create_test_metadata(false);
    for _ in 0..20 {
        kernel.learn(sig, state.clone(), false);
    }
    assert_eq!(kernel.len(), 1);
    let (_, _, idx) = kernel.classify(&sig, &state);
    let region = kernel.region(idx.unwrap());
    assert!(region.attack_probability < 300_000);
    assert_eq!(region.sample_count, 20);
}

#[test]
fn repeated_attack_samples_mark_attack_region() {
    let mut kernel = ThronionKernel::new();
    let (sig, state) = create_test_metadata(true);
    for _ in 0..5 {
        kernel.learn(sig, state.clone(), true);
    }
    assert_eq!(kernel.len(), 1);
    let region = kernel.region(0);
    assert!(region.attack_probability > 700_000);
    assert!(region.is_attack_region());
    let (is_attack, resonance, idx) = kernel.classify(&sig, &state);
    assert!(is_attack);
    assert!(resonance > 300_000);
    assert_eq!(idx, Some(0));
}

#[test]
fn fresh_engine_classifies_benign() {
    let kernel = ThronionKernel::new();
    let (sig, state) = create_test_metadata(true);
    assert_eq!(kernel.classify(&sig, &state), (false, 0, None));
}

#[test]
fn near_duplicate_regions_merge() {
    let mut kernel = ThronionKernel::with_params(500_000, 16, 100_000).unwrap();
    // score by the classical part only, so that both regions get learned
    kernel.set_scorer(HybridScorer::with_classical_weight(1_000_000).unwrap());
    let mut re = vec![0i64; HILBERT_DIM];
    re[0] = 974_679;
    re[1] = 223_607;
    let tilted = QuantumState::from_amplitudes(re, vec![0; HILBERT_DIM]).unwrap();
    let base = QuantumState::basis_state(0);
    assert_eq!(base.fidelity(&tilted), 949_999);
    let (s0, _) = distinct_sample(0);
    let (s1, _) = distinct_sample(1);
    kernel.learn(s0, base, true);
    kernel.learn(s1, tilted.clone(), false);
    kernel.learn(s1, tilted, false);
    assert_eq!(kernel.len(), 2);
    assert_eq!(kernel.region(0).sample_count, 1);
    assert_eq!(kernel.region(1).sample_count, 2);
    kernel.merge_similar(900_000);
    assert_eq!(kernel.len(), 1);
    // (1 * 1.0 + 2 * 0.0) / 3
    assert_eq!(kernel.region(0).attack_probability, 333_333);
    assert_eq!(kernel.region(0).sample_count, 3);
}

#[test]
fn merge_keeps_dissimilar_regions() {
    let mut kernel = ThronionKernel::with_params(500_000, 16, 100_000).unwrap();
    for k in 0..4 {
        let (sig, state) = distinct_sample(k);
        kernel.learn(sig, state, false);
    }
    kernel.merge_similar(900_000);
    assert_eq!(kernel.len(), 4);
}

#[test]
fn decay_scales_strength() {
    let mut kernel = ThronionKernel::new();
    let (sig, state) = distinct_sample(0);
    kernel.learn(sig, state, false);
    kernel.apply_decay(900_000);
    assert_eq!(kernel.region(0).strength, 900_000);
    kernel.apply_decay(500_000);
    assert_eq!(kernel.region(0).strength, 450_000);
    kernel.reset();
    assert!(kernel.is_empty());
}

#[test]
fn resonance_peaks_at_region_center() {
    let scorer = HybridScorer::new();
    let (sig, state) = distinct_sample(0);
    let region = GabrielRegion::new(sig, state.clone(), 100_000, false);
    let at_center = scorer.resonance(&region, &sig, &state);
    assert_eq!(at_center, 1_000_000);
    let (far_sig, far_state) = distinct_sample(1);
    let far = scorer.resonance(&region, &far_sig, &far_state);
    assert!(far < at_center);
    // similarity 1e12 / (1e6 + 1e12) rounds to 0; fidelity 0
    assert_eq!(far, 0);
}

fn engine_settings() -> ThronionSettings {
    ThronionSettings::default()
}

#[test]
fn test_enhanced_kernel_creation() {
    let enhanced = EnhancedThronionKernel::new(&engine_settings()).unwrap();
    assert_eq!(enhanced.classification_count, 0);
    assert_eq!(enhanced.optimization_interval, 100);
}

#[test]
fn test_enhanced_kernel_classification() {
    let mut enhanced = EnhancedThronionKernel::new(&engine_settings()).unwrap();
    let (sig, state) = create_test_metadata(false);
    let (is_attack, _resonance, region_idx) = enhanced.classify(&sig, &state);
    assert!(!is_attack);
    assert!(region_idx.is_none());
    assert_eq!(enhanced.classification_count, 1);
}

#[test]
fn test_enhanced_kernel_learning() {
    let mut enhanced = EnhancedThronionKernel::new(&engine_settings()).unwrap();
    let (sig, state) = create_test_metadata(true);
    enhanced.learn(sig, state, true);
    assert_eq!(enhanced.base_kernel.len(), 1);
}

#[test]
fn test_enhanced_kernel_optimization() {
    let mut settings = engine_settings();
    settings.optimization_interval = 5;
    let mut enhanced = EnhancedThronionKernel::new(&settings).unwrap();
    let (sig, state) = create_test_metadata(false);
    let mut due = 0;
    for _ in 0..10 {
        enhanced.classify(&sig, &state);
        if enhanced.optimization_due() {
            due += 1;
        }
    }
    assert_eq!(enhanced.classification_count, 10);
    assert_eq!(due, 2);
}

#[test]
fn test_enhanced_kernel_stats() {
    let mut enhanced = EnhancedThronionKernel::new(&engine_settings()).unwrap();
    let (sig_attack, state_attack) = create_test_metadata(true);
    let (sig_benign, state_benign) = create_test_metadata(false);
    enhanced.learn(sig_attack, state_attack, true);
    enhanced.learn(sig_benign, state_benign, false);
    let stats = enhanced.stats();
    assert!(stats.total_regions >= 1);
    assert_eq!(stats.classification_count, 0);
}

#[test]
fn test_region_merging() {
    let mut enhanced = EnhancedThronionKernel::new(&engine_settings()).unwrap();
    for _ in 0..3 {
        let (sig, state) = create_test_metadata(true);
        enhanced.learn(sig, state, true);
    }
    let action = enhanced.optimize_step(1_000_000);
    assert_eq!(action, OptimizerAction::MergeAndEvolve);
    assert!(enhanced.base_kernel.len() <= 3);
}

#[test]
fn optimizer_run_is_bounded() {
    let mut enhanced = EnhancedThronionKernel::new(&engine_settings()).unwrap();
    assert_eq!(enhanced.optimize_step(50_000), OptimizerAction::Nothing);
    assert_eq!(enhanced.optimize_step(500_000), OptimizerAction::MergeAndEvolve);
    let mut evolutions = 1;
    loop {
        match enhanced.optimize_step(500_000) {
            OptimizerAction::Evolve => evolutions += 1,
            OptimizerAction::GaveUp => break,
            other => panic!("unexpected {:?}", other),
        }
    }
    assert_eq!(evolutions, 10);
    assert_eq!(enhanced.optimize_step(500_000), OptimizerAction::MergeAndEvolve);
    assert_eq!(enhanced.optimize_step(40_000), OptimizerAction::Stable);
}

#[test]
fn engine_decisions_feed_absorption_window() {
    let mut enhanced = EnhancedThronionKernel::new(&engine_settings()).unwrap();
    assert_eq!(enhanced.decide(900_000), thronion::decision::CircuitAction::Forward);
    assert_eq!(enhanced.decide(100_000), thronion::decision::CircuitAction::Absorb);
    assert_eq!(enhanced.decide(200_000), thronion::decision::CircuitAction::Absorb);
    assert_eq!(enhanced.decide(500_000), thronion::decision::CircuitAction::Absorb);
    let stats = enhanced.stats();
    assert_eq!(stats.total_decisions, 4);
    assert_eq!(stats.forwarded + stats.absorbed, stats.total_decisions);
    assert_eq!(stats.absorption_rate, 750_000);
}

#[test]
fn engine_rejects_invalid_settings() {
    let mut settings = engine_settings();
    settings.max_regions = 0;
    assert!(EnhancedThronionKernel::new(&settings).is_err());
}

#[test]
fn engine_threshold_uses_configured_flood_weight() {
    let mut settings = engine_settings();
    settings.flood_weight = 0;
    settings.threshold_learning_rate = 1_000_000;
    let mut enhanced = EnhancedThronionKernel::new(&settings).unwrap();
    enhanced.update_threshold(0, 1_000_000);
    assert_eq!(enhanced.threshold.value(), 500_000);
    settings.flood_weight = 500_000;
    let mut enhanced = EnhancedThronionKernel::new(&settings).unwrap();
    enhanced.update_threshold(0, 1_000_000);
    assert_eq!(enhanced.threshold.value(), 0);
}
