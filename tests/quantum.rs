use thronion::quantum::{QuantumState, StateError, HILBERT_DIM};
use thronion::signature::ClassicalSignature;

fn tilted_state() -> QuantumState {
    // amplitudes sqrt(0.95) and sqrt(0.05) on the first two coordinates
    let mut re = vec![0i64; HILBERT_DIM];
    re[0] = 974_679;
    re[1] = 223_607;
    QuantumState::from_amplitudes(re, vec![0i64; HILBERT_DIM]).unwrap()
}

#[test]
fn test_basis_state() {
    let state = QuantumState::basis_state(3);
    assert_eq!(state.re[3], 1_000_000);
    for i in 0..HILBERT_DIM {
        assert_eq!(state.im[i], 0);
        if i != 3 {
            assert_eq!(state.re[i], 0);
        }
    }
}

#[test]
fn test_fidelity_identical() {
    let state = QuantumState::basis_state(2);
    assert_eq!(state.fidelity(&state), 1_000_000);
    let tilted = tilted_state();
    let f = tilted.fidelity(&tilted);
    assert!(f >= 1_000_000 - 20 && f <= 1_000_000);
}

#[test]
fn test_fidelity_orthogonal() {
    let state1 = QuantumState::basis_state(0);
    let state2 = QuantumState::basis_state(1);
    assert_eq!(state1.fidelity(&state2), 0);
}

#[test]
fn fidelity_is_symmetric_and_exact() {
    let a = QuantumState::basis_state(0);
    let b = tilted_state();
    assert_eq!(a.fidelity(&b), 949_999);
    assert_eq!(b.fidelity(&a), 949_999);
}

#[test]
fn fidelity_with_complex_amplitudes() {
    // (1/sqrt2)(|0> + i|1>) against |1>: |<a,b>|^2 = 1/2
    let mut re = vec![0i64; HILBERT_DIM];
    let mut im = vec![0i64; HILBERT_DIM];
    re[0] = 707_107;
    im[1] = 707_107;
    let a = QuantumState::from_amplitudes(re, im).unwrap();
    let b = QuantumState::basis_state(1);
    assert_eq!(a.fidelity(&b), 500_000);
    assert_eq!(b.fidelity(&a), 500_000);
}

#[test]
fn state_construction_errors() {
    assert_eq!(
        QuantumState::from_amplitudes(vec![0; 5], vec![0; HILBERT_DIM]),
        Err(StateError::WrongDimension)
    );
    assert_eq!(
        QuantumState::from_amplitudes(vec![0; HILBERT_DIM], vec![0; HILBERT_DIM]),
        Err(StateError::NullVector)
    );
    let mut re = vec![0i64; HILBERT_DIM];
    re[4] = 500_000;
    assert_eq!(
        QuantumState::from_amplitudes(re, vec![0; HILBERT_DIM]),
        Err(StateError::NotNormalized)
    );
    let mut re = vec![0i64; HILBERT_DIM];
    re[4] = 3_000_000;
    assert_eq!(
        QuantumState::from_amplitudes(re, vec![0; HILBERT_DIM]),
        Err(StateError::AmplitudeOutOfRange)
    );
}

fn signature(mean: i64) -> ClassicalSignature {
    ClassicalSignature {
        mean_interval: mean,
        std_dev_interval: 20_000,
        data_ratio: 800_000,
        intro_ratio: 100_000,
        log_total_bytes: 0,
    }
}

#[test]
fn similarity_is_one_over_one_plus_distance() {
    let a = signature(100_000);
    assert_eq!(a.similarity(&a), 1_000_000);
    // distance 1.0
    let b = signature(1_100_000);
    assert_eq!(a.distance_sq(&b), 1_000_000_000_000);
    assert_eq!(a.similarity(&b), 500_000);
    // distance 3.0
    let c = signature(3_100_000);
    assert_eq!(c.similarity(&a), 250_000);
}

#[test]
fn blend_moves_toward_sample() {
    let mut a = signature(100_000);
    let b = signature(1_100_000);
    a.blend(&b, 100_000);
    assert_eq!(a.mean_interval, 200_000);
    let mut c = signature(1_100_000);
    c.blend(&signature(100_000), 250_000);
    assert_eq!(c.mean_interval, 850_000);
}
