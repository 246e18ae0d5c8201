//! A learned region (a traffic cluster with a classical centroid and a
//! quantum center) and the hybrid resonance score against it.
use vstd::prelude::*;

use crate::fixed::{SCALE, ema_spec, lemma_ema_between};
use crate::quantum::{QuantumState, lemma_fidelity_reflexive};
use crate::signature::{ClassicalSignature, lemma_similarity_self_max};

verus! {

/// Attack probability above which a region counts as an attack pattern.
pub const ATTACK_REGION_PROBABILITY: u64 = 700_000;

/// One learned traffic cluster.
#[derive(Debug)]
pub struct GabrielRegion {
    /// Moving average of the classical signatures learned into the region.
    pub classical_center: ClassicalSignature,
    /// The quantum state of the last sample learned into the region.
    pub quantum_center: QuantumState,
    /// Moving-average rate, parts per million.
    pub learning_rate: u64,
    /// Number of samples learned into the region.
    pub sample_count: u64,
    /// Moving average of the attack labels, parts per million.
    pub attack_probability: u64,
    /// Relevance of the region, parts per million; fades under decay.
    pub strength: u64,
}

/// One count more, held at `u64::MAX`.
pub open spec fn count_plus_one(c: u64) -> u64 {
    if c < u64::MAX {
        (c + 1) as u64
    } else {
        c
    }
}

/// `SCALE` for an attack label, `0` for a benign one.
pub open spec fn label_indicator(is_attack: bool) -> u64 {
    if is_attack {
        SCALE
    } else {
        0
    }
}

impl GabrielRegion {
    /// Centers valid, rates and probabilities in `[0, SCALE]`.
    pub open spec fn wf(&self) -> bool {
        &&& self.classical_center.wf()
        &&& self.quantum_center.wf()
        &&& self.learning_rate <= SCALE
        &&& self.attack_probability <= SCALE
        &&& self.strength <= SCALE
    }

    /// The region as `update` leaves it.
    pub open spec fn updated(
        &self,
        classical: ClassicalSignature,
        quantum: QuantumState,
        is_attack: bool,
    ) -> GabrielRegion {
        GabrielRegion {
            classical_center: self.classical_center.blended(&classical, self.learning_rate),
            quantum_center: quantum,
            learning_rate: self.learning_rate,
            sample_count: count_plus_one(self.sample_count),
            attack_probability: ema_spec(
                self.attack_probability as int,
                label_indicator(is_attack) as int,
                self.learning_rate as int,
            ) as u64,
            strength: SCALE,
        }
    }

    /// A region seeded from one labelled sample, before any sample is
    /// counted: its attack probability is the label itself.
    pub fn new(classical: ClassicalSignature, quantum: QuantumState, learning_rate: u64, is_attack: bool) -> (r: GabrielRegion)
        requires
            classical.wf(),
            quantum.wf(),
            learning_rate <= SCALE,
        ensures
            r.wf(),
            r.classical_center == classical,
            r.quantum_center == quantum,
            r.learning_rate == learning_rate,
            r.sample_count == 0,
            r.attack_probability == label_indicator(is_attack),
            r.strength == SCALE,
    {
        GabrielRegion {
            classical_center: classical,
            quantum_center: quantum,
            learning_rate,
            sample_count: 0,
            attack_probability: if is_attack { SCALE } else { 0 },
            strength: SCALE,
        }
    }

    /// Learns one sample: moving average of the classical center and of the
    /// attack probability, the quantum center overwritten by the sample's.
    pub fn update(&mut self, classical: ClassicalSignature, quantum: QuantumState, is_attack: bool)
        requires
            old(self).wf(),
            classical.wf(),
            quantum.wf(),
        ensures
            final(self).wf(),
            *final(self) == old(self).updated(classical, quantum, is_attack),
    {
        if self.sample_count < u64::MAX {
            self.sample_count = self.sample_count + 1;
        }
        let alpha = self.learning_rate;
        self.classical_center.blend(&classical, alpha);
        self.quantum_center = quantum;
        let indicator: u64 = if is_attack { SCALE } else { 0 };
        proof {
            lemma_ema_between(self.attack_probability as int, indicator as int, alpha as int);
        }
        self.attack_probability = crate::fixed::ema(self.attack_probability as i64, indicator as i64, alpha) as u64;
        self.strength = SCALE;
    }

    /// Resonance of a sample with the region under the default weights.
    pub fn hybrid_resonance(&self, classical: &ClassicalSignature, quantum: &QuantumState) -> (r: u64)
        requires
            self.wf(),
            classical.wf(),
            quantum.wf(),
        ensures
            r == HybridScorer::new_spec().resonance_spec(self, classical, quantum),
            r <= SCALE,
    {
        let scorer = HybridScorer::new();
        scorer.resonance(self, classical, quantum)
    }

    /// Whether the region stands for an attack pattern.
    pub fn is_attack_region(&self) -> (r: bool)
        ensures
            r == (self.attack_probability > ATTACK_REGION_PROBABILITY),
    {
        self.attack_probability > ATTACK_REGION_PROBABILITY
    }
}

/// Weights of the classical and the quantum part of the resonance score.
#[derive(Debug, Clone, Copy, PartialEq, Eq, Structural)]
pub struct HybridScorer {
    /// Weight of `1 / (1 + distance)`, parts per million.
    pub classical_weight: u64,
    /// Weight of the fidelity, parts per million.
    pub quantum_weight: u64,
}

impl HybridScorer {
    /// The weights sum to one.
    pub open spec fn wf(&self) -> bool {
        self.classical_weight + self.quantum_weight == SCALE
    }

    /// Resonance of a sample with a region, parts per million.
    pub open spec fn resonance_spec(&self, region: &GabrielRegion, classical: &ClassicalSignature, quantum: &QuantumState) -> int {
        (self.classical_weight * classical.similarity_spec(&region.classical_center)
            + self.quantum_weight * quantum.fidelity_spec(&region.quantum_center)) / SCALE as int
    }

    /// The default weights: `0.3` classical, `0.7` quantum.
    pub open spec fn new_spec() -> HybridScorer {
        HybridScorer { classical_weight: 300_000, quantum_weight: 700_000 }
    }

    /// The weights `0.3` (classical) and `0.7` (quantum).
    pub fn new() -> (r: HybridScorer)
        ensures
            r.wf(),
            r == HybridScorer::new_spec(),
    {
        HybridScorer { classical_weight: 300_000, quantum_weight: 700_000 }
    }

    /// Scorer with the given classical weight; the quantum weight is the rest.
    pub fn with_classical_weight(classical_weight: u64) -> (r: Option<HybridScorer>)
        ensures
            r.is_some() <==> classical_weight <= SCALE,
            r.is_some() ==> r->Some_0.wf() && r->Some_0.classical_weight == classical_weight,
    {
        if classical_weight <= SCALE {
            Some(HybridScorer { classical_weight, quantum_weight: SCALE - classical_weight })
        } else {
            None
        }
    }

    /// `w_c / (1 + distance) + w_q * fidelity`, in `[0, SCALE]`.
    pub fn resonance(&self, region: &GabrielRegion, classical: &ClassicalSignature, quantum: &QuantumState) -> (r: u64)
        requires
            self.wf(),
            region.wf(),
            classical.wf(),
            quantum.wf(),
        ensures
            r == self.resonance_spec(region, classical, quantum),
            r <= SCALE,
    {
        let c = classical.similarity(&region.classical_center);
        let f = quantum.fidelity(&region.quantum_center);
        let wc = self.classical_weight;
        let wq = self.quantum_weight;
        assert(wc * c + wq * f <= SCALE * SCALE) by (nonlinear_arith)
            requires
                c <= SCALE,
                f <= SCALE,
                wc + wq == SCALE,
        ;
        let total: u128 = wc as u128 * c as u128 + wq as u128 * f as u128;
        assert((total as int) / (SCALE as int) <= SCALE) by (nonlinear_arith)
            requires
                total <= SCALE * SCALE,
        ;
        (total / SCALE as u128) as u64
    }
}

/// A region's own centers resonate with it at least as strongly as a sample
/// whose state is no closer to the quantum center than that center itself,
/// whatever its classical signature.
pub proof fn lemma_resonance_peaks_at_center(
    scorer: &HybridScorer,
    region: &GabrielRegion,
    far_classical: &ClassicalSignature,
    far_quantum: &QuantumState,
)
    requires
        scorer.wf(),
        region.wf(),
        far_quantum.fidelity_spec(&region.quantum_center) <= region.quantum_center.fidelity_spec(&region.quantum_center),
    ensures
        scorer.resonance_spec(region, &region.classical_center, &region.quantum_center)
            >= scorer.resonance_spec(region, far_classical, far_quantum),
{
    lemma_similarity_self_max(&region.classical_center, far_classical);
    let c_self = region.classical_center.similarity_spec(&region.classical_center);
    let c_far = far_classical.similarity_spec(&region.classical_center);
    let f_self = region.quantum_center.fidelity_spec(&region.quantum_center);
    let f_far = far_quantum.fidelity_spec(&region.quantum_center);
    let wc = scorer.classical_weight as int;
    let wq = scorer.quantum_weight as int;
    assert(wc * c_far + wq * f_far <= wc * c_self + wq * f_self) by (nonlinear_arith)
        requires
            c_far <= c_self,
            f_far <= f_self,
            wc >= 0,
            wq >= 0,
    ;
    assert((wc * c_far + wq * f_far) / SCALE as int <= (wc * c_self + wq * f_self) / SCALE as int) by (nonlinear_arith)
        requires
            wc * c_far + wq * f_far <= wc * c_self + wq * f_self,
    ;
}

/// A sample far from a valid region's quantum center (fidelity at most
/// `SCALE - 20`) resonates with the region no more than its own centers do.
pub proof fn lemma_far_sample_resonates_less(
    scorer: &HybridScorer,
    region: &GabrielRegion,
    far_classical: &ClassicalSignature,
    far_quantum: &QuantumState,
)
    requires
        scorer.wf(),
        region.wf(),
        far_quantum.fidelity_spec(&region.quantum_center) <= SCALE - 20,
    ensures
        scorer.resonance_spec(region, &region.classical_center, &region.quantum_center)
            >= scorer.resonance_spec(region, far_classical, far_quantum),
{
    lemma_fidelity_reflexive(&region.quantum_center);
    lemma_resonance_peaks_at_center(scorer, region, far_classical, far_quantum);
}

} // verus!
