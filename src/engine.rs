//! The classification engine: the region store, the adaptive threshold, the
//! decision counters and the optimizer, behind one interface.
use vstd::prelude::*;

use crate::config::{ConfigError, ThronionSettings, settings_error};
use crate::decision::{CircuitAction, DecisionEngine, rate_of};
use crate::fixed::SCALE;
use crate::kernel::{ThronionKernel, count_attack, decayed, merge_pass};
use crate::optimizer::{Optimizer, OptimizerAction, optimizer_next};
use crate::quantum::QuantumState;
use crate::region::HybridScorer;
use crate::signature::ClassicalSignature;
use crate::threshold::{ABSORPTION_WINDOW, AdaptiveThreshold};

verus! {

/// What the engine reports of itself.
#[derive(Debug, Clone, Copy, PartialEq, Eq, Structural)]
pub struct EngineStats {
    pub total_regions: usize,
    pub attack_regions: usize,
    pub benign_regions: usize,
    /// Rolling absorption rate, parts per million.
    pub absorption_rate: u64,
    pub total_decisions: u64,
    pub forwarded: u64,
    pub absorbed: u64,
    pub classification_count: u64,
}

/// The engine.
pub struct EnhancedThronionKernel {
    /// The learned regions.
    pub base_kernel: ThronionKernel,
    /// The adaptive decision threshold.
    pub threshold: AdaptiveThreshold,
    /// The decision counters.
    pub decisions: DecisionEngine,
    /// The optimizer's state.
    pub optimizer: Optimizer,
    /// Classifications between two optimizer runs.
    pub optimization_interval: u64,
    /// Classifications so far (held at `u64::MAX`).
    pub classification_count: u64,
    /// Fidelity above which the optimizer merges two regions.
    pub merge_fidelity_threshold: u64,
    /// Strength a region keeps per decay step, parts per million.
    pub decay_factor: u64,
}

impl EnhancedThronionKernel {
    /// Every part valid.
    pub open spec fn wf(&self) -> bool {
        &&& self.base_kernel.wf()
        &&& self.threshold.wf()
        &&& self.decisions.wf()
        &&& self.optimizer.wf()
        &&& self.optimization_interval > 0
        &&& self.decay_factor <= SCALE
    }

    /// Builds an engine from validated settings; refuses settings with a
    /// parameter out of range.
    pub fn new(settings: &ThronionSettings) -> (r: Result<EnhancedThronionKernel, ConfigError>)
        ensures
            r.is_ok() <==> settings.valid(),
            r.is_err() ==> settings_error(*settings) == Some(r->Err_0),
            r.is_ok() ==> {
                let e = r->Ok_0;
                &&& e.wf()
                &&& e.base_kernel@.len() == 0
                &&& e.base_kernel.max_regions_spec() == settings.max_regions
                &&& e.base_kernel.learning_rate_spec() == settings.learning_rate_alpha
                &&& e.base_kernel.scorer_spec().classical_weight == settings.classical_weight
                &&& e.threshold.value_spec() == settings.initial_threshold
                &&& e.threshold.lambda_spec() == settings.threshold_learning_rate
                &&& e.threshold.target_spec() == settings.target_absorption_rate
                &&& e.threshold.flood_weight_spec() == settings.flood_weight
                &&& e.threshold.history_spec().len() == 0
                &&& e.decisions.total_spec() == 0
                &&& e.optimization_interval == settings.optimization_interval
                &&& e.classification_count == 0
                &&& e.merge_fidelity_threshold == settings.merge_fidelity_threshold
                &&& e.decay_factor == SCALE - settings.decay_rate_beta
                &&& e.optimizer == Optimizer::new_spec(settings.instability_threshold, settings.stability_tolerance)
            },
    {
        match settings.validate() {
            Err(e) => {
                return Err(e);
            },
            Ok(()) => {},
        }
        let mut base_kernel = match ThronionKernel::with_params(
            settings.initial_threshold,
            settings.max_regions,
            settings.learning_rate_alpha,
        ) {
            Ok(k) => k,
            Err(e) => {
                return Err(e);
            },
        };
        match HybridScorer::with_classical_weight(settings.classical_weight) {
            Some(scorer) => base_kernel.set_scorer(scorer),
            None => {
                return Err(ConfigError::InvalidScoringWeight);
            },
        }
        let mut threshold = match AdaptiveThreshold::new(
            settings.initial_threshold,
            settings.threshold_learning_rate,
            settings.target_absorption_rate,
        ) {
            Ok(t) => t,
            Err(e) => {
                return Err(e);
            },
        };
        threshold.set_flood_weight(settings.flood_weight);
        Ok(EnhancedThronionKernel {
            base_kernel,
            threshold,
            decisions: DecisionEngine::new(),
            optimizer: Optimizer::new(settings.instability_threshold, settings.stability_tolerance),
            optimization_interval: settings.optimization_interval as u64,
            classification_count: 0,
            merge_fidelity_threshold: settings.merge_fidelity_threshold,
            decay_factor: SCALE - settings.decay_rate_beta,
        })
    }

    /// Classifies a sample against the store (see `ThronionKernel::classify`)
    /// and counts the classification.
    pub fn classify(&mut self, classical: &ClassicalSignature, quantum: &QuantumState) -> (r: (bool, u64, Option<usize>))
        requires
            old(self).wf(),
            classical.wf(),
            quantum.wf(),
        ensures
            final(self).wf(),
            final(self).base_kernel == old(self).base_kernel,
            final(self).classification_count == (if old(self).classification_count < u64::MAX {
                old(self).classification_count + 1
            } else {
                old(self).classification_count as int
            }),
            old(self).base_kernel@.len() == 0 ==> r == (false, 0u64, None::<usize>),
            old(self).base_kernel@.len() > 0 ==> {
                let k = &old(self).base_kernel;
                let b = k.best_index(classical, quantum);
                &&& r.2 == Some(b as usize)
                &&& r.1 == k.score(b, classical, quantum)
                &&& r.0 == (r.1 > crate::kernel::WEAK_MATCH
                    && k@[b].attack_probability > crate::region::ATTACK_REGION_PROBABILITY)
            },
    {
        if self.classification_count < u64::MAX {
            self.classification_count = self.classification_count + 1;
        }
        self.base_kernel.classify(classical, quantum)
    }

    /// Whether the optimizer is due: a positive multiple of the interval of
    /// classifications has been reached.
    pub fn optimization_due(&self) -> (r: bool)
        requires
            self.wf(),
        ensures
            r == (self.classification_count > 0 && self.classification_count % self.optimization_interval == 0),
    {
        self.classification_count > 0 && self.classification_count % self.optimization_interval == 0
    }

    /// Learns a labelled sample into the store (see `ThronionKernel::learn`).
    pub fn learn(&mut self, classical: ClassicalSignature, quantum: QuantumState, is_attack: bool)
        requires
            old(self).wf(),
            classical.wf(),
            quantum.wf(),
        ensures
            final(self).wf(),
            final(self).base_kernel@ == old(self).base_kernel.learned(classical, quantum, is_attack),
            final(self).base_kernel@.len() <= final(self).base_kernel.max_regions_spec(),
            final(self).base_kernel.max_regions_spec() == old(self).base_kernel.max_regions_spec(),
            final(self).threshold == old(self).threshold,
            final(self).decisions == old(self).decisions,
            final(self).classification_count == old(self).classification_count,
    {
        self.base_kernel.learn(classical, quantum, is_attack);
    }

    /// Decides on a scored circuit against the current threshold, counts the
    /// decision and records the outcome in the absorption window.
    pub fn decide(&mut self, score: u64) -> (r: CircuitAction)
        requires
            old(self).wf(),
            old(self).decisions.total_spec() < u64::MAX,
        ensures
            final(self).wf(),
            r == DecisionEngine::action_spec(score, old(self).threshold.value_spec()),
            final(self).decisions.total_spec() == old(self).decisions.total_spec() + 1,
            r == CircuitAction::Forward ==> final(self).decisions.forwarded_spec() == old(self).decisions.forwarded_spec() + 1
                && final(self).decisions.absorbed_spec() == old(self).decisions.absorbed_spec(),
            r == CircuitAction::Absorb ==> final(self).decisions.absorbed_spec() == old(self).decisions.absorbed_spec() + 1
                && final(self).decisions.forwarded_spec() == old(self).decisions.forwarded_spec(),
            final(self).threshold.history_spec() == (if old(self).threshold.history_spec().len() < ABSORPTION_WINDOW {
                old(self).threshold.history_spec().push(r == CircuitAction::Absorb)
            } else {
                old(self).threshold.history_spec().push(r == CircuitAction::Absorb).drop_first()
            }),
            final(self).threshold.value_spec() == old(self).threshold.value_spec(),
            final(self).base_kernel == old(self).base_kernel,
    {
        let theta = self.threshold.value();
        let action = self.decisions.decide(score, theta);
        let absorbed = match action {
            CircuitAction::Absorb => true,
            CircuitAction::Forward => false,
        };
        self.threshold.record_absorption(absorbed);
        action
    }

    /// One threshold step from the coherence and flood-energy signals.
    pub fn update_threshold(&mut self, coherence: u64, flood_energy: u64)
        requires
            old(self).wf(),
        ensures
            final(self).wf(),
            final(self).threshold.value_spec() == crate::threshold::threshold_step(
                old(self).threshold.value_spec(),
                old(self).threshold.lambda_spec(),
                old(self).threshold.flood_weight_spec(),
                coherence,
                flood_energy,
            ),
            final(self).base_kernel == old(self).base_kernel,
    {
        self.threshold.update(coherence, flood_energy);
    }

    /// Feeds one oracle reading to the optimizer; when a run starts, merges
    /// similar regions at the configured fidelity threshold. Returns what
    /// the caller does next.
    pub fn optimize_step(&mut self, instability: u64) -> (r: OptimizerAction)
        requires
            old(self).wf(),
        ensures
            final(self).wf(),
            (final(self).optimizer.phase, r) == optimizer_next(
                old(self).optimizer.phase,
                old(self).optimizer.instability_threshold,
                old(self).optimizer.stability_tolerance,
                instability,
            ),
            r == OptimizerAction::MergeAndEvolve ==> final(self).base_kernel@ == merge_pass(
                old(self).base_kernel@,
                old(self).base_kernel@.len() - 1,
                old(self).merge_fidelity_threshold as int,
            ),
            r != OptimizerAction::MergeAndEvolve ==> final(self).base_kernel == old(self).base_kernel,
    {
        let action = self.optimizer.step(instability);
        match action {
            OptimizerAction::MergeAndEvolve => {
                self.base_kernel.merge_similar(self.merge_fidelity_threshold);
            },
            _ => {},
        }
        action
    }

    /// One decay step on every region's strength.
    pub fn decay(&mut self)
        requires
            old(self).wf(),
        ensures
            final(self).wf(),
            final(self).base_kernel@.len() == old(self).base_kernel@.len(),
            forall|k: int| 0 <= k < old(self).base_kernel@.len() ==> #[trigger] final(self).base_kernel@[k]
                == decayed(old(self).base_kernel@[k], old(self).decay_factor),
    {
        self.base_kernel.apply_decay(self.decay_factor);
    }

    /// Counts of regions, decisions and classifications, and the rolling
    /// absorption rate.
    pub fn stats(&self) -> (r: EngineStats)
        requires
            self.wf(),
        ensures
            r.total_regions == self.base_kernel@.len(),
            r.attack_regions == count_attack(self.base_kernel@),
            r.benign_regions == self.base_kernel@.len() - count_attack(self.base_kernel@),
            r.absorption_rate == self.threshold.rate_spec(),
            r.absorption_rate <= SCALE,
            r.total_decisions == self.decisions.total_spec(),
            r.forwarded == self.decisions.forwarded_spec(),
            r.absorbed == self.decisions.absorbed_spec(),
            r.forwarded + r.absorbed == r.total_decisions,
            r.classification_count == self.classification_count,
    {
        let k = self.base_kernel.stats();
        let d = self.decisions.statistics();
        EngineStats {
            total_regions: k.total_regions,
            attack_regions: k.attack_regions,
            benign_regions: k.benign_regions,
            absorption_rate: self.threshold.absorption_rate(),
            total_decisions: d.total_decisions,
            forwarded: d.forwarded,
            absorbed: d.absorbed,
            classification_count: self.classification_count,
        }
    }
}

} // verus!
