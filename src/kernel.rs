//! The region store: a bounded set of learned regions, scored against each
//! new sample, grown and refined by labelled samples, and consolidated by
//! merging near-duplicates.
use vstd::prelude::*;

use crate::config::ConfigError;
use crate::fixed::SCALE;
use crate::quantum::QuantumState;
use crate::region::{ATTACK_REGION_PROBABILITY, HybridScorer, GabrielRegion, label_indicator};
use crate::signature::ClassicalSignature;

verus! {

/// Resonance above which a match decides the classification.
pub const WEAK_MATCH: u64 = 300_000;

/// Resonance above which a labelled sample is learned into its best match.
pub const COMMIT_MATCH: u64 = 500_000;

/// Region counts of a store.
#[derive(Debug, Clone, Copy, PartialEq, Eq, Structural)]
pub struct KernelStats {
    pub total_regions: usize,
    pub attack_regions: usize,
    pub benign_regions: usize,
    /// Parts per million.
    pub attack_threshold: u64,
}

/// The classification engine's learned memory.
pub struct ThronionKernel {
    regions: Vec<GabrielRegion>,
    attack_threshold: u64,
    max_regions: usize,
    learning_rate: u64,
    scorer: HybridScorer,
}

impl View for ThronionKernel {
    type V = Seq<GabrielRegion>;

    closed spec fn view(&self) -> Seq<GabrielRegion> {
        self.regions@
    }
}

/// Confidence of a region: distance of its attack probability from `1/2`.
pub open spec fn confidence(r: GabrielRegion) -> int {
    let half = (SCALE / 2) as int;
    if r.attack_probability >= half {
        r.attack_probability - half
    } else {
        half - r.attack_probability
    }
}

/// `e` is the first of the least confident regions of `s`.
pub open spec fn is_least_confident(s: Seq<GabrielRegion>, e: int) -> bool {
    &&& 0 <= e < s.len()
    &&& forall|j: int| 0 <= j < s.len() ==> confidence(s[e]) <= #[trigger] confidence(s[j])
    &&& forall|j: int| 0 <= j < e ==> confidence(s[e]) < #[trigger] confidence(s[j])
}

/// The first of the least confident regions of a non-empty `s`.
pub open spec fn least_confident_index(s: Seq<GabrielRegion>) -> int {
    choose|e: int| is_least_confident(s, e)
}

/// Number of attack regions in `s`.
pub open spec fn count_attack(s: Seq<GabrielRegion>) -> nat
    decreases s.len(),
{
    if s.len() == 0 {
        0
    } else {
        count_attack(s.drop_last()) + if s.last().attack_probability > ATTACK_REGION_PROBABILITY {
            1nat
        } else {
            0nat
        }
    }
}

/// First `i` in `[from, j)` whose region's quantum center has fidelity above
/// `threshold` with that of region `j`.
pub open spec fn first_partner(s: Seq<GabrielRegion>, j: int, threshold: int, from: int) -> Option<int>
    decreases j - from,
{
    if from < 0 || from >= j {
        None
    } else if s[from].quantum_center.fidelity_spec(&s[j].quantum_center) > threshold {
        Some(from)
    } else {
        first_partner(s, j, threshold, from + 1)
    }
}

/// Sample-count-weighted average of two attack probabilities; the first
/// one when neither region has samples.
pub open spec fn weighted_probability(a: GabrielRegion, b: GabrielRegion) -> int {
    let total = a.sample_count + b.sample_count;
    if total > 0 {
        (a.sample_count * a.attack_probability + b.sample_count * b.attack_probability) / total
    } else {
        a.attack_probability as int
    }
}

/// Sum of two sample counts, held at `u64::MAX`.
pub open spec fn count_sum(a: u64, b: u64) -> u64 {
    if a + b <= u64::MAX {
        (a + b) as u64
    } else {
        u64::MAX
    }
}

/// Region `a` after absorbing region `b`.
pub open spec fn merged_into(a: GabrielRegion, b: GabrielRegion) -> GabrielRegion {
    GabrielRegion {
        classical_center: a.classical_center,
        quantum_center: a.quantum_center,
        learning_rate: a.learning_rate,
        sample_count: count_sum(a.sample_count, b.sample_count),
        attack_probability: weighted_probability(a, b) as u64,
        strength: a.strength,
    }
}

/// Region `j` merged into its first partner below it, if it has one.
pub open spec fn merge_step(s: Seq<GabrielRegion>, j: int, threshold: int) -> Seq<GabrielRegion> {
    match first_partner(s, j, threshold, 0) {
        Some(i) => s.update(i, merged_into(s[i], s[j])).remove(j),
        None => s,
    }
}

/// Merge steps for indices `j`, `j - 1`, ..., `1`, in that order.
pub open spec fn merge_pass(s: Seq<GabrielRegion>, j: int, threshold: int) -> Seq<GabrielRegion>
    decreases j,
{
    if j <= 0 {
        s
    } else {
        merge_pass(merge_step(s, j, threshold), j - 1, threshold)
    }
}

/// Region `r` after one decay step by `factor` (parts per million).
pub open spec fn decayed(r: GabrielRegion, factor: u64) -> GabrielRegion {
    GabrielRegion {
        classical_center: r.classical_center,
        quantum_center: r.quantum_center,
        learning_rate: r.learning_rate,
        sample_count: r.sample_count,
        attack_probability: r.attack_probability,
        strength: ((r.strength * factor) / SCALE as int) as u64,
    }
}

proof fn lemma_weighted_probability_bound(a: GabrielRegion, b: GabrielRegion)
    requires
        a.attack_probability <= SCALE,
        b.attack_probability <= SCALE,
    ensures
        0 <= weighted_probability(a, b) <= SCALE,
{
    let ca = a.sample_count as int;
    let cb = b.sample_count as int;
    let pa = a.attack_probability as int;
    let pb = b.attack_probability as int;
    if ca + cb > 0 {
        assert(0 <= ca * pa + cb * pb <= (ca + cb) * SCALE) by (nonlinear_arith)
            requires
                0 <= pa <= SCALE,
                0 <= pb <= SCALE,
                ca >= 0,
                cb >= 0,
        ;
        assert(0 <= (ca * pa + cb * pb) / (ca + cb) <= SCALE) by (nonlinear_arith)
            requires
                0 <= ca * pa + cb * pb <= (ca + cb) * SCALE,
                ca + cb > 0,
        ;
    }
}

proof fn lemma_first_partner_range(s: Seq<GabrielRegion>, j: int, threshold: int, from: int)
    ensures
        first_partner(s, j, threshold, from) matches Some(i) ==> 0 <= from <= i < j
            && s[i].quantum_center.fidelity_spec(&s[j].quantum_center) > threshold,
    decreases j - from,
{
    if from >= 0 && from < j {
        lemma_first_partner_range(s, j, threshold, from + 1);
    }
}

impl ThronionKernel {
    /// Largest number of regions kept.
    pub closed spec fn max_regions_spec(&self) -> nat {
        self.max_regions as nat
    }

    /// Moving-average rate given to new regions.
    pub closed spec fn learning_rate_spec(&self) -> u64 {
        self.learning_rate
    }

    /// Attack threshold reported in the statistics.
    pub closed spec fn attack_threshold_spec(&self) -> u64 {
        self.attack_threshold
    }

    /// Weights of the resonance score.
    pub closed spec fn scorer_spec(&self) -> HybridScorer {
        self.scorer
    }

    /// The store's invariant: at most `max_regions` valid regions.
    pub closed spec fn wf(&self) -> bool {
        &&& self.regions@.len() <= self.max_regions
        &&& self.max_regions > 0
        &&& self.learning_rate <= SCALE
        &&& self.attack_threshold <= SCALE
        &&& self.scorer.wf()
        &&& forall|k: int| 0 <= k < self.regions@.len() ==> (#[trigger] self.regions@[k]).wf()
    }

    /// Resonance of a sample with region `i`.
    pub open spec fn score(&self, i: int, classical: &ClassicalSignature, quantum: &QuantumState) -> int {
        self.scorer_spec().resonance_spec(&self@[i], classical, quantum)
    }

    /// Region `i` is the first of the regions that resonate most with the sample.
    pub open spec fn is_best_match(&self, i: int, classical: &ClassicalSignature, quantum: &QuantumState) -> bool {
        &&& 0 <= i < self@.len()
        &&& forall|j: int| 0 <= j < self@.len() ==> #[trigger] self.score(j, classical, quantum) <= self.score(i, classical, quantum)
        &&& forall|j: int| 0 <= j < i ==> #[trigger] self.score(j, classical, quantum) < self.score(i, classical, quantum)
    }

    /// The first best match of a sample in a non-empty store.
    pub open spec fn best_index(&self, classical: &ClassicalSignature, quantum: &QuantumState) -> int {
        choose|i: int| self.is_best_match(i, classical, quantum)
    }

    /// The region that a labelled sample founds.
    pub open spec fn seeded(&self, classical: ClassicalSignature, quantum: QuantumState, is_attack: bool) -> GabrielRegion {
        GabrielRegion {
            classical_center: classical,
            quantum_center: quantum,
            learning_rate: self.learning_rate_spec(),
            sample_count: 1,
            attack_probability: label_indicator(is_attack),
            strength: SCALE,
        }
    }

    /// The regions after learning a labelled sample: the best match learns
    /// it in place when it resonates above `COMMIT_MATCH`; otherwise the
    /// sample founds a region, appended below capacity and replacing the
    /// first least confident region at capacity.
    pub open spec fn learned(&self, classical: ClassicalSignature, quantum: QuantumState, is_attack: bool) -> Seq<GabrielRegion> {
        let b = self.best_index(&classical, &quantum);
        let fresh = self.seeded(classical, quantum, is_attack);
        if self@.len() > 0 && self.score(b, &classical, &quantum) > COMMIT_MATCH {
            self@.update(b, self@[b].updated(classical, quantum, is_attack))
        } else if self@.len() < self.max_regions_spec() {
            self@.push(fresh)
        } else {
            self@.update(least_confident_index(self@), fresh)
        }
    }

    /// An empty store: up to 100 regions, attack threshold `0.5`, learning
    /// rate `0.1`, scoring weights `0.3` and `0.7`.
    pub fn new() -> (r: ThronionKernel)
        ensures
            r.wf(),
            r@.len() == 0,
            r.max_regions_spec() == 100,
            r.attack_threshold_spec() == 500_000,
            r.learning_rate_spec() == 100_000,
            r.scorer_spec() == HybridScorer::new_spec(),
    {
        ThronionKernel {
            regions: Vec::new(),
            attack_threshold: 500_000,
            max_regions: 100,
            learning_rate: 100_000,
            scorer: HybridScorer::new(),
        }
    }

    /// An empty store with the given parameters, refused when one is out
    /// of range.
    pub fn with_params(attack_threshold: u64, max_regions: usize, learning_rate: u64) -> (r: Result<ThronionKernel, ConfigError>)
        ensures
            max_regions == 0 ==> r == Err::<ThronionKernel, ConfigError>(ConfigError::InvalidMaxRegions),
            max_regions > 0 && attack_threshold > SCALE ==> r == Err::<ThronionKernel, ConfigError>(ConfigError::InvalidThreshold),
            max_regions > 0 && attack_threshold <= SCALE && learning_rate > SCALE
                ==> r == Err::<ThronionKernel, ConfigError>(ConfigError::InvalidLearningRate),
            r.is_ok() <==> (max_regions > 0 && attack_threshold <= SCALE && learning_rate <= SCALE),
            r.is_ok() ==> {
                let k = r->Ok_0;
                &&& k.wf()
                &&& k@.len() == 0
                &&& k.max_regions_spec() == max_regions
                &&& k.attack_threshold_spec() == attack_threshold
                &&& k.learning_rate_spec() == learning_rate
                &&& k.scorer_spec() == HybridScorer::new_spec()
            },
    {
        if max_regions == 0 {
            return Err(ConfigError::InvalidMaxRegions);
        }
        if attack_threshold > SCALE {
            return Err(ConfigError::InvalidThreshold);
        }
        if learning_rate > SCALE {
            return Err(ConfigError::InvalidLearningRate);
        }
        Ok(ThronionKernel { regions: Vec::new(), attack_threshold, max_regions, learning_rate, scorer: HybridScorer::new() })
    }

    /// Replaces the scoring weights.
    pub fn set_scorer(&mut self, scorer: HybridScorer)
        requires
            old(self).wf(),
            scorer.wf(),
        ensures
            final(self).wf(),
            final(self)@ == old(self)@,
            final(self).scorer_spec() == scorer,
            final(self).max_regions_spec() == old(self).max_regions_spec(),
            final(self).learning_rate_spec() == old(self).learning_rate_spec(),
            final(self).attack_threshold_spec() == old(self).attack_threshold_spec(),
    {
        self.scorer = scorer;
    }

    /// Number of regions.
    pub fn len(&self) -> (r: usize)
        ensures
            r == self@.len(),
    {
        self.regions.len()
    }

    /// Whether no region has been learned.
    pub fn is_empty(&self) -> (r: bool)
        ensures
            r == (self@.len() == 0),
    {
        self.regions.len() == 0
    }

    /// Largest number of regions kept.
    pub fn max_regions(&self) -> (r: usize)
        ensures
            r == self.max_regions_spec(),
    {
        self.max_regions
    }

    /// Region `i`.
    pub fn region(&self, i: usize) -> (r: &GabrielRegion)
        requires
            i < self@.len(),
        ensures
            *r == self@[i as int],
    {
        &self.regions[i]
    }

    /// Index and resonance of the first region that resonates most with
    /// the sample; `None` on an empty store.
    pub fn find_best(&self, classical: &ClassicalSignature, quantum: &QuantumState) -> (r: Option<(usize, u64)>)
        requires
            self.wf(),
            classical.wf(),
            quantum.wf(),
        ensures
            r.is_none() <==> self@.len() == 0,
            r.is_some() ==> {
                &&& self.is_best_match(r->Some_0.0 as int, classical, quantum)
                &&& r->Some_0.0 == self.best_index(classical, quantum)
                &&& r->Some_0.1 == self.score(r->Some_0.0 as int, classical, quantum)
            },
    {
        let n = self.regions.len();
        if n == 0 {
            return None;
        }
        let mut best_idx: usize = 0;
        let mut best: u64 = self.scorer.resonance(&self.regions[0], classical, quantum);
        let mut i: usize = 1;
        while i < n
            invariant
                self.wf(),
                classical.wf(),
                quantum.wf(),
                n == self@.len(),
                1 <= i <= n,
                best_idx < i,
                best == self.score(best_idx as int, classical, quantum),
                forall|j: int| 0 <= j < i ==> #[trigger] self.score(j, classical, quantum) <= best,
                forall|j: int| 0 <= j < best_idx ==> #[trigger] self.score(j, classical, quantum) < best,
            decreases n - i,
        {
            let s = self.scorer.resonance(&self.regions[i], classical, quantum);
            if s > best {
                best = s;
                best_idx = i;
            }
            i = i + 1;
        }
        proof {
            self.lemma_best_index_unique(best_idx as int, classical, quantum);
        }
        Some((best_idx, best))
    }

    proof fn lemma_best_index_unique(&self, i: int, classical: &ClassicalSignature, quantum: &QuantumState)
        requires
            self.is_best_match(i, classical, quantum),
        ensures
            self.best_index(classical, quantum) == i,
    {
        let b = self.best_index(classical, quantum);
        assert(self.is_best_match(b, classical, quantum));
        if b < i {
            assert(self.score(b, classical, quantum) < self.score(i, classical, quantum));
        } else if i < b {
            assert(self.score(i, classical, quantum) < self.score(b, classical, quantum));
        }
    }

    /// Index of the first of the least confident regions.
    pub fn least_confident(&self) -> (r: usize)
        requires
            self.wf(),
            self@.len() > 0,
        ensures
            is_least_confident(self@, r as int),
            r == least_confident_index(self@),
    {
        let n = self.regions.len();
        let mut min_idx: usize = 0;
        let mut min_conf: u64 = region_confidence(&self.regions[0]);
        let mut i: usize = 1;
        while i < n
            invariant
                self.wf(),
                n == self@.len(),
                1 <= i <= n,
                min_idx < i,
                min_conf == confidence(self@[min_idx as int]),
                forall|j: int| 0 <= j < i ==> min_conf <= #[trigger] confidence(self@[j]),
                forall|j: int| 0 <= j < min_idx ==> min_conf < #[trigger] confidence(self@[j]),
            decreases n - i,
        {
            let c = region_confidence(&self.regions[i]);
            if c < min_conf {
                min_conf = c;
                min_idx = i;
            }
            i = i + 1;
        }
        proof {
            lemma_least_confident_unique(self@, min_idx as int);
        }
        min_idx
    }

    /// Learns a labelled sample. When its best match resonates above
    /// `COMMIT_MATCH` that region learns it in place; otherwise the sample
    /// founds a new region, appended below capacity and replacing the first
    /// least confident region at capacity.
    pub fn learn(&mut self, classical: ClassicalSignature, quantum: QuantumState, is_attack: bool)
        requires
            old(self).wf(),
            classical.wf(),
            quantum.wf(),
        ensures
            final(self).wf(),
            final(self)@.len() <= final(self).max_regions_spec(),
            final(self).max_regions_spec() == old(self).max_regions_spec(),
            final(self).learning_rate_spec() == old(self).learning_rate_spec(),
            final(self).attack_threshold_spec() == old(self).attack_threshold_spec(),
            final(self).scorer_spec() == old(self).scorer_spec(),
            final(self)@ == old(self).learned(classical, quantum, is_attack),
    {
        let best = self.find_best(&classical, &quantum);
        let mut target: usize = 0;
        let mut matched = false;
        match best {
            Some((idx, resonance)) => {
                if resonance > COMMIT_MATCH {
                    target = idx;
                    matched = true;
                }
            },
            None => {},
        }
        if matched {
            let mut region = self.regions.remove(target);
            region.update(classical, quantum, is_attack);
            self.regions.insert(target, region);
            proof {
                assert(self.regions@ =~= old(self)@.update(target as int, old(self)@[target as int].updated(classical, quantum, is_attack)));
            }
        } else {
            let mut fresh = GabrielRegion::new(classical, quantum, self.learning_rate, is_attack);
            fresh.sample_count = 1;
            if self.regions.len() < self.max_regions {
                self.regions.push(fresh);
            } else {
                let e = self.least_confident();
                let _evicted = self.regions.remove(e);
                self.regions.insert(e, fresh);
                proof {
                    assert(self.regions@ =~= old(self)@.update(e as int, old(self).seeded(classical, quantum, is_attack)));
                }
            }
        }
    }

    /// Merges near-duplicate regions. For `j` from the last index down to
    /// `1`, region `j` is merged into the first region before it whose
    /// quantum center has fidelity above `fidelity_threshold` with its own:
    /// the attack probabilities are averaged by sample count, the counts
    /// summed, and region `j` removed. Going downward, a removal never moves
    /// a region that is still to be visited.
    pub fn merge_similar(&mut self, fidelity_threshold: u64)
        requires
            old(self).wf(),
        ensures
            final(self).wf(),
            final(self)@ == merge_pass(old(self)@, old(self)@.len() - 1, fidelity_threshold as int),
            final(self)@.len() <= old(self)@.len(),
            final(self).max_regions_spec() == old(self).max_regions_spec(),
            final(self).learning_rate_spec() == old(self).learning_rate_spec(),
            final(self).attack_threshold_spec() == old(self).attack_threshold_spec(),
            final(self).scorer_spec() == old(self).scorer_spec(),
    {
        let n = self.regions.len();
        if n == 0 {
            return;
        }
        let mut j: usize = n - 1;
        while j > 0
            invariant
                self.wf(),
                j < self@.len() <= old(self)@.len(),
                merge_pass(old(self)@, old(self)@.len() - 1, fidelity_threshold as int)
                    == merge_pass(self@, j as int, fidelity_threshold as int),
                self.max_regions_spec() == old(self).max_regions_spec(),
                self.learning_rate_spec() == old(self).learning_rate_spec(),
                self.attack_threshold_spec() == old(self).attack_threshold_spec(),
                self.scorer_spec() == old(self).scorer_spec(),
            decreases j,
        {
            self.merge_at(j, fidelity_threshold);
            j = j - 1;
        }
    }

    /// One merge step at index `j`.
    fn merge_at(&mut self, j: usize, fidelity_threshold: u64)
        requires
            old(self).wf(),
            0 < j < old(self)@.len(),
        ensures
            final(self).wf(),
            final(self)@ == merge_step(old(self)@, j as int, fidelity_threshold as int),
            final(self)@.len() >= j,
            final(self)@.len() <= old(self)@.len(),
            final(self).max_regions_spec() == old(self).max_regions_spec(),
            final(self).learning_rate_spec() == old(self).learning_rate_spec(),
            final(self).attack_threshold_spec() == old(self).attack_threshold_spec(),
            final(self).scorer_spec() == old(self).scorer_spec(),
    {
        let ghost s = self@;
        let mut i: usize = 0;
        let mut found = false;
        while !found && i < j
            invariant
                self.wf(),
                self@ == s,
                0 < j < s.len(),
                0 <= i <= j,
                found ==> i < j,
                first_partner(s, j as int, fidelity_threshold as int, 0) == (if found {
                    Some(i as int)
                } else {
                    first_partner(s, j as int, fidelity_threshold as int, i as int)
                }),
            decreases j - i + (if found { 0int } else { 1int }),
        {
            let f = self.regions[i].quantum_center.fidelity(&self.regions[j].quantum_center);
            if f > fidelity_threshold {
                found = true;
            } else {
                i = i + 1;
            }
        }
        if !found {
            assert(first_partner(s, j as int, fidelity_threshold as int, j as int) is None);
            return;
        }
        proof {
            lemma_first_partner_range(s, j as int, fidelity_threshold as int, 0);
            lemma_weighted_probability_bound(s[i as int], s[j as int]);
        }
        let absorbed = self.regions.remove(j);
        let mut region = self.regions.remove(i);
        let ca = region.sample_count;
        let cb = absorbed.sample_count;
        let total: u128 = ca as u128 + cb as u128;
        if total > 0 {
            assert(ca * region.attack_probability <= u64::MAX * SCALE) by (nonlinear_arith)
                requires
                    region.attack_probability <= SCALE,
                    ca <= u64::MAX,
            ;
            assert(cb * absorbed.attack_probability <= u64::MAX * SCALE) by (nonlinear_arith)
                requires
                    absorbed.attack_probability <= SCALE,
                    cb <= u64::MAX,
            ;
            let weighted: u128 = ca as u128 * region.attack_probability as u128
                + cb as u128 * absorbed.attack_probability as u128;
            region.attack_probability = (weighted / total) as u64;
        }
        region.sample_count = if total <= u64::MAX as u128 { total as u64 } else { u64::MAX };
        self.regions.insert(i, region);
        proof {
            assert(self@ =~= s.update(i as int, merged_into(s[i as int], s[j as int])).remove(j as int));
        }
    }

    /// Multiplies every region's strength by `factor` (parts per million),
    /// letting patterns that are no longer matched fade.
    pub fn apply_decay(&mut self, factor: u64)
        requires
            old(self).wf(),
            factor <= SCALE,
        ensures
            final(self).wf(),
            final(self)@.len() == old(self)@.len(),
            forall|k: int| 0 <= k < old(self)@.len() ==> #[trigger] final(self)@[k] == decayed(old(self)@[k], factor),
            final(self).max_regions_spec() == old(self).max_regions_spec(),
            final(self).learning_rate_spec() == old(self).learning_rate_spec(),
            final(self).attack_threshold_spec() == old(self).attack_threshold_spec(),
            final(self).scorer_spec() == old(self).scorer_spec(),
    {
        let n = self.regions.len();
        let mut k: usize = 0;
        while k < n
            invariant
                self.wf(),
                factor <= SCALE,
                n == self@.len() == old(self)@.len(),
                0 <= k <= n,
                forall|m: int| 0 <= m < k ==> #[trigger] self@[m] == decayed(old(self)@[m], factor),
                forall|m: int| k <= m < n ==> #[trigger] self@[m] == old(self)@[m],
                self.max_regions_spec() == old(self).max_regions_spec(),
                self.learning_rate_spec() == old(self).learning_rate_spec(),
                self.attack_threshold_spec() == old(self).attack_threshold_spec(),
                self.scorer_spec() == old(self).scorer_spec(),
            decreases n - k,
        {
            let mut region = self.regions.remove(k);
            assert(region.strength * factor <= SCALE * SCALE) by (nonlinear_arith)
                requires
                    region.strength <= SCALE,
                    factor <= SCALE,
            ;
            assert((region.strength * factor) / SCALE as int <= SCALE) by (nonlinear_arith)
                requires
                    region.strength * factor <= SCALE * SCALE,
            ;
            region.strength = ((region.strength as u128 * factor as u128) / SCALE as u128) as u64;
            self.regions.insert(k, region);
            k = k + 1;
        }
    }

    /// Removes every learned region.
    pub fn reset(&mut self)
        requires
            old(self).wf(),
        ensures
            final(self).wf(),
            final(self)@.len() == 0,
            final(self).max_regions_spec() == old(self).max_regions_spec(),
            final(self).learning_rate_spec() == old(self).learning_rate_spec(),
            final(self).attack_threshold_spec() == old(self).attack_threshold_spec(),
            final(self).scorer_spec() == old(self).scorer_spec(),
    {
        self.regions.clear();
    }

    /// Counts of regions by kind, and the attack threshold.
    pub fn stats(&self) -> (r: KernelStats)
        requires
            self.wf(),
        ensures
            r.total_regions == self@.len(),
            r.attack_regions == count_attack(self@),
            r.benign_regions == self@.len() - count_attack(self@),
            r.attack_threshold == self.attack_threshold_spec(),
    {
        let n = self.regions.len();
        let mut attack: usize = 0;
        let mut k: usize = 0;
        while k < n
            invariant
                n == self@.len(),
                0 <= k <= n,
                attack == count_attack(self@.subrange(0, k as int)),
                attack <= k,
            decreases n - k,
        {
            proof {
                assert(self@.subrange(0, k as int + 1).drop_last() =~= self@.subrange(0, k as int));
            }
            if self.regions[k].is_attack_region() {
                attack = attack + 1;
            }
            k = k + 1;
        }
        proof {
            assert(self@.subrange(0, n as int) =~= self@);
        }
        KernelStats { total_regions: n, attack_regions: attack, benign_regions: n - attack, attack_threshold: self.attack_threshold }
    }

    /// Classifies a sample: `(is_attack, resonance, matched_region)`.
    /// An empty store gives `(false, 0, None)`. Otherwise the best match is
    /// reported, and the sample is an attack only when it resonates above
    /// `WEAK_MATCH` with a region whose attack probability exceeds `0.7`.
    pub fn classify(&self, classical: &ClassicalSignature, quantum: &QuantumState) -> (r: (bool, u64, Option<usize>))
        requires
            self.wf(),
            classical.wf(),
            quantum.wf(),
        ensures
            self@.len() == 0 ==> r == (false, 0u64, None::<usize>),
            self@.len() > 0 ==> {
                let b = self.best_index(classical, quantum);
                &&& self.is_best_match(b, classical, quantum)
                &&& r.2 == Some(b as usize)
                &&& r.1 == self.score(b, classical, quantum)
                &&& r.0 == (r.1 > WEAK_MATCH && self@[b].attack_probability > ATTACK_REGION_PROBABILITY)
            },
    {
        match self.find_best(classical, quantum) {
            None => (false, 0, None),
            Some((idx, resonance)) => {
                let is_attack = if resonance > WEAK_MATCH {
                    self.regions[idx].is_attack_region()
                } else {
                    false
                };
                (is_attack, resonance, Some(idx))
            },
        }
    }
}

/// A valid store never holds more than `max_regions` regions; every
/// operation that changes a store keeps it valid, so this holds after any
/// sequence of `learn`, `merge_similar`, `apply_decay` and `reset` calls.
pub proof fn lemma_store_within_capacity(k: &ThronionKernel)
    requires
        k.wf(),
    ensures
        k@.len() <= k.max_regions_spec(),
{
}

/// Confidence of a region, computed.
fn region_confidence(r: &GabrielRegion) -> (c: u64)
    requires
        r.wf(),
    ensures
        c == confidence(*r),
{
    let half: u64 = SCALE / 2;
    if r.attack_probability >= half {
        r.attack_probability - half
    } else {
        half - r.attack_probability
    }
}

proof fn lemma_least_confident_unique(s: Seq<GabrielRegion>, e: int)
    requires
        is_least_confident(s, e),
    ensures
        least_confident_index(s) == e,
{
    let c = least_confident_index(s);
    assert(is_least_confident(s, c));
    if c < e {
        assert(confidence(s[e]) < confidence(s[c]));
    } else if e < c {
        assert(confidence(s[c]) < confidence(s[e]));
    }
}

} // verus!
