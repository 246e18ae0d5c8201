//! The adaptive decision threshold and the rolling absorption statistics.
use vstd::prelude::*;

use crate::config::ConfigError;
use crate::decision::rate_of;
use crate::fixed::SCALE;

verus! {

/// Number of recent outcomes the absorption rate is taken over.
pub const ABSORPTION_WINDOW: usize = 1000;

/// Default weight of the flood energy in the threshold gradient (`0.2`).
pub const DEFAULT_FLOOD_WEIGHT: u64 = 200_000;

/// Default distance to the target rate within which the rate has converged
/// (`0.05`).
pub const DEFAULT_CONVERGENCE_TOLERANCE: u64 = 50_000;

/// Number of `true` entries of `s`.
pub open spec fn count_true(s: Seq<bool>) -> nat
    decreases s.len(),
{
    if s.len() == 0 {
        0
    } else {
        count_true(s.drop_last()) + if s.last() {
            1nat
        } else {
            0nat
        }
    }
}

/// `x` held to `[0, SCALE]`.
pub open spec fn clamp_unit(x: int) -> int {
    if x < 0 {
        0
    } else if x > SCALE {
        SCALE as int
    } else {
        x
    }
}

/// `a / b` rounded toward zero, for `b > 0`.
pub open spec fn div_toward_zero(a: int, b: int) -> int {
    if a >= 0 {
        a / b
    } else {
        -((-a) / b)
    }
}

/// The threshold after one gradient step: with
/// `gradient = -coherence + kappa * flood_energy`, the threshold moves to
/// `clamp(theta - lambda * gradient, 0, 1)`; all in parts per million.
pub open spec fn threshold_step(theta: u64, lambda: u64, kappa: u64, coherence: u64, flood_energy: u64) -> int {
    let num = lambda * (kappa * flood_energy - coherence * SCALE);
    clamp_unit(theta - div_toward_zero(num, SCALE * SCALE))
}

proof fn lemma_count_true_bound(s: Seq<bool>)
    ensures
        count_true(s) <= s.len(),
    decreases s.len(),
{
    if s.len() > 0 {
        lemma_count_true_bound(s.drop_last());
    }
}

/// The threshold and the window of recent absorb/forward outcomes.
pub struct AdaptiveThreshold {
    value: u64,
    lambda: u64,
    flood_weight: u64,
    target_absorption_rate: u64,
    tolerance: u64,
    history: Vec<bool>,
}

impl AdaptiveThreshold {
    /// Current threshold, parts per million.
    pub closed spec fn value_spec(&self) -> u64 {
        self.value
    }

    /// Learning rate of the threshold.
    pub closed spec fn lambda_spec(&self) -> u64 {
        self.lambda
    }

    /// Weight of the flood energy in the gradient.
    pub closed spec fn flood_weight_spec(&self) -> u64 {
        self.flood_weight
    }

    /// The absorption rate aimed at.
    pub closed spec fn target_spec(&self) -> u64 {
        self.target_absorption_rate
    }

    /// Distance to the target within which the rate has converged.
    pub closed spec fn tolerance_spec(&self) -> u64 {
        self.tolerance
    }

    /// Recent outcomes, oldest first (`true`: absorbed).
    pub closed spec fn history_spec(&self) -> Seq<bool> {
        self.history@
    }

    /// Threshold and rates in `[0, SCALE]`, window within its capacity.
    pub closed spec fn wf(&self) -> bool {
        &&& self.value <= SCALE
        &&& self.lambda <= SCALE
        &&& self.flood_weight <= SCALE
        &&& self.target_absorption_rate <= SCALE
        &&& self.history@.len() <= ABSORPTION_WINDOW
    }

    /// Mean of the window, parts per million; `0` for an empty window.
    pub open spec fn rate_spec(&self) -> int {
        rate_of(count_true(self.history_spec()) as int, self.history_spec().len() as int)
    }

    /// A controller with the given initial threshold, learning rate and
    /// target absorption rate, each in `[0, SCALE]`; flood weight `0.2`,
    /// tolerance `0.05`, empty window.
    pub fn new(initial_threshold: u64, lambda: u64, target_absorption_rate: u64) -> (r: Result<AdaptiveThreshold, ConfigError>)
        ensures
            initial_threshold > SCALE ==> r == Err::<AdaptiveThreshold, ConfigError>(ConfigError::InvalidThreshold),
            initial_threshold <= SCALE && lambda > SCALE
                ==> r == Err::<AdaptiveThreshold, ConfigError>(ConfigError::InvalidThresholdLearningRate),
            initial_threshold <= SCALE && lambda <= SCALE && target_absorption_rate > SCALE
                ==> r == Err::<AdaptiveThreshold, ConfigError>(ConfigError::InvalidTargetAbsorptionRate),
            r.is_ok() <==> (initial_threshold <= SCALE && lambda <= SCALE && target_absorption_rate <= SCALE),
            r.is_ok() ==> {
                let t = r->Ok_0;
                &&& t.wf()
                &&& t.value_spec() == initial_threshold
                &&& t.lambda_spec() == lambda
                &&& t.target_spec() == target_absorption_rate
                &&& t.flood_weight_spec() == DEFAULT_FLOOD_WEIGHT
                &&& t.tolerance_spec() == DEFAULT_CONVERGENCE_TOLERANCE
                &&& t.history_spec().len() == 0
            },
    {
        if initial_threshold > SCALE {
            return Err(ConfigError::InvalidThreshold);
        }
        if lambda > SCALE {
            return Err(ConfigError::InvalidThresholdLearningRate);
        }
        if target_absorption_rate > SCALE {
            return Err(ConfigError::InvalidTargetAbsorptionRate);
        }
        Ok(AdaptiveThreshold {
            value: initial_threshold,
            lambda,
            flood_weight: DEFAULT_FLOOD_WEIGHT,
            target_absorption_rate,
            tolerance: DEFAULT_CONVERGENCE_TOLERANCE,
            history: Vec::new(),
        })
    }

    /// Replaces the weight of the flood energy in the gradient.
    pub fn set_flood_weight(&mut self, flood_weight: u64)
        requires
            old(self).wf(),
            flood_weight <= SCALE,
        ensures
            final(self).wf(),
            final(self).flood_weight_spec() == flood_weight,
            final(self).value_spec() == old(self).value_spec(),
            final(self).lambda_spec() == old(self).lambda_spec(),
            final(self).target_spec() == old(self).target_spec(),
            final(self).tolerance_spec() == old(self).tolerance_spec(),
            final(self).history_spec() == old(self).history_spec(),
    {
        self.flood_weight = flood_weight;
    }

    /// Current threshold, parts per million.
    pub fn value(&self) -> (r: u64)
        requires
            self.wf(),
        ensures
            r == self.value_spec(),
            r <= SCALE,
    {
        self.value
    }

    /// One gradient step on the threshold from the coherence and the flood
    /// energy (parts per million): `gradient = -coherence + kappa * flood`,
    /// `theta <- clamp(theta - lambda * gradient, 0, 1)`.
    pub fn update(&mut self, coherence: u64, flood_energy: u64)
        requires
            old(self).wf(),
        ensures
            final(self).wf(),
            final(self).value_spec() == threshold_step(
                old(self).value_spec(),
                old(self).lambda_spec(),
                old(self).flood_weight_spec(),
                coherence,
                flood_energy,
            ),
            final(self).history_spec() == old(self).history_spec(),
            final(self).lambda_spec() == old(self).lambda_spec(),
            final(self).flood_weight_spec() == old(self).flood_weight_spec(),
            final(self).target_spec() == old(self).target_spec(),
            final(self).tolerance_spec() == old(self).tolerance_spec(),
    {
        assert(self.flood_weight * flood_energy <= SCALE * u64::MAX) by (nonlinear_arith)
            requires
                self.flood_weight <= SCALE,
                flood_energy <= u64::MAX,
        ;
        assert(coherence * SCALE <= SCALE * u64::MAX) by (nonlinear_arith)
            requires
                coherence <= u64::MAX,
        ;
        let kf: i128 = self.flood_weight as i128 * flood_energy as i128;
        let cs: i128 = coherence as i128 * SCALE as i128;
        let g: i128 = kf - cs;
        assert(-(SCALE * u64::MAX) <= g <= SCALE * u64::MAX);
        assert(-(SCALE * SCALE * u64::MAX) <= self.lambda * g <= SCALE * SCALE * u64::MAX) by (nonlinear_arith)
            requires
                0 <= self.lambda <= SCALE,
                -(SCALE * u64::MAX) <= g <= SCALE * u64::MAX,
        ;
        let num: i128 = self.lambda as i128 * g;
        let s2: i128 = SCALE as i128 * SCALE as i128;
        let d: i128 = if num >= 0 { num / s2 } else { -((-num) / s2) };
        let next: i128 = self.value as i128 - d;
        self.value = if next < 0 {
            0
        } else if next > SCALE as i128 {
            SCALE
        } else {
            next as u64
        };
    }

    /// One gradient step with the flood energy read off the window: the
    /// share of circuits forwarded, `1 - absorption_rate`.
    pub fn update_from_absorption(&mut self, coherence: u64)
        requires
            old(self).wf(),
        ensures
            final(self).wf(),
            final(self).value_spec() == threshold_step(
                old(self).value_spec(),
                old(self).lambda_spec(),
                old(self).flood_weight_spec(),
                coherence,
                (SCALE - old(self).rate_spec()) as u64,
            ),
            final(self).history_spec() == old(self).history_spec(),
            final(self).lambda_spec() == old(self).lambda_spec(),
            final(self).flood_weight_spec() == old(self).flood_weight_spec(),
            final(self).target_spec() == old(self).target_spec(),
            final(self).tolerance_spec() == old(self).tolerance_spec(),
    {
        let rate = self.absorption_rate();
        self.update(coherence, SCALE - rate);
    }

    /// Appends an outcome to the window, dropping the oldest one when the
    /// window is full.
    pub fn record_absorption(&mut self, was_absorbed: bool)
        requires
            old(self).wf(),
        ensures
            final(self).wf(),
            old(self).history_spec().len() < ABSORPTION_WINDOW
                ==> final(self).history_spec() == old(self).history_spec().push(was_absorbed),
            old(self).history_spec().len() >= ABSORPTION_WINDOW
                ==> final(self).history_spec() == old(self).history_spec().push(was_absorbed).drop_first(),
            final(self).value_spec() == old(self).value_spec(),
            final(self).lambda_spec() == old(self).lambda_spec(),
            final(self).flood_weight_spec() == old(self).flood_weight_spec(),
            final(self).target_spec() == old(self).target_spec(),
            final(self).tolerance_spec() == old(self).tolerance_spec(),
    {
        self.history.push(was_absorbed);
        if self.history.len() > ABSORPTION_WINDOW {
            self.history.remove(0);
            proof {
                assert(self.history@ =~= old(self).history_spec().push(was_absorbed).drop_first());
            }
        }
    }

    /// Mean of the window, parts per million: always in `[0, SCALE]`.
    pub fn absorption_rate(&self) -> (r: u64)
        requires
            self.wf(),
        ensures
            r == self.rate_spec(),
            r <= SCALE,
    {
        let n = self.history.len();
        if n == 0 {
            return 0;
        }
        let mut absorbed: usize = 0;
        let mut k: usize = 0;
        while k < n
            invariant
                n == self.history@.len(),
                n <= ABSORPTION_WINDOW,
                0 <= k <= n,
                absorbed == count_true(self.history@.subrange(0, k as int)),
                absorbed <= k,
            decreases n - k,
        {
            proof {
                assert(self.history@.subrange(0, k as int + 1).drop_last() =~= self.history@.subrange(0, k as int));
            }
            if self.history[k] {
                absorbed = absorbed + 1;
            }
            k = k + 1;
        }
        proof {
            assert(self.history@.subrange(0, n as int) =~= self.history@);
        }
        assert((absorbed * SCALE) / (n as int) <= SCALE) by (nonlinear_arith)
            requires
                absorbed <= n,
                n > 0,
        ;
        ((absorbed as u64 * SCALE) / n as u64) as u64
    }

    /// Whether the absorption rate is within the tolerance of the target.
    pub fn has_converged(&self) -> (r: bool)
        requires
            self.wf(),
        ensures
            r == (if self.rate_spec() >= self.target_spec() {
                self.rate_spec() - self.target_spec()
            } else {
                self.target_spec() - self.rate_spec()
            } < self.tolerance_spec()),
    {
        let rate = self.absorption_rate();
        let target = self.target_absorption_rate;
        let diff = if rate >= target { rate - target } else { target - rate };
        diff < self.tolerance
    }
}

/// The absorption rate of a valid controller lies in `[0, SCALE]`, whatever
/// outcomes have been recorded.
pub proof fn lemma_absorption_rate_in_unit(t: &AdaptiveThreshold)
    requires
        t.wf(),
    ensures
        0 <= t.rate_spec() <= SCALE,
{
    let s = t.history_spec();
    lemma_count_true_bound(s);
    if s.len() > 0 {
        let a = count_true(s) as int;
        let n = s.len() as int;
        assert(0 <= (a * SCALE) / n <= SCALE) by (nonlinear_arith)
            requires
                0 <= a <= n,
                n > 0,
        ;
    }
}

} // verus!
