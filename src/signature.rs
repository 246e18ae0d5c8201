//! The classical signature of a circuit and the distance-based similarity
//! between two signatures.
use vstd::prelude::*;

use crate::fixed::{SCALE, ema, ema_spec, isqrt, isqrt_spec, is_isqrt, lemma_isqrt_spec};

verus! {

/// Largest magnitude of a single feature (features are scaled by `SCALE`).
pub const FEATURE_LIMIT: i64 = 1_000_000_000_000_000;

/// The five classical features of a circuit, each scaled by `SCALE`:
/// mean and standard deviation of the inter-cell intervals (milliseconds),
/// share of data cells, share of introduction cells, and the natural log of
/// the bytes transferred (kilobytes).
#[derive(Debug, Clone, Copy, PartialEq, Eq, Structural)]
pub struct ClassicalSignature {
    pub mean_interval: i64,
    pub std_dev_interval: i64,
    pub data_ratio: i64,
    pub intro_ratio: i64,
    pub log_total_bytes: i64,
}

/// A feature within `FEATURE_LIMIT`.
pub open spec fn feature_ok(x: i64) -> bool {
    -FEATURE_LIMIT <= x <= FEATURE_LIMIT
}

/// The square of `x`.
pub open spec fn sq(x: int) -> int {
    x * x
}

impl ClassicalSignature {
    /// Every feature lies within `FEATURE_LIMIT`.
    pub open spec fn wf(&self) -> bool {
        &&& feature_ok(self.mean_interval)
        &&& feature_ok(self.std_dev_interval)
        &&& feature_ok(self.data_ratio)
        &&& feature_ok(self.intro_ratio)
        &&& feature_ok(self.log_total_bytes)
    }

    /// Squared Euclidean distance between two signatures.
    pub open spec fn dist_sq_spec(&self, other: &ClassicalSignature) -> int {
        sq(self.mean_interval - other.mean_interval) + sq(self.std_dev_interval - other.std_dev_interval)
            + sq(self.data_ratio - other.data_ratio) + sq(self.intro_ratio - other.intro_ratio)
            + sq(self.log_total_bytes - other.log_total_bytes)
    }

    /// Euclidean distance, rounded down.
    pub open spec fn distance_spec(&self, other: &ClassicalSignature) -> int {
        isqrt_spec(self.dist_sq_spec(other) as nat) as int
    }

    /// `1 / (1 + distance)` in parts per million, the distance itself read
    /// in units of `SCALE`.
    pub open spec fn similarity_spec(&self, other: &ClassicalSignature) -> int {
        (SCALE * SCALE) as int / (SCALE + self.distance_spec(other))
    }

    /// The signature after one moving-average step toward `x` at rate
    /// `alpha` (parts per million).
    pub open spec fn blended(&self, x: &ClassicalSignature, alpha: u64) -> ClassicalSignature {
        ClassicalSignature {
            mean_interval: ema_spec(self.mean_interval as int, x.mean_interval as int, alpha as int) as i64,
            std_dev_interval: ema_spec(self.std_dev_interval as int, x.std_dev_interval as int, alpha as int) as i64,
            data_ratio: ema_spec(self.data_ratio as int, x.data_ratio as int, alpha as int) as i64,
            intro_ratio: ema_spec(self.intro_ratio as int, x.intro_ratio as int, alpha as int) as i64,
            log_total_bytes: ema_spec(self.log_total_bytes as int, x.log_total_bytes as int, alpha as int) as i64,
        }
    }

    /// Squared Euclidean distance between two signatures.
    pub fn distance_sq(&self, other: &ClassicalSignature) -> (r: u128)
        requires
            self.wf(),
            other.wf(),
        ensures
            r == self.dist_sq_spec(other),
            r <= 20_000_000_000_000_000_000_000_000_000_000,
    {
        let a = sq_diff(self.mean_interval, other.mean_interval);
        let b = sq_diff(self.std_dev_interval, other.std_dev_interval);
        let c = sq_diff(self.data_ratio, other.data_ratio);
        let d = sq_diff(self.intro_ratio, other.intro_ratio);
        let e = sq_diff(self.log_total_bytes, other.log_total_bytes);
        a + b + c + d + e
    }

    /// `1 / (1 + distance)` in parts per million; `SCALE` exactly when the
    /// signatures are equal.
    pub fn similarity(&self, other: &ClassicalSignature) -> (r: u64)
        requires
            self.wf(),
            other.wf(),
        ensures
            r == self.similarity_spec(other),
            r <= SCALE,
    {
        let d2 = self.distance_sq(other);
        let d = isqrt(d2);
        proof {
            assert(d as int == self.distance_spec(other));
            assert((SCALE * SCALE) as int / (SCALE + d) <= SCALE) by (nonlinear_arith)
                requires
                    d >= 0,
            ;
        }
        let q: u128 = (SCALE as u128 * SCALE as u128) / (SCALE as u128 + d as u128);
        q as u64
    }

    /// One moving-average step toward `x` at rate `alpha`.
    pub fn blend(&mut self, x: &ClassicalSignature, alpha: u64)
        requires
            old(self).wf(),
            x.wf(),
            alpha <= SCALE,
        ensures
            final(self).wf(),
            *final(self) == old(self).blended(x, alpha),
    {
        self.mean_interval = ema(self.mean_interval, x.mean_interval, alpha);
        self.std_dev_interval = ema(self.std_dev_interval, x.std_dev_interval, alpha);
        self.data_ratio = ema(self.data_ratio, x.data_ratio, alpha);
        self.intro_ratio = ema(self.intro_ratio, x.intro_ratio, alpha);
        self.log_total_bytes = ema(self.log_total_bytes, x.log_total_bytes, alpha);
    }
}

/// A signature is at distance zero from itself, so its self-similarity is
/// `SCALE`; no signature is more similar to a center than the center itself.
pub proof fn lemma_similarity_self_max(c: &ClassicalSignature, x: &ClassicalSignature)
    ensures
        c.similarity_spec(c) == SCALE,
        x.similarity_spec(c) <= SCALE,
{
    assert(c.dist_sq_spec(c) == 0);
    assert(is_isqrt(0, 0));
    lemma_isqrt_spec(0, 0);
    assert(c.distance_spec(c) == 0);
    assert((SCALE * SCALE) as int / (SCALE + 0) == SCALE) by (nonlinear_arith);
    let d = x.distance_spec(c);
    assert(d >= 0);
    assert((SCALE * SCALE) as int / (SCALE + d) <= SCALE) by (nonlinear_arith)
        requires
            d >= 0,
    ;
}

fn sq_diff(x: i64, y: i64) -> (r: u128)
    requires
        feature_ok(x),
        feature_ok(y),
    ensures
        r == sq(x - y),
        r <= 4_000_000_000_000_000_000_000_000_000_000,
{
    let d: i128 = x as i128 - y as i128;
    let a: u128 = if d >= 0 { d as u128 } else { (-d) as u128 };
    assert(a * a <= 4_000_000_000_000_000_000_000_000_000_000) by (nonlinear_arith)
        requires
            0 <= a <= 2_000_000_000_000_000,
    ;
    assert(a * a == (x - y) * (x - y)) by (nonlinear_arith)
        requires
            a == x - y || a == y - x,
    ;
    a * a
}

} // verus!
