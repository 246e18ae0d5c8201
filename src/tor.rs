//! Circuits as the metadata provider hands them over, and the classical
//! features drawn from them.
use vstd::prelude::*;
use vstd::relations::{sorted_by, total_ordering};
use vstd::seq_lib::{lemma_sorted_unique, to_multiset_build, to_multiset_insert};

use crate::fixed::{SCALE, isqrt, isqrt_spec};
use crate::signature::{ClassicalSignature, FEATURE_LIMIT};

verus! {

/// Cell types that matter for attack detection.
#[derive(Debug, Clone, Copy, PartialEq, Eq, Structural)]
pub enum TorCellType {
    /// Introduction cell of a hidden service.
    Introduce2,
    /// Rendezvous setup (client).
    Rendezvous1,
    /// Rendezvous setup (service).
    Rendezvous2,
    /// Data cell.
    Data,
    /// Padding cell.
    Padding,
    /// Any other cell.
    Other,
}

/// A circuit event reported by the control port.
#[derive(Debug, Clone, PartialEq, Eq)]
pub enum CircuitEvent {
    /// Circuit launched.
    Launched { circuit_id: u32 },
    /// Circuit extended by some hops.
    Extended { circuit_id: u32, hop_count: usize },
    /// Circuit built and ready.
    Built { circuit_id: u32 },
    /// Circuit failed.
    Failed { circuit_id: u32, reason: String },
    /// Circuit closed.
    Closed { circuit_id: u32, reason: String },
}

/// One circuit's metadata; times in microseconds.
#[derive(Debug, Clone)]
pub struct TorCircuitMetadata {
    /// Circuit identifier.
    pub circuit_id: u32,
    /// When the circuit was created.
    pub created_at_micros: u64,
    /// Arrival time of each cell.
    pub cell_timings: Vec<u64>,
    /// Type of each cell, parallel to `cell_timings`.
    pub cell_types: Vec<TorCellType>,
    /// Introduction point, for hidden services.
    pub introduction_point: Option<String>,
    /// Whether the rendezvous completed.
    pub rendezvous_completed: bool,
    /// Bytes transferred.
    pub total_bytes: u64,
}

/// Statistics of the gaps between consecutive cell arrivals, microseconds.
#[derive(Debug, Clone, Copy, PartialEq, Eq, Structural)]
pub struct TimingFeatures {
    pub mean_interval: u64,
    pub std_dev_interval: u64,
    pub median_interval: u64,
    pub min_interval: u64,
    pub max_interval: u64,
}

/// Share of each cell type, parts per million.
#[derive(Debug, Clone, Copy, PartialEq, Eq, Structural)]
pub struct CellTypeDistribution {
    pub intro_ratio: u64,
    pub rendezvous_ratio: u64,
    pub data_ratio: u64,
    pub padding_ratio: u64,
    pub other_ratio: u64,
}

/// Largest arrival time accepted, microseconds (about eleven days).
pub const TIMING_LIMIT: u64 = 1_000_000_000_000;

/// Longest cell sequence accepted.
pub const MAX_CELLS: usize = 1_000_000;

/// Number of cells of `s` that `pred` accepts.
pub open spec fn count_cells(s: Seq<TorCellType>, pred: spec_fn(TorCellType) -> bool) -> nat
    decreases s.len(),
{
    if s.len() == 0 {
        0
    } else {
        count_cells(s.drop_last(), pred) + if pred(s.last()) {
            1nat
        } else {
            0nat
        }
    }
}

/// An introduction cell.
pub open spec fn is_intro(c: TorCellType) -> bool {
    c == TorCellType::Introduce2
}

/// A rendezvous cell, either side.
pub open spec fn is_rendezvous(c: TorCellType) -> bool {
    c == TorCellType::Rendezvous1 || c == TorCellType::Rendezvous2
}

/// A data cell.
pub open spec fn is_data(c: TorCellType) -> bool {
    c == TorCellType::Data
}

/// A padding cell.
pub open spec fn is_padding(c: TorCellType) -> bool {
    c == TorCellType::Padding
}

/// A cell of any other type.
pub open spec fn is_other(c: TorCellType) -> bool {
    c == TorCellType::Other
}

/// Share of the cells of `s` that `pred` accepts, parts per million.
pub open spec fn share(s: Seq<TorCellType>, pred: spec_fn(TorCellType) -> bool) -> int {
    if s.len() == 0 {
        0
    } else {
        (count_cells(s, pred) * SCALE) as int / s.len() as int
    }
}

/// Gap between arrivals `i` and `i + 1`.
pub open spec fn gap(t: Seq<u64>, i: int) -> int {
    let j = i + 1;
    if t[j] >= t[i] {
        t[j] - t[i]
    } else {
        t[i] - t[j]
    }
}

/// Sum of the first `n` gaps.
pub open spec fn gap_sum(t: Seq<u64>, n: nat) -> int
    decreases n,
{
    if n == 0 {
        0
    } else {
        gap_sum(t, (n - 1) as nat) + gap(t, n - 1)
    }
}

/// Sum of the squares of the first `n` gaps.
pub open spec fn gap_sq_sum(t: Seq<u64>, n: nat) -> int
    decreases n,
{
    if n == 0 {
        0
    } else {
        gap_sq_sum(t, (n - 1) as nat) + gap(t, n - 1) * gap(t, n - 1)
    }
}

/// The order of gaps.
pub open spec fn leq_u64() -> spec_fn(u64, u64) -> bool {
    |x: u64, y: u64| x <= y
}

/// The gaps between consecutive arrivals, in arrival order.
pub open spec fn gap_seq(t: Seq<u64>) -> Seq<u64> {
    Seq::new((t.len() - 1) as nat, |i: int| gap(t, i) as u64)
}

/// Median of a sorted non-empty sequence: the middle element, or the mean
/// of the two middle elements rounded down.
pub open spec fn median_of_sorted(s: Seq<u64>) -> int {
    let n = s.len() as int;
    if n % 2 == 0 {
        (s[n / 2 - 1] + s[n / 2]) / 2
    } else {
        s[n / 2] as int
    }
}

proof fn lemma_leq_u64_total()
    ensures
        total_ordering(leq_u64()),
{
    let leq = leq_u64();
    assert(vstd::relations::reflexive(leq));
    assert(vstd::relations::antisymmetric(leq));
    assert(vstd::relations::transitive(leq));
    assert(vstd::relations::strongly_connected(leq));
}

/// `m` is the smallest of the first `n` gaps.
pub open spec fn is_min_gap(t: Seq<u64>, n: int, m: int) -> bool {
    (exists|i: int| 0 <= i < n && gap(t, i) == m) && forall|i: int| 0 <= i < n ==> m <= #[trigger] gap(t, i)
}

/// `m` is the largest of the first `n` gaps.
pub open spec fn is_max_gap(t: Seq<u64>, n: int, m: int) -> bool {
    (exists|i: int| 0 <= i < n && gap(t, i) == m) && forall|i: int| 0 <= i < n ==> #[trigger] gap(t, i) <= m
}

/// Timing statistics of the arrival times `t`: mean of the gaps rounded
/// down, population standard deviation rounded down (the integer square
/// root of `(n * sum sq - sum^2) / n^2`), smallest and largest gap; all zero
/// for fewer than two arrivals.
pub open spec fn timing_features_spec(t: Seq<u64>, f: TimingFeatures) -> bool {
    let n = t.len() - 1;
    if t.len() < 2 {
        f == TimingFeatures { mean_interval: 0, std_dev_interval: 0, median_interval: 0, min_interval: 0, max_interval: 0 }
    } else {
        let s = gap_sum(t, n as nat);
        let q = gap_sq_sum(t, n as nat);
        &&& f.mean_interval == s / n
        &&& f.std_dev_interval == isqrt_spec(((n * q - s * s) / (n * n)) as nat)
        &&& f.median_interval == median_of_sorted(gap_seq(t).sort_by(leq_u64()))
        &&& is_min_gap(t, n, f.min_interval as int)
        &&& is_max_gap(t, n, f.max_interval as int)
    }
}

impl ClassicalSignature {
    /// The classical signature of a circuit from its timing statistics
    /// (microseconds), its cell-type shares, and the natural log of its
    /// kilobytes (scaled by `SCALE`): intervals are turned into milliseconds.
    pub fn from_features(timing: &TimingFeatures, dist: &CellTypeDistribution, log_total_bytes: i64) -> (r: ClassicalSignature)
        requires
            timing.mean_interval <= TIMING_LIMIT,
            timing.std_dev_interval <= TIMING_LIMIT,
            dist.data_ratio <= SCALE,
            dist.intro_ratio <= SCALE,
            -FEATURE_LIMIT <= log_total_bytes <= FEATURE_LIMIT,
        ensures
            r.wf(),
            r.mean_interval == timing.mean_interval * 1000,
            r.std_dev_interval == timing.std_dev_interval * 1000,
            r.data_ratio == dist.data_ratio,
            r.intro_ratio == dist.intro_ratio,
            r.log_total_bytes == log_total_bytes,
    {
        ClassicalSignature {
            mean_interval: (timing.mean_interval * 1000) as i64,
            std_dev_interval: (timing.std_dev_interval * 1000) as i64,
            data_ratio: dist.data_ratio as i64,
            intro_ratio: dist.intro_ratio as i64,
            log_total_bytes,
        }
    }
}

/// Feature extraction from circuit metadata.
pub struct MetadataExtractor;

impl MetadataExtractor {
    /// Share of each cell type among `cell_types`; all zero when empty.
    pub fn analyze_cell_types(cell_types: &Vec<TorCellType>) -> (r: CellTypeDistribution)
        requires
            cell_types@.len() <= MAX_CELLS,
        ensures
            r.intro_ratio == share(cell_types@, |c| is_intro(c)),
            r.rendezvous_ratio == share(cell_types@, |c| is_rendezvous(c)),
            r.data_ratio == share(cell_types@, |c| is_data(c)),
            r.padding_ratio == share(cell_types@, |c| is_padding(c)),
            r.other_ratio == share(cell_types@, |c| is_other(c)),
            r.intro_ratio <= SCALE && r.rendezvous_ratio <= SCALE && r.data_ratio <= SCALE
                && r.padding_ratio <= SCALE && r.other_ratio <= SCALE,
    {
        let total = cell_types.len();
        if total == 0 {
            return CellTypeDistribution { intro_ratio: 0, rendezvous_ratio: 0, data_ratio: 0, padding_ratio: 0, other_ratio: 0 };
        }
        let ghost s = cell_types@;
        let mut intro: u64 = 0;
        let mut rendezvous: u64 = 0;
        let mut data: u64 = 0;
        let mut padding: u64 = 0;
        let mut other: u64 = 0;
        let mut k: usize = 0;
        while k < total
            invariant
                s == cell_types@,
                total == s.len(),
                total <= MAX_CELLS,
                0 <= k <= total,
                intro == count_cells(s.subrange(0, k as int), |c| is_intro(c)),
                rendezvous == count_cells(s.subrange(0, k as int), |c| is_rendezvous(c)),
                data == count_cells(s.subrange(0, k as int), |c| is_data(c)),
                padding == count_cells(s.subrange(0, k as int), |c| is_padding(c)),
                other == count_cells(s.subrange(0, k as int), |c| is_other(c)),
                intro <= k && rendezvous <= k && data <= k && padding <= k && other <= k,
            decreases total - k,
        {
            proof {
                assert(s.subrange(0, k as int + 1).drop_last() =~= s.subrange(0, k as int));
            }
            match cell_types[k] {
                TorCellType::Introduce2 => intro = intro + 1,
                TorCellType::Rendezvous1 => rendezvous = rendezvous + 1,
                TorCellType::Rendezvous2 => rendezvous = rendezvous + 1,
                TorCellType::Data => data = data + 1,
                TorCellType::Padding => padding = padding + 1,
                TorCellType::Other => other = other + 1,
            }
            k = k + 1;
        }
        proof {
            assert(s.subrange(0, total as int) =~= s);
        }
        CellTypeDistribution {
            intro_ratio: ratio(intro, total as u64),
            rendezvous_ratio: ratio(rendezvous, total as u64),
            data_ratio: ratio(data, total as u64),
            padding_ratio: ratio(padding, total as u64),
            other_ratio: ratio(other, total as u64),
        }
    }

    /// Timing statistics of the gaps between consecutive arrivals.
    pub fn extract_timing_features(cell_timings: &Vec<u64>) -> (r: TimingFeatures)
        requires
            cell_timings@.len() <= MAX_CELLS,
            forall|i: int| 0 <= i < cell_timings@.len() ==> #[trigger] cell_timings@[i] <= TIMING_LIMIT,
        ensures
            timing_features_spec(cell_timings@, r),
    {
        let len = cell_timings.len();
        if len < 2 {
            return TimingFeatures { mean_interval: 0, std_dev_interval: 0, median_interval: 0, min_interval: 0, max_interval: 0 };
        }
        let ghost t = cell_timings@;
        let n: usize = len - 1;
        let first = gap_exec(cell_timings, 0);
        let mut sum: u128 = 0;
        let mut sq_sum: u128 = 0;
        let mut min: u64 = first;
        let mut max: u64 = first;
        let mut k: usize = 0;
        while k < n
            invariant
                t == cell_timings@,
                n == t.len() - 1,
                n < MAX_CELLS,
                forall|i: int| 0 <= i < t.len() ==> #[trigger] t[i] <= TIMING_LIMIT,
                0 <= k <= n,
                sum == gap_sum(t, k as nat),
                sq_sum == gap_sq_sum(t, k as nat),
                sum <= k * TIMING_LIMIT,
                sq_sum <= k * (TIMING_LIMIT * TIMING_LIMIT),
                exists|i: int| 0 <= i < n && gap(t, i) == min,
                exists|i: int| 0 <= i < n && gap(t, i) == max,
                forall|i: int| 0 <= i < k ==> min <= #[trigger] gap(t, i),
                forall|i: int| 0 <= i < k ==> #[trigger] gap(t, i) <= max,
                k == 0 ==> min == gap(t, 0) && max == gap(t, 0),
            decreases n - k,
        {
            let g = gap_exec(cell_timings, k);
            assert(g * g <= TIMING_LIMIT * TIMING_LIMIT) by (nonlinear_arith)
                requires
                    g <= TIMING_LIMIT,
            ;
            assert(sum + g <= (k + 1) * TIMING_LIMIT) by (nonlinear_arith)
                requires
                    sum <= k * TIMING_LIMIT,
                    g <= TIMING_LIMIT,
            ;
            assert(sq_sum + g * g <= (k + 1) * (TIMING_LIMIT * TIMING_LIMIT)) by (nonlinear_arith)
                requires
                    sq_sum <= k * (TIMING_LIMIT * TIMING_LIMIT),
                    g * g <= TIMING_LIMIT * TIMING_LIMIT,
            ;
            assert((k + 1) * (TIMING_LIMIT * TIMING_LIMIT) <= MAX_CELLS * (TIMING_LIMIT * TIMING_LIMIT)) by (nonlinear_arith)
                requires
                    k + 1 <= MAX_CELLS,
            ;
            sum = sum + g as u128;
            sq_sum = sq_sum + g as u128 * g as u128;
            if g < min {
                min = g;
            }
            if g > max {
                max = g;
            }
            k = k + 1;
        }
        let nn: u128 = n as u128;
        assert(sum * sum <= nn * TIMING_LIMIT * (nn * TIMING_LIMIT)) by (nonlinear_arith)
            requires
                0 <= sum <= nn * TIMING_LIMIT,
        ;
        assert(nn * sq_sum <= nn * (nn * (TIMING_LIMIT * TIMING_LIMIT))) by (nonlinear_arith)
            requires
                0 <= sq_sum <= nn * (TIMING_LIMIT * TIMING_LIMIT),
                nn >= 0,
        ;
        assert(nn * (nn * (TIMING_LIMIT * TIMING_LIMIT)) <= MAX_CELLS * (MAX_CELLS * (TIMING_LIMIT * TIMING_LIMIT))) by (nonlinear_arith)
            requires
                0 <= nn <= MAX_CELLS,
        ;
        proof {
            lemma_variance_numerator_nonneg(t, n as nat);
        }
        let numerator: u128 = nn * sq_sum - sum * sum;
        assert(1 <= nn * nn <= MAX_CELLS * MAX_CELLS) by (nonlinear_arith)
            requires
                1 <= nn <= MAX_CELLS,
        ;
        let nsq: u128 = nn * nn;
        let variance: u128 = numerator / nsq;
        assert(variance <= TIMING_LIMIT * TIMING_LIMIT) by (nonlinear_arith)
            requires
                nn >= 1,
                nsq == nn * nn,
                variance == (numerator as int) / (nsq as int),
                0 <= numerator <= nn * sq_sum,
                nn * sq_sum <= nn * (nn * (TIMING_LIMIT * TIMING_LIMIT)),
        ;
        let std_dev = isqrt(variance);
        assert(sum / nn <= TIMING_LIMIT) by (nonlinear_arith)
            requires
                nn >= 1,
                0 <= sum <= nn * TIMING_LIMIT,
        ;
        let mean: u64 = (sum / nn) as u64;
        let sorted = sorted_gaps(cell_timings);
        let half = n / 2;
        let median: u64 = if n % 2 == 0 {
            (sorted[half - 1] + sorted[half]) / 2
        } else {
            sorted[half]
        };
        TimingFeatures { mean_interval: mean, std_dev_interval: std_dev, median_interval: median, min_interval: min, max_interval: max }
    }
}

/// `n` times the sum of the squares of `n` gaps is at least the square of
/// their sum.
proof fn lemma_variance_numerator_nonneg(t: Seq<u64>, n: nat)
    ensures
        n * gap_sq_sum(t, n) - gap_sum(t, n) * gap_sum(t, n) >= 0,
    decreases n,
{
    if n > 0 {
        let m = (n - 1) as nat;
        lemma_variance_numerator_nonneg(t, m);
        let x = gap(t, m as int);
        let s = gap_sum(t, m);
        let q = gap_sq_sum(t, m);
        let mi = m as int;
        assert(gap_sum(t, n) == s + x);
        assert(gap_sq_sum(t, n) == q + x * x);
        if m == 0 {
            assert(s == 0 && q == 0);
            assert(1 * (0 + x * x) - (0 + x) * (0 + x) == 0) by (nonlinear_arith);
        } else {
            assert(mi * (q + mi * x * x - 2 * s * x) >= (s - mi * x) * (s - mi * x)) by (nonlinear_arith)
                requires
                    mi * q - s * s >= 0,
            ;
            assert((s - mi * x) * (s - mi * x) >= 0) by (nonlinear_arith);
            assert(q + mi * x * x - 2 * s * x >= 0) by (nonlinear_arith)
                requires
                    mi * (q + mi * x * x - 2 * s * x) >= 0,
                    mi > 0,
            ;
            assert((mi + 1) * (q + x * x) - (s + x) * (s + x) == (mi * q - s * s) + (q + mi * x * x - 2 * s * x))
                by (nonlinear_arith);
        }
    }
}

/// The gaps between consecutive arrivals, sorted ascending (by insertion).
fn sorted_gaps(t: &Vec<u64>) -> (r: Vec<u64>)
    requires
        2 <= t@.len() <= MAX_CELLS,
        forall|i: int| 0 <= i < t@.len() ==> #[trigger] t@[i] <= TIMING_LIMIT,
    ensures
        r@ == gap_seq(t@).sort_by(leq_u64()),
        r@.len() == t@.len() - 1,
        forall|i: int| 0 <= i < r@.len() ==> #[trigger] r@[i] <= TIMING_LIMIT,
{
    let ghost g = gap_seq(t@);
    let n = t.len() - 1;
    let mut sorted: Vec<u64> = Vec::new();
    let mut k: usize = 0;
    assert(sorted@ =~= g.subrange(0, 0));
    while k < n
        invariant
            n == t@.len() - 1,
            g == gap_seq(t@),
            2 <= t@.len() <= MAX_CELLS,
            forall|i: int| 0 <= i < t@.len() ==> #[trigger] t@[i] <= TIMING_LIMIT,
            0 <= k <= n,
            sorted@.len() == k,
            sorted_by(sorted@, leq_u64()),
            sorted@.to_multiset() == g.subrange(0, k as int).to_multiset(),
            forall|i: int| 0 <= i < sorted@.len() ==> #[trigger] sorted@[i] <= TIMING_LIMIT,
        decreases n - k,
    {
        let x = gap_exec(t, k);
        let mut p: usize = 0;
        while p < sorted.len() && sorted[p] <= x
            invariant
                0 <= p <= sorted@.len(),
                forall|i: int| 0 <= i < p ==> #[trigger] sorted@[i] <= x,
            decreases sorted@.len() - p,
        {
            p = p + 1;
        }
        let ghost before = sorted@;
        sorted.insert(p, x);
        proof {
            assert(sorted@ == before.insert(p as int, x));
            assert forall|i: int, j: int| 0 <= i < j < sorted@.len() implies #[trigger] leq_u64()(sorted@[i], sorted@[j]) by {
                if j < p {
                    assert(leq_u64()(before[i], before[j]));
                } else if j == p {
                    assert(before[i] <= x);
                } else if i < p {
                    assert(leq_u64()(before[i], before[j - 1]));
                } else if i == p {
                    assert(p < before.len());
                    assert(before[p as int] > x);
                    if j - 1 > p {
                        assert(leq_u64()(before[p as int], before[j - 1]));
                    }
                } else {
                    assert(leq_u64()(before[i - 1], before[j - 1]));
                }
            }
            assert(g[k as int] == x);
            assert(g.subrange(0, k as int + 1) =~= g.subrange(0, k as int).push(x));
            to_multiset_insert(before, p as int, x);
            to_multiset_build(g.subrange(0, k as int), x);
        }
        k = k + 1;
    }
    proof {
        assert(g.subrange(0, n as int) =~= g);
        lemma_leq_u64_total();
        g.lemma_sort_by_ensures(leq_u64());
        lemma_sorted_unique(sorted@, g.sort_by(leq_u64()), leq_u64());
    }
    sorted
}

/// `part * SCALE / total`, for `part <= total`.
fn ratio(part: u64, total: u64) -> (r: u64)
    requires
        part <= total,
        0 < total <= MAX_CELLS,
    ensures
        r == (part * SCALE) / (total as int),
        r <= SCALE,
{
    assert((part * SCALE) / (total as int) <= SCALE) by (nonlinear_arith)
        requires
            part <= total,
            total > 0,
    ;
    (part * SCALE) / total
}

/// Gap between arrivals `i` and `i + 1`.
fn gap_exec(t: &Vec<u64>, i: usize) -> (r: u64)
    requires
        i + 1 < t@.len(),
        t@.len() <= MAX_CELLS,
        t@[i as int] <= TIMING_LIMIT,
        t@[i as int + 1] <= TIMING_LIMIT,
    ensures
        r == gap(t@, i as int),
        r <= TIMING_LIMIT,
{
    let j = i + 1;
    if t[j] >= t[i] {
        t[j] - t[i]
    } else {
        t[i] - t[j]
    }
}

} // verus!
