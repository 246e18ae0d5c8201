//! Unit vectors of a fixed-dimension complex space, in fixed point, and the
//! fidelity between two of them.
use vstd::prelude::*;

use crate::fixed::SCALE;

verus! {

/// Dimension of the state space.
pub const HILBERT_DIM: usize = 13;

/// Largest magnitude a single real or imaginary amplitude part may have.
pub const AMPLITUDE_LIMIT: i64 = 2_000_000;

/// How far the squared norm of a state may stray from `SCALE * SCALE`
/// (rounding slack of a state written in fixed point).
pub const NORM_TOLERANCE: u64 = 10_000_000;

/// A state: `HILBERT_DIM` complex amplitudes, real parts in `re`, imaginary
/// parts in `im`, each scaled by `SCALE`.
#[derive(Debug, Clone, PartialEq, Eq)]
pub struct QuantumState {
    pub re: Vec<i64>,
    pub im: Vec<i64>,
}

/// Why a list of amplitudes is not a state.
#[derive(Debug, Clone, Copy, PartialEq, Eq, Structural)]
pub enum StateError {
    /// The real and imaginary parts are not both `HILBERT_DIM` long.
    WrongDimension,
    /// An amplitude part exceeds `AMPLITUDE_LIMIT` in magnitude.
    AmplitudeOutOfRange,
    /// Every amplitude is zero.
    NullVector,
    /// The squared norm is off `SCALE * SCALE` by more than `NORM_TOLERANCE`.
    NotNormalized,
}

/// Real part of the inner product `<a, b>` over the first `n` coordinates.
pub open spec fn dot_re(a_re: Seq<i64>, a_im: Seq<i64>, b_re: Seq<i64>, b_im: Seq<i64>, n: nat) -> int
    decreases n,
{
    if n == 0 {
        0
    } else {
        let k = (n - 1) as int;
        dot_re(a_re, a_im, b_re, b_im, (n - 1) as nat) + a_re[k] * b_re[k] + a_im[k] * b_im[k]
    }
}

/// Imaginary part of the inner product `<a, b>` (conjugate-linear in `a`)
/// over the first `n` coordinates.
pub open spec fn dot_im(a_re: Seq<i64>, a_im: Seq<i64>, b_re: Seq<i64>, b_im: Seq<i64>, n: nat) -> int
    decreases n,
{
    if n == 0 {
        0
    } else {
        let k = (n - 1) as int;
        dot_im(a_re, a_im, b_re, b_im, (n - 1) as nat) + a_re[k] * b_im[k] - a_im[k] * b_re[k]
    }
}

/// Squared norm over the first `n` coordinates.
pub open spec fn norm_sq(re: Seq<i64>, im: Seq<i64>, n: nat) -> int
    decreases n,
{
    if n == 0 {
        0
    } else {
        let k = (n - 1) as int;
        norm_sq(re, im, (n - 1) as nat) + re[k] * re[k] + im[k] * im[k]
    }
}

/// Every amplitude part lies within `AMPLITUDE_LIMIT`.
pub open spec fn parts_in_range(s: Seq<i64>) -> bool {
    forall|i: int| 0 <= i < s.len() ==> -AMPLITUDE_LIMIT <= #[trigger] s[i] <= AMPLITUDE_LIMIT
}

/// `|<a, b>|^2` scaled to parts per million, capped at `SCALE`.
pub open spec fn fidelity_of(a_re: Seq<i64>, a_im: Seq<i64>, b_re: Seq<i64>, b_im: Seq<i64>) -> int {
    let n = HILBERT_DIM as nat;
    let x = dot_re(a_re, a_im, b_re, b_im, n);
    let y = dot_im(a_re, a_im, b_re, b_im, n);
    let q = (x * x + y * y) / (SCALE * SCALE * SCALE) as int;
    if q > SCALE {
        SCALE as int
    } else {
        q
    }
}

impl QuantumState {
    /// The squared norm of the state.
    pub open spec fn norm_sq_spec(&self) -> int {
        norm_sq(self.re@, self.im@, HILBERT_DIM as nat)
    }

    /// A valid state: right dimension, parts in range, unit norm up to
    /// `NORM_TOLERANCE`.
    pub open spec fn wf(&self) -> bool {
        &&& self.re@.len() == HILBERT_DIM
        &&& self.im@.len() == HILBERT_DIM
        &&& parts_in_range(self.re@)
        &&& parts_in_range(self.im@)
        &&& SCALE * SCALE - NORM_TOLERANCE <= self.norm_sq_spec() <= SCALE * SCALE + NORM_TOLERANCE
    }

    /// Fidelity `|<self, other>|^2` in parts per million.
    pub open spec fn fidelity_spec(&self, other: &QuantumState) -> int {
        fidelity_of(self.re@, self.im@, other.re@, other.im@)
    }

    /// Checks a list of amplitudes and makes a state of it.
    pub fn from_amplitudes(re: Vec<i64>, im: Vec<i64>) -> (r: Result<QuantumState, StateError>)
        ensures
            (re@.len() != HILBERT_DIM || im@.len() != HILBERT_DIM) ==> r == Err::<QuantumState, StateError>(StateError::WrongDimension),
            (re@.len() == HILBERT_DIM && im@.len() == HILBERT_DIM) ==> {
                &&& (!parts_in_range(re@) || !parts_in_range(im@)) ==> r == Err::<QuantumState, StateError>(StateError::AmplitudeOutOfRange)
                &&& (parts_in_range(re@) && parts_in_range(im@) && norm_sq(re@, im@, HILBERT_DIM as nat) == 0)
                    ==> r == Err::<QuantumState, StateError>(StateError::NullVector)
                &&& (parts_in_range(re@) && parts_in_range(im@) && norm_sq(re@, im@, HILBERT_DIM as nat) != 0
                    && (norm_sq(re@, im@, HILBERT_DIM as nat) < SCALE * SCALE - NORM_TOLERANCE
                        || norm_sq(re@, im@, HILBERT_DIM as nat) > SCALE * SCALE + NORM_TOLERANCE))
                    ==> r == Err::<QuantumState, StateError>(StateError::NotNormalized)
            },
            r.is_ok() ==> r->Ok_0.wf() && r->Ok_0.re@ == re@ && r->Ok_0.im@ == im@,
            r.is_ok() <==> (re@.len() == HILBERT_DIM && im@.len() == HILBERT_DIM && parts_in_range(re@)
                && parts_in_range(im@) && SCALE * SCALE - NORM_TOLERANCE <= norm_sq(re@, im@, HILBERT_DIM as nat)
                <= SCALE * SCALE + NORM_TOLERANCE),
    {
        if re.len() != HILBERT_DIM || im.len() != HILBERT_DIM {
            return Err(StateError::WrongDimension);
        }
        let mut i: usize = 0;
        while i < HILBERT_DIM
            invariant
                re@.len() == HILBERT_DIM,
                im@.len() == HILBERT_DIM,
                0 <= i <= HILBERT_DIM,
                forall|j: int| 0 <= j < i ==> -AMPLITUDE_LIMIT <= #[trigger] re@[j] <= AMPLITUDE_LIMIT,
                forall|j: int| 0 <= j < i ==> -AMPLITUDE_LIMIT <= #[trigger] im@[j] <= AMPLITUDE_LIMIT,
            decreases HILBERT_DIM - i,
        {
            if re[i] < -AMPLITUDE_LIMIT || re[i] > AMPLITUDE_LIMIT || im[i] < -AMPLITUDE_LIMIT
                || im[i] > AMPLITUDE_LIMIT {
                return Err(StateError::AmplitudeOutOfRange);
            }
            i = i + 1;
        }
        let n = norm_sq_exec(&re, &im);
        if n == 0 {
            return Err(StateError::NullVector);
        }
        let target: i128 = (SCALE as i128) * (SCALE as i128);
        if n < target - NORM_TOLERANCE as i128 || n > target + NORM_TOLERANCE as i128 {
            return Err(StateError::NotNormalized);
        }
        Ok(QuantumState { re, im })
    }

    /// The basis state with amplitude `1` at coordinate `k`.
    pub fn basis_state(k: usize) -> (r: QuantumState)
        requires
            k < HILBERT_DIM,
        ensures
            r.wf(),
            forall|i: int| 0 <= i < HILBERT_DIM ==> r.re@[i] == (if i == k { SCALE as i64 } else { 0i64 }),
            forall|i: int| 0 <= i < HILBERT_DIM ==> r.im@[i] == 0,
    {
        let mut re: Vec<i64> = Vec::new();
        let mut im: Vec<i64> = Vec::new();
        let mut i: usize = 0;
        while i < HILBERT_DIM
            invariant
                0 <= i <= HILBERT_DIM,
                k < HILBERT_DIM,
                re@.len() == i,
                im@.len() == i,
                forall|j: int| 0 <= j < i ==> re@[j] == (if j == k { SCALE as i64 } else { 0i64 }),
                forall|j: int| 0 <= j < i ==> im@[j] == 0,
                norm_sq(re@, im@, i as nat) == (if k < i { (SCALE * SCALE) as int } else { 0 }),
            decreases HILBERT_DIM - i,
        {
            let ghost old_re = re@;
            let ghost old_im = im@;
            if i == k {
                re.push(SCALE as i64);
            } else {
                re.push(0);
            }
            im.push(0);
            proof {
                lemma_norm_sq_prefix(re@, im@, old_re, old_im, i as nat);
                assert(norm_sq(re@, im@, (i + 1) as nat) == norm_sq(re@, im@, i as nat)
                    + re@[i as int] * re@[i as int] + im@[i as int] * im@[i as int]);
                if i == k {
                    assert(re@[i as int] * re@[i as int] == 1_000_000_000_000) by (nonlinear_arith)
                        requires re@[i as int] == 1_000_000;
                }
            }
            i = i + 1;
        }
        let r = QuantumState { re, im };
        r
    }

    /// Fidelity `|<self, other>|^2` in parts per million, in `[0, SCALE]`.
    pub fn fidelity(&self, other: &QuantumState) -> (r: u64)
        requires
            self.wf(),
            other.wf(),
        ensures
            r == self.fidelity_spec(other),
            r <= SCALE,
    {
        let a_re = &self.re;
        let a_im = &self.im;
        let b_re = &other.re;
        let b_im = &other.im;
        let mut x: i128 = 0;
        let mut y: i128 = 0;
        let mut i: usize = 0;
        let bound: i128 = 8_000_000_000_000;
        while i < HILBERT_DIM
            invariant
                self.wf(),
                other.wf(),
                a_re == &self.re,
                a_im == &self.im,
                b_re == &other.re,
                b_im == &other.im,
                0 <= i <= HILBERT_DIM,
                bound == 8_000_000_000_000,
                x == dot_re(self.re@, self.im@, other.re@, other.im@, i as nat),
                y == dot_im(self.re@, self.im@, other.re@, other.im@, i as nat),
                -(i as int) * bound <= x <= (i as int) * bound,
                -(i as int) * bound <= y <= (i as int) * bound,
            decreases HILBERT_DIM - i,
        {
            let p = a_re[i];
            let q = a_im[i];
            let u = b_re[i];
            let v = b_im[i];
            assert(-AMPLITUDE_LIMIT <= self.re@[i as int] <= AMPLITUDE_LIMIT);
            assert(-AMPLITUDE_LIMIT <= self.im@[i as int] <= AMPLITUDE_LIMIT);
            assert(-AMPLITUDE_LIMIT <= other.re@[i as int] <= AMPLITUDE_LIMIT);
            assert(-AMPLITUDE_LIMIT <= other.im@[i as int] <= AMPLITUDE_LIMIT);
            proof {
                lemma_product_bound(p as int, u as int);
                lemma_product_bound(q as int, v as int);
                lemma_product_bound(p as int, v as int);
                lemma_product_bound(q as int, u as int);
            }
            x = x + (p as i128) * (u as i128) + (q as i128) * (v as i128);
            y = y + (p as i128) * (v as i128) - (q as i128) * (u as i128);
            i = i + 1;
        }
        proof {
            lemma_square_bound(x as int, 104_000_000_000_000int);
            lemma_square_bound(y as int, 104_000_000_000_000int);
        }
        let sq: i128 = x * x + y * y;
        let cube: i128 = (SCALE as i128) * (SCALE as i128) * (SCALE as i128);
        let q: i128 = sq / cube;
        if q > SCALE as i128 {
            SCALE
        } else {
            q as u64
        }
    }
}

/// Squared norm of a list of amplitudes whose parts are in range.
fn norm_sq_exec(re: &Vec<i64>, im: &Vec<i64>) -> (r: i128)
    requires
        re@.len() == HILBERT_DIM,
        im@.len() == HILBERT_DIM,
        parts_in_range(re@),
        parts_in_range(im@),
    ensures
        r == norm_sq(re@, im@, HILBERT_DIM as nat),
{
    let mut acc: i128 = 0;
    let mut i: usize = 0;
    while i < HILBERT_DIM
        invariant
            re@.len() == HILBERT_DIM,
            im@.len() == HILBERT_DIM,
            parts_in_range(re@),
            parts_in_range(im@),
            0 <= i <= HILBERT_DIM,
            acc == norm_sq(re@, im@, i as nat),
            0 <= acc <= (i as int) * 8_000_000_000_000,
        decreases HILBERT_DIM - i,
    {
        let p = re[i];
        let q = im[i];
        assert(-AMPLITUDE_LIMIT <= re@[i as int] <= AMPLITUDE_LIMIT);
        assert(-AMPLITUDE_LIMIT <= im@[i as int] <= AMPLITUDE_LIMIT);
        proof {
            lemma_product_bound(p as int, p as int);
            lemma_product_bound(q as int, q as int);
            assert(p * p >= 0) by (nonlinear_arith);
            assert(q * q >= 0) by (nonlinear_arith);
        }
        acc = acc + (p as i128) * (p as i128) + (q as i128) * (q as i128);
        i = i + 1;
    }
    acc
}

proof fn lemma_product_bound(a: int, b: int)
    requires
        -AMPLITUDE_LIMIT <= a <= AMPLITUDE_LIMIT,
        -AMPLITUDE_LIMIT <= b <= AMPLITUDE_LIMIT,
    ensures
        -4_000_000_000_000 <= a * b <= 4_000_000_000_000,
{
    assert(-4_000_000_000_000 <= a * b <= 4_000_000_000_000) by (nonlinear_arith)
        requires
            -2_000_000 <= a <= 2_000_000,
            -2_000_000 <= b <= 2_000_000,
    ;
}

proof fn lemma_square_bound(x: int, m: int)
    requires
        -m <= x <= m,
    ensures
        0 <= x * x <= m * m,
{
    assert(0 <= x * x <= m * m) by (nonlinear_arith)
        requires
            -m <= x <= m,
    ;
}

/// The squared norm over a prefix depends only on that prefix.
proof fn lemma_norm_sq_prefix(re: Seq<i64>, im: Seq<i64>, re2: Seq<i64>, im2: Seq<i64>, n: nat)
    requires
        n <= re.len(),
        n <= im.len(),
        n <= re2.len(),
        n <= im2.len(),
        forall|j: int| 0 <= j < n ==> re[j] == re2[j] && im[j] == im2[j],
    ensures
        norm_sq(re, im, n) == norm_sq(re2, im2, n),
    decreases n,
{
    if n > 0 {
        lemma_norm_sq_prefix(re, im, re2, im2, (n - 1) as nat);
    }
}

/// Swapping the arguments keeps the real part and negates the imaginary part
/// of the inner product.
proof fn lemma_dot_swap(a_re: Seq<i64>, a_im: Seq<i64>, b_re: Seq<i64>, b_im: Seq<i64>, n: nat)
    ensures
        dot_re(a_re, a_im, b_re, b_im, n) == dot_re(b_re, b_im, a_re, a_im, n),
        dot_im(a_re, a_im, b_re, b_im, n) == -dot_im(b_re, b_im, a_re, a_im, n),
    decreases n,
{
    if n > 0 {
        lemma_dot_swap(a_re, a_im, b_re, b_im, (n - 1) as nat);
        let k = (n - 1) as int;
        assert(a_re[k] * b_re[k] == b_re[k] * a_re[k]) by (nonlinear_arith);
        assert(a_im[k] * b_im[k] == b_im[k] * a_im[k]) by (nonlinear_arith);
        assert(a_re[k] * b_im[k] == b_im[k] * a_re[k]) by (nonlinear_arith);
        assert(a_im[k] * b_re[k] == b_re[k] * a_im[k]) by (nonlinear_arith);
    }
}

/// The inner product of a vector with itself is its squared norm.
proof fn lemma_dot_self(re: Seq<i64>, im: Seq<i64>, n: nat)
    ensures
        dot_re(re, im, re, im, n) == norm_sq(re, im, n),
        dot_im(re, im, re, im, n) == 0,
    decreases n,
{
    if n > 0 {
        lemma_dot_self(re, im, (n - 1) as nat);
        let k = (n - 1) as int;
        assert(re[k] * im[k] == im[k] * re[k]) by (nonlinear_arith);
    }
}

/// Fidelity is symmetric: `fidelity(a, b) == fidelity(b, a)`.
pub proof fn lemma_fidelity_symmetric(a: &QuantumState, b: &QuantumState)
    ensures
        a.fidelity_spec(b) == b.fidelity_spec(a),
{
    let n = HILBERT_DIM as nat;
    lemma_dot_swap(a.re@, a.im@, b.re@, b.im@, n);
    let y = dot_im(b.re@, b.im@, a.re@, a.im@, n);
    assert((-y) * (-y) == y * y) by (nonlinear_arith);
}

/// A valid state has fidelity one with itself, up to the fixed-point slack
/// that its norm tolerance allows: between `SCALE - 20` and `SCALE`.
pub proof fn lemma_fidelity_reflexive(a: &QuantumState)
    requires
        a.wf(),
    ensures
        SCALE - 20 <= a.fidelity_spec(a) <= SCALE,
{
    let n = HILBERT_DIM as nat;
    lemma_dot_self(a.re@, a.im@, n);
    let x = norm_sq(a.re@, a.im@, n);
    let cube: int = 1_000_000_000_000_000_000;
    assert(SCALE * SCALE * SCALE == cube);
    let lo: int = 999_990_000_000;
    assert(lo <= x);
    assert(x * x >= lo * lo) by (nonlinear_arith)
        requires
            0 <= lo <= x,
    ;
    assert(lo * lo >= cube * 999_980) by (nonlinear_arith)
        requires
            lo == 999_990_000_000int,
            cube == 1_000_000_000_000_000_000int,
    ;
    assert((x * x + 0 * 0) / cube >= 999_980) by (nonlinear_arith)
        requires
            x * x >= cube * 999_980,
            cube > 0,
    ;
}

} // verus!
