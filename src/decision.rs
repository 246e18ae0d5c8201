//! The forward/absorb decision and its counters.
use vstd::prelude::*;

use crate::fixed::SCALE;

verus! {

/// What happens to a circuit.
#[derive(Debug, Clone, Copy, PartialEq, Eq, Structural)]
pub enum CircuitAction {
    /// Let the circuit through.
    Forward,
    /// Drop the circuit.
    Absorb,
}

/// A snapshot of the decision counters.
#[derive(Debug, Clone, Copy, PartialEq, Eq, Structural)]
pub struct DecisionStatistics {
    pub total_decisions: u64,
    pub forwarded: u64,
    pub absorbed: u64,
    /// Share of absorbed circuits, parts per million.
    pub absorption_rate: u64,
}

/// Share of `absorbed` in `total`, parts per million; `0` when `total` is `0`.
pub open spec fn rate_of(absorbed: int, total: int) -> int {
    if total == 0 {
        0
    } else {
        (absorbed * SCALE) / total
    }
}

/// Decides per circuit and counts the decisions.
pub struct DecisionEngine {
    decisions_made: u64,
    circuits_forwarded: u64,
    circuits_absorbed: u64,
}

impl DecisionEngine {
    /// Decisions made.
    pub closed spec fn total_spec(&self) -> u64 {
        self.decisions_made
    }

    /// Circuits forwarded.
    pub closed spec fn forwarded_spec(&self) -> u64 {
        self.circuits_forwarded
    }

    /// Circuits absorbed.
    pub closed spec fn absorbed_spec(&self) -> u64 {
        self.circuits_absorbed
    }

    /// Every decision is counted as exactly one of forward and absorb.
    pub closed spec fn wf(&self) -> bool {
        self.circuits_forwarded + self.circuits_absorbed == self.decisions_made
    }

    /// The decision rule: forward when the score exceeds the threshold.
    pub open spec fn action_spec(score: u64, threshold: u64) -> CircuitAction {
        if score > threshold {
            CircuitAction::Forward
        } else {
            CircuitAction::Absorb
        }
    }

    /// Counters at zero.
    pub fn new() -> (r: DecisionEngine)
        ensures
            r.wf(),
            r.total_spec() == 0,
            r.forwarded_spec() == 0,
            r.absorbed_spec() == 0,
    {
        DecisionEngine { decisions_made: 0, circuits_forwarded: 0, circuits_absorbed: 0 }
    }

    /// Forward when `score > threshold`, absorb otherwise; counts the decision.
    pub fn decide(&mut self, score: u64, threshold: u64) -> (r: CircuitAction)
        requires
            old(self).wf(),
            old(self).total_spec() < u64::MAX,
        ensures
            final(self).wf(),
            r == DecisionEngine::action_spec(score, threshold),
            final(self).total_spec() == old(self).total_spec() + 1,
            r == CircuitAction::Forward ==> final(self).forwarded_spec() == old(self).forwarded_spec() + 1
                && final(self).absorbed_spec() == old(self).absorbed_spec(),
            r == CircuitAction::Absorb ==> final(self).absorbed_spec() == old(self).absorbed_spec() + 1
                && final(self).forwarded_spec() == old(self).forwarded_spec(),
    {
        self.decisions_made = self.decisions_made + 1;
        if score > threshold {
            self.circuits_forwarded = self.circuits_forwarded + 1;
            CircuitAction::Forward
        } else {
            self.circuits_absorbed = self.circuits_absorbed + 1;
            CircuitAction::Absorb
        }
    }

    /// Share of absorbed circuits, parts per million, in `[0, SCALE]`.
    pub fn absorption_rate(&self) -> (r: u64)
        requires
            self.wf(),
        ensures
            r == rate_of(self.absorbed_spec() as int, self.total_spec() as int),
            r <= SCALE,
    {
        if self.decisions_made == 0 {
            return 0;
        }
        let a = self.circuits_absorbed;
        let t = self.decisions_made;
        assert((a * SCALE) / (t as int) <= SCALE) by (nonlinear_arith)
            requires
                a <= t,
                t > 0,
        ;
        ((a as u128 * SCALE as u128) / t as u128) as u64
    }

    /// A snapshot of the counters.
    pub fn statistics(&self) -> (r: DecisionStatistics)
        requires
            self.wf(),
        ensures
            r.total_decisions == self.total_spec(),
            r.forwarded == self.forwarded_spec(),
            r.absorbed == self.absorbed_spec(),
            r.absorption_rate == rate_of(self.absorbed_spec() as int, self.total_spec() as int),
            r.forwarded + r.absorbed == r.total_decisions,
    {
        DecisionStatistics {
            total_decisions: self.decisions_made,
            forwarded: self.circuits_forwarded,
            absorbed: self.circuits_absorbed,
            absorption_rate: self.absorption_rate(),
        }
    }

    /// Sets every counter back to zero.
    pub fn reset(&mut self)
        ensures
            final(self).wf(),
            final(self).total_spec() == 0,
            final(self).forwarded_spec() == 0,
            final(self).absorbed_spec() == 0,
    {
        self.decisions_made = 0;
        self.circuits_forwarded = 0;
        self.circuits_absorbed = 0;
    }
}

impl Default for DecisionEngine {
    fn default() -> (r: DecisionEngine)
        ensures
            r.wf(),
            r.total_spec() == 0,
            r.forwarded_spec() == 0,
            r.absorbed_spec() == 0,
    {
        DecisionEngine::new()
    }
}

/// Whatever decisions a valid engine has made, the forwarded and absorbed
/// counts add up to the total.
pub proof fn lemma_counts_add_up(engine: &DecisionEngine)
    requires
        engine.wf(),
    ensures
        engine.forwarded_spec() + engine.absorbed_spec() == engine.total_spec(),
{
}

} // verus!
