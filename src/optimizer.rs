//! The optimizer's decisions. A run starts when the coherence oracle reports
//! an instability above the trigger: the store is consolidated and the
//! oracle's system evolved, then re-read after each evolution until it is
//! stable or the evolution budget is spent. The caller performs each action
//! and reports the next reading.
use vstd::prelude::*;

verus! {

/// Most evolutions in one optimizer run.
pub const MAX_EVOLUTIONS: u32 = 10;

/// Where an optimizer run stands.
#[derive(Debug, Clone, Copy, PartialEq, Eq, Structural)]
pub enum OptimizerPhase {
    /// No run in progress.
    Idle,
    /// A run in progress, after `evolutions` evolutions.
    Settling { evolutions: u32 },
}

/// What the caller does next.
#[derive(Debug, Clone, Copy, PartialEq, Eq, Structural)]
pub enum OptimizerAction {
    /// Nothing: the system is calibrated.
    Nothing,
    /// Merge similar regions, evolve once, and report the new reading.
    MergeAndEvolve,
    /// Evolve once more and report the new reading.
    Evolve,
    /// The run ended with the system stable.
    Stable,
    /// The run ended with the evolution budget spent.
    GaveUp,
}

/// The optimizer's transition on one reading of the oracle (parts per
/// million): the next phase and the action.
pub open spec fn optimizer_next(
    phase: OptimizerPhase,
    trigger: u64,
    tolerance: u64,
    instability: u64,
) -> (OptimizerPhase, OptimizerAction) {
    match phase {
        OptimizerPhase::Idle => if instability > trigger {
            (OptimizerPhase::Settling { evolutions: 1 }, OptimizerAction::MergeAndEvolve)
        } else {
            (OptimizerPhase::Idle, OptimizerAction::Nothing)
        },
        OptimizerPhase::Settling { evolutions } => if instability <= tolerance {
            (OptimizerPhase::Idle, OptimizerAction::Stable)
        } else if evolutions >= MAX_EVOLUTIONS {
            (OptimizerPhase::Idle, OptimizerAction::GaveUp)
        } else {
            (OptimizerPhase::Settling { evolutions: (evolutions + 1) as u32 }, OptimizerAction::Evolve)
        },
    }
}

/// The optimizer's state.
#[derive(Debug, Clone, Copy, PartialEq, Eq, Structural)]
pub struct Optimizer {
    /// Instability above which a run starts.
    pub instability_threshold: u64,
    /// Instability at or below which the system counts as stable.
    pub stability_tolerance: u64,
    /// Where the current run stands.
    pub phase: OptimizerPhase,
}

impl Optimizer {
    /// A run never has more than `MAX_EVOLUTIONS` evolutions behind it.
    pub open spec fn wf(&self) -> bool {
        match self.phase {
            OptimizerPhase::Idle => true,
            OptimizerPhase::Settling { evolutions } => 1 <= evolutions <= MAX_EVOLUTIONS,
        }
    }

    /// An idle optimizer with the given trigger and tolerance.
    pub open spec fn new_spec(instability_threshold: u64, stability_tolerance: u64) -> Optimizer {
        Optimizer { instability_threshold, stability_tolerance, phase: OptimizerPhase::Idle }
    }

    /// An idle optimizer.
    pub fn new(instability_threshold: u64, stability_tolerance: u64) -> (r: Optimizer)
        ensures
            r.wf(),
            r == Optimizer::new_spec(instability_threshold, stability_tolerance),
    {
        Optimizer { instability_threshold, stability_tolerance, phase: OptimizerPhase::Idle }
    }

    /// Takes one reading of the oracle and says what to do next.
    pub fn step(&mut self, instability: u64) -> (r: OptimizerAction)
        requires
            old(self).wf(),
        ensures
            final(self).wf(),
            (final(self).phase, r) == optimizer_next(
                old(self).phase,
                old(self).instability_threshold,
                old(self).stability_tolerance,
                instability,
            ),
            final(self).instability_threshold == old(self).instability_threshold,
            final(self).stability_tolerance == old(self).stability_tolerance,
    {
        match self.phase {
            OptimizerPhase::Idle => {
                if instability > self.instability_threshold {
                    self.phase = OptimizerPhase::Settling { evolutions: 1 };
                    OptimizerAction::MergeAndEvolve
                } else {
                    OptimizerAction::Nothing
                }
            },
            OptimizerPhase::Settling { evolutions } => {
                if instability <= self.stability_tolerance {
                    self.phase = OptimizerPhase::Idle;
                    OptimizerAction::Stable
                } else if evolutions >= MAX_EVOLUTIONS {
                    self.phase = OptimizerPhase::Idle;
                    OptimizerAction::GaveUp
                } else {
                    self.phase = OptimizerPhase::Settling { evolutions: evolutions + 1 };
                    OptimizerAction::Evolve
                }
            },
        }
    }

    /// Whether a run is in progress.
    pub fn is_running(&self) -> (r: bool)
        ensures
            r == (self.phase != OptimizerPhase::Idle),
    {
        match self.phase {
            OptimizerPhase::Idle => false,
            OptimizerPhase::Settling { .. } => true,
        }
    }
}

/// Evolutions that the optimizer asks for from `phase` on, fed the given
/// readings in order, until the run ends.
pub open spec fn evolutions_asked(phase: OptimizerPhase, trigger: u64, tolerance: u64, readings: Seq<u64>) -> nat
    decreases readings.len(),
{
    if readings.len() == 0 {
        0
    } else {
        let (next, action) = optimizer_next(phase, trigger, tolerance, readings[0]);
        let here: nat = match action {
            OptimizerAction::MergeAndEvolve => 1,
            OptimizerAction::Evolve => 1,
            _ => 0,
        };
        match next {
            OptimizerPhase::Idle => here,
            OptimizerPhase::Settling { .. } => here + evolutions_asked(next, trigger, tolerance, readings.drop_first()),
        }
    }
}

/// One run of the optimizer asks for at most `MAX_EVOLUTIONS` evolutions,
/// whatever the oracle reports: from a phase with `k` evolutions behind it,
/// at most `MAX_EVOLUTIONS - k` more.
pub proof fn lemma_run_is_bounded(phase: OptimizerPhase, trigger: u64, tolerance: u64, readings: Seq<u64>)
    requires
        (Optimizer { instability_threshold: trigger, stability_tolerance: tolerance, phase }).wf(),
    ensures
        evolutions_asked(phase, trigger, tolerance, readings) <= match phase {
            OptimizerPhase::Idle => MAX_EVOLUTIONS as nat,
            OptimizerPhase::Settling { evolutions } => (MAX_EVOLUTIONS - evolutions) as nat,
        },
    decreases readings.len(),
{
    if readings.len() > 0 {
        let (next, action) = optimizer_next(phase, trigger, tolerance, readings[0]);
        match next {
            OptimizerPhase::Idle => {},
            OptimizerPhase::Settling { .. } => {
                lemma_run_is_bounded(next, trigger, tolerance, readings.drop_first());
            },
        }
    }
}

} // verus!
