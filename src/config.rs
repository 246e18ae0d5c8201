//! Configuration of the classifier and its validation.
use vstd::prelude::*;

use crate::fixed::SCALE;

verus! {

/// A configuration parameter outside its valid range.
#[derive(Debug, Clone, Copy, PartialEq, Eq, Structural)]
pub enum ConfigError {
    /// `max_regions` must be positive.
    InvalidMaxRegions,
    /// `spectral_dim` must be positive.
    InvalidSpectralDim,
    /// `learning_rate_alpha` must lie in `[0, 1]`.
    InvalidLearningRate,
    /// `decay_rate_beta` must lie in `[0, 1]`.
    InvalidDecayRate,
    /// A decision threshold must lie in `[0, 1]`.
    InvalidThreshold,
    /// `threshold_learning_rate` must lie in `[0, 1]`.
    InvalidThresholdLearningRate,
    /// `target_absorption_rate` must lie in `[0, 1]`.
    InvalidTargetAbsorptionRate,
    /// `optimization_interval` must be positive.
    InvalidOptimizationInterval,
    /// `merge_fidelity_threshold` must lie in `[0, 1]`.
    InvalidMergeFidelityThreshold,
    /// The classical scoring weight must lie in `[0, 1]`.
    InvalidScoringWeight,
    /// The flood-energy weight of the threshold gradient must lie in `[0, 1]`.
    InvalidFloodWeight,
}

/// Parameters of the classification engine. Rates, thresholds and weights
/// are in parts per million.
#[derive(Debug, Clone, Copy, PartialEq, Eq, Structural)]
pub struct ThronionSettings {
    /// Largest number of learned regions.
    pub max_regions: usize,
    /// Length of a spectral signature.
    pub spectral_dim: usize,
    /// Moving-average rate of a region.
    pub learning_rate_alpha: u64,
    /// Strength kept by each region per decay step is `1 - decay_rate_beta`.
    pub decay_rate_beta: u64,
    /// Initial decision threshold.
    pub initial_threshold: u64,
    /// Learning rate of the decision threshold.
    pub threshold_learning_rate: u64,
    /// Absorption rate the threshold aims at.
    pub target_absorption_rate: u64,
    /// Classifications between two optimizer runs.
    pub optimization_interval: usize,
    /// Fidelity above which two regions merge.
    pub merge_fidelity_threshold: u64,
    /// Weight of the classical part of the resonance score.
    pub classical_weight: u64,
    /// Weight of the flood energy in the threshold gradient.
    pub flood_weight: u64,
    /// Instability above which the optimizer consolidates the store.
    pub instability_threshold: u64,
    /// Instability at or below which the optimizer counts the system stable.
    pub stability_tolerance: u64,
}

/// Which parameter, checked in field order, is the first out of range.
pub open spec fn settings_error(s: ThronionSettings) -> Option<ConfigError> {
    if s.max_regions == 0 {
        Some(ConfigError::InvalidMaxRegions)
    } else if s.spectral_dim == 0 {
        Some(ConfigError::InvalidSpectralDim)
    } else if s.learning_rate_alpha > SCALE {
        Some(ConfigError::InvalidLearningRate)
    } else if s.decay_rate_beta > SCALE {
        Some(ConfigError::InvalidDecayRate)
    } else if s.initial_threshold > SCALE {
        Some(ConfigError::InvalidThreshold)
    } else if s.threshold_learning_rate > SCALE {
        Some(ConfigError::InvalidThresholdLearningRate)
    } else if s.target_absorption_rate > SCALE {
        Some(ConfigError::InvalidTargetAbsorptionRate)
    } else if s.optimization_interval == 0 {
        Some(ConfigError::InvalidOptimizationInterval)
    } else if s.merge_fidelity_threshold > SCALE {
        Some(ConfigError::InvalidMergeFidelityThreshold)
    } else if s.classical_weight > SCALE {
        Some(ConfigError::InvalidScoringWeight)
    } else if s.flood_weight > SCALE {
        Some(ConfigError::InvalidFloodWeight)
    } else if s.instability_threshold > SCALE || s.stability_tolerance > SCALE {
        Some(ConfigError::InvalidThreshold)
    } else {
        None
    }
}

impl ThronionSettings {
    /// Every parameter in range.
    pub open spec fn valid(&self) -> bool {
        settings_error(*self) is None
    }

    /// Checks every parameter against its range.
    pub fn validate(&self) -> (r: Result<(), ConfigError>)
        ensures
            r.is_ok() <==> self.valid(),
            r.is_err() ==> settings_error(*self) == Some(r->Err_0),
    {
        if self.max_regions == 0 {
            return Err(ConfigError::InvalidMaxRegions);
        }
        if self.spectral_dim == 0 {
            return Err(ConfigError::InvalidSpectralDim);
        }
        if self.learning_rate_alpha > SCALE {
            return Err(ConfigError::InvalidLearningRate);
        }
        if self.decay_rate_beta > SCALE {
            return Err(ConfigError::InvalidDecayRate);
        }
        if self.initial_threshold > SCALE {
            return Err(ConfigError::InvalidThreshold);
        }
        if self.threshold_learning_rate > SCALE {
            return Err(ConfigError::InvalidThresholdLearningRate);
        }
        if self.target_absorption_rate > SCALE {
            return Err(ConfigError::InvalidTargetAbsorptionRate);
        }
        if self.optimization_interval == 0 {
            return Err(ConfigError::InvalidOptimizationInterval);
        }
        if self.merge_fidelity_threshold > SCALE {
            return Err(ConfigError::InvalidMergeFidelityThreshold);
        }
        if self.classical_weight > SCALE {
            return Err(ConfigError::InvalidScoringWeight);
        }
        if self.flood_weight > SCALE {
            return Err(ConfigError::InvalidFloodWeight);
        }
        if self.instability_threshold > SCALE || self.stability_tolerance > SCALE {
            return Err(ConfigError::InvalidThreshold);
        }
        Ok(())
    }
}

impl Default for ThronionSettings {
    fn default() -> (r: ThronionSettings)
        ensures
            r.valid(),
            r.max_regions == 100,
            r.spectral_dim == 128,
            r.learning_rate_alpha == 100_000,
            r.decay_rate_beta == 1_000,
            r.initial_threshold == 500_000,
            r.threshold_learning_rate == 1_000,
            r.target_absorption_rate == 950_000,
            r.optimization_interval == 100,
            r.merge_fidelity_threshold == 900_000,
            r.classical_weight == 300_000,
            r.flood_weight == 200_000,
            r.instability_threshold == 100_000,
            r.stability_tolerance == 50_000,
    {
        ThronionSettings {
            max_regions: default_max_regions(),
            spectral_dim: default_spectral_dim(),
            learning_rate_alpha: 100_000,
            decay_rate_beta: 1_000,
            initial_threshold: 500_000,
            threshold_learning_rate: 1_000,
            target_absorption_rate: 950_000,
            optimization_interval: default_optimization_interval(),
            merge_fidelity_threshold: 900_000,
            classical_weight: 300_000,
            flood_weight: 200_000,
            instability_threshold: 100_000,
            stability_tolerance: 50_000,
        }
    }
}

/// Connection to the anonymity network's control port.
#[derive(Debug, Clone, PartialEq, Eq)]
pub struct TorSettings {
    pub control_port: u16,
    pub cookie_path: String,
    pub control_password: Option<String>,
}

/// The protected service.
#[derive(Debug, Clone, PartialEq, Eq)]
pub struct ServiceSettings {
    pub bind_address: String,
    pub worker_threads: usize,
}

/// Metrics export and logging.
#[derive(Debug, Clone, PartialEq, Eq)]
pub struct MonitoringSettings {
    pub enable_metrics: bool,
    pub metrics_port: u16,
    pub verbose_logging: bool,
    pub log_file: Option<String>,
}

/// Resource bounds of the circuit tracking.
#[derive(Debug, Clone, Copy, PartialEq, Eq, Structural)]
pub struct PerformanceSettings {
    pub max_tracked_circuits: usize,
    pub metadata_retention_secs: u64,
}

impl Default for TorSettings {
    fn default() -> (r: TorSettings)
        ensures
            r.control_port == 9051,
            r.cookie_path@ == "/var/run/tor/control.authcookie"@,
            r.control_password is None,
    {
        TorSettings { control_port: default_control_port(), cookie_path: default_cookie_path(), control_password: None }
    }
}

impl Default for ServiceSettings {
    fn default() -> (r: ServiceSettings)
        ensures
            r.bind_address@ == "127.0.0.1"@,
            r.worker_threads == 4,
    {
        ServiceSettings { bind_address: default_bind_address(), worker_threads: default_worker_threads() }
    }
}

impl Default for MonitoringSettings {
    fn default() -> (r: MonitoringSettings)
        ensures
            r.enable_metrics,
            r.metrics_port == 9090,
            !r.verbose_logging,
            r.log_file is None,
    {
        MonitoringSettings { enable_metrics: default_true(), metrics_port: default_metrics_port(), verbose_logging: false, log_file: None }
    }
}

impl Default for PerformanceSettings {
    fn default() -> (r: PerformanceSettings)
        ensures
            r.max_tracked_circuits == 10_000,
            r.metadata_retention_secs == 3600,
    {
        PerformanceSettings { max_tracked_circuits: default_max_circuits(), metadata_retention_secs: default_retention() }
    }
}

/// Default largest number of learned regions.
pub fn default_max_regions() -> (r: usize)
    ensures
        r == 100,
{
    100
}

/// Default length of a spectral signature.
pub fn default_spectral_dim() -> (r: usize)
    ensures
        r == 128,
{
    128
}

/// Default number of classifications between optimizer runs.
pub fn default_optimization_interval() -> (r: usize)
    ensures
        r == 100,
{
    100
}

/// Default control port.
pub fn default_control_port() -> (r: u16)
    ensures
        r == 9051,
{
    9051
}

/// Default path of the control port's authentication cookie.
pub fn default_cookie_path() -> (r: String)
    ensures
        r@ == "/var/run/tor/control.authcookie"@,
{
    "/var/run/tor/control.authcookie".to_owned()
}

/// Default address the service binds to.
pub fn default_bind_address() -> (r: String)
    ensures
        r@ == "127.0.0.1"@,
{
    "127.0.0.1".to_owned()
}

/// Default number of worker threads.
pub fn default_worker_threads() -> (r: usize)
    ensures
        r == 4,
{
    4
}

/// `true`, the default of the switches that are on unless turned off.
pub fn default_true() -> (r: bool)
    ensures
        r,
{
    true
}

/// Default metrics port.
pub fn default_metrics_port() -> (r: u16)
    ensures
        r == 9090,
{
    9090
}

/// Default largest number of tracked circuits.
pub fn default_max_circuits() -> (r: usize)
    ensures
        r == 10_000,
{
    10_000
}

/// Default retention of circuit metadata, seconds.
pub fn default_retention() -> (r: u64)
    ensures
        r == 3600,
{
    3600
}

} // verus!
