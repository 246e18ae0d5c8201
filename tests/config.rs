use thronion::config::{
    default_bind_address, default_cookie_path, ConfigError, MonitoringSettings,
    PerformanceSettings, ServiceSettings, ThronionSettings, TorSettings,
};

#[test]
fn config_test_default_config() {
    let config = ThronionSettings::default();
    assert!(config.validate().is_ok());
}

#[test]
fn config_test_config_validation() {
    let mut config = ThronionSettings::default();
    config.max_regions = 0;
    assert!(config.validate().is_err());
}

#[test]
fn mod_test_default_config() {
    let config = ThronionSettings::default();
    assert!(config.validate().is_ok());
    assert_eq!(config.max_regions, 100);
    assert_eq!(TorSettings::default().control_port, 9051);
}

#[test]
fn mod_test_config_validation() {
    let mut config = ThronionSettings::default();
    config.max_regions = 0;
    assert!(config.validate().is_err());

    let mut config = ThronionSettings::default();
    config.initial_threshold = 1_500_000;
    assert!(config.validate().is_err());
}

#[test]
fn each_invalid_parameter_has_its_error() {
    let base = ThronionSettings::default();
    let mut c = base;
    c.spectral_dim = 0;
    assert_eq!(c.validate(), Err(ConfigError::InvalidSpectralDim));
    let mut c = base;
    c.max_regions = 0;
    assert_eq!(c.validate(), Err(ConfigError::InvalidMaxRegions));
    let mut c = base;
    c.learning_rate_alpha = 1_000_001;
    assert_eq!(c.validate(), Err(ConfigError::InvalidLearningRate));
    let mut c = base;
    c.decay_rate_beta = 2_000_000;
    assert_eq!(c.validate(), Err(ConfigError::InvalidDecayRate));
    let mut c = base;
    c.initial_threshold = 1_000_001;
    assert_eq!(c.validate(), Err(ConfigError::InvalidThreshold));
    let mut c = base;
    c.threshold_learning_rate = 1_000_001;
    assert_eq!(c.validate(), Err(ConfigError::InvalidThresholdLearningRate));
    let mut c = base;
    c.target_absorption_rate = 1_000_001;
    assert_eq!(c.validate(), Err(ConfigError::InvalidTargetAbsorptionRate));
    let mut c = base;
    c.optimization_interval = 0;
    assert_eq!(c.validate(), Err(ConfigError::InvalidOptimizationInterval));
    let mut c = base;
    c.merge_fidelity_threshold = 1_000_001;
    assert_eq!(c.validate(), Err(ConfigError::InvalidMergeFidelityThreshold));
    let mut c = base;
    c.classical_weight = 1_000_001;
    assert_eq!(c.validate(), Err(ConfigError::InvalidScoringWeight));
    let mut c = base;
    c.flood_weight = 1_000_001;
    assert_eq!(c.validate(), Err(ConfigError::InvalidFloodWeight));
    let mut c = base;
    c.stability_tolerance = 1_000_001;
    assert_eq!(c.validate(), Err(ConfigError::InvalidThreshold));
    let mut c = base;
    c.initial_threshold = 1_000_000;
    c.learning_rate_alpha = 0;
    assert_eq!(c.validate(), Ok(()));
}

#[test]
fn settings_defaults() {
    assert_eq!(default_bind_address(), "127.0.0.1");
    assert_eq!(default_cookie_path(), "/var/run/tor/control.authcookie");
    let service = ServiceSettings::default();
    assert_eq!(service.worker_threads, 4);
    let monitoring = MonitoringSettings::default();
    assert!(monitoring.enable_metrics);
    assert_eq!(monitoring.metrics_port, 9090);
    let performance = PerformanceSettings::default();
    assert_eq!(performance.max_tracked_circuits, 10_000);
    assert_eq!(performance.metadata_retention_secs, 3600);
}
