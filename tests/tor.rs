use thronion::tor::{MetadataExtractor, TimingFeatures, TorCellType};

#[test]
fn test_timing_features_extraction() {
    let timings: Vec<u64> = vec![100, 150, 120, 180];

    let features = MetadataExtractor::extract_timing_features(&timings);
    assert!(features.mean_interval > 0);
    assert!(features.max_interval >= features.min_interval);
    // gaps 50, 30, 60
    assert_eq!(features.mean_interval, 46);
    assert_eq!(features.std_dev_interval, 12);
    assert_eq!(features.min_interval, 30);
    assert_eq!(features.max_interval, 60);
    assert_eq!(features.median_interval, 50);
}

#[test]
fn timing_median_of_even_count() {
    let timings: Vec<u64> = vec![0, 40, 50, 80, 100];
    let features = MetadataExtractor::extract_timing_features(&timings);
    // gaps 40, 10, 30, 20: middle two 20 and 30
    assert_eq!(features.median_interval, 25);
    assert_eq!(features.mean_interval, 25);
    assert_eq!(features.min_interval, 10);
    assert_eq!(features.max_interval, 40);
}

#[test]
fn test_timing_features_empty() {
    let timings: Vec<u64> = vec![];
    let features = MetadataExtractor::extract_timing_features(&timings);
    assert_eq!(features.mean_interval, 0);
    let single: Vec<u64> = vec![42];
    let features = MetadataExtractor::extract_timing_features(&single);
    assert_eq!(
        features,
        TimingFeatures {
            mean_interval: 0,
            std_dev_interval: 0,
            median_interval: 0,
            min_interval: 0,
            max_interval: 0
        }
    );
}

#[test]
fn timing_features_of_unordered_arrivals() {
    let timings: Vec<u64> = vec![10, 11, 10, 12];
    let features = MetadataExtractor::extract_timing_features(&timings);
    // gaps 1, 1, 2
    assert_eq!(features.mean_interval, 1);
    assert_eq!(features.min_interval, 1);
    assert_eq!(features.max_interval, 2);
    assert_eq!(features.std_dev_interval, 0);
    assert_eq!(features.median_interval, 1);
}

#[test]
fn test_cell_type_distribution() {
    let cell_types = vec![
        TorCellType::Data,
        TorCellType::Data,
        TorCellType::Introduce2,
        TorCellType::Padding,
        TorCellType::Data,
    ];

    let dist = MetadataExtractor::analyze_cell_types(&cell_types);
    assert_eq!(dist.data_ratio, 600_000);
    assert_eq!(dist.intro_ratio, 200_000);
    assert_eq!(dist.padding_ratio, 200_000);
    assert_eq!(dist.rendezvous_ratio, 0);
}

#[test]
fn test_cell_type_distribution_empty() {
    let cell_types: Vec<TorCellType> = vec![];
    let dist = MetadataExtractor::analyze_cell_types(&cell_types);
    assert_eq!(dist.data_ratio, 0);
}

#[test]
fn cell_type_distribution_rendezvous_and_other() {
    let cell_types = vec![
        TorCellType::Rendezvous1,
        TorCellType::Rendezvous2,
        TorCellType::Other,
    ];
    let dist = MetadataExtractor::analyze_cell_types(&cell_types);
    assert_eq!(dist.rendezvous_ratio, 666_666);
    assert_eq!(dist.other_ratio, 333_333);
}
