use heimdall::histogram::{degenerate_histogram_counts, histogram_counts};

/// Classify raw values the way the sampling shell does before the verified
/// counting: skip values matching the nodata sentinel or outside [min, max],
/// and compute the raw (unclamped) bin index of the rest.
fn classify(
    values: &[f64],
    min: f64,
    max: f64,
    bin_count: usize,
    nodata: Option<f64>,
) -> Vec<Option<usize>> {
    values
        .iter()
        .map(|&value| {
            if let Some(nd) = nodata {
                if (value - nd).abs() < 1e-10 {
                    return None;
                }
            }
            if value >= min && value <= max {
                Some(((value - min) / (max - min) * (bin_count - 1) as f64).floor() as usize)
            } else {
                None
            }
        })
        .collect()
}

fn valid_count(values: &[f64], nodata: Option<f64>) -> u64 {
    match nodata {
        Some(nd) => values.iter().filter(|&&v| (v - nd).abs() >= 1e-10).count() as u64,
        None => values.len() as u64,
    }
}

#[test]
fn test_histogram_bins_uniform_distribution() {
    let values: Vec<f64> = (0..100).map(|i| i as f64).collect();
    let counts = histogram_counts(&classify(&values, 0.0, 99.0, 10, None), 10);

    assert_eq!(counts.len(), 10);

    // Each bin should have roughly 10 values
    let total: u64 = counts.iter().sum();
    assert_eq!(total, 100);
}

#[test]
fn test_histogram_bins_all_same_value() {
    let values = vec![42.0; 100];
    // When range is 0, all values go in first bin
    let counts = degenerate_histogram_counts(valid_count(&values, None), 10);

    assert_eq!(counts[0], 100);
    for i in 1..10 {
        assert_eq!(counts[i], 0);
    }
}

#[test]
fn test_histogram_bins_with_nodata() {
    let values = vec![1.0, 2.0, -9999.0, 3.0, -9999.0, 4.0, 5.0];
    let counts = histogram_counts(&classify(&values, 1.0, 5.0, 5, Some(-9999.0)), 5);

    // Should only count 5 valid values (skip 2 nodata)
    let total: u64 = counts.iter().sum();
    assert_eq!(total, 5);
}

#[test]
fn test_histogram_bins_values_outside_range() {
    let values = vec![-10.0, 0.0, 5.0, 10.0, 100.0];
    let counts = histogram_counts(&classify(&values, 0.0, 10.0, 10, None), 10);

    // Only values 0, 5, 10 are within range
    let total: u64 = counts.iter().sum();
    assert_eq!(total, 3);
}

#[test]
fn test_histogram_bins_single_value() {
    let values = vec![5.0];
    let counts = histogram_counts(&classify(&values, 0.0, 10.0, 10, None), 10);

    let total: u64 = counts.iter().sum();
    assert_eq!(total, 1);

    // 5.0 should be in the middle bin (bin 4 or 5 depending on rounding)
    let non_zero_bins: Vec<_> = counts.iter().enumerate().filter(|(_, &c)| c > 0).collect();
    assert_eq!(non_zero_bins.len(), 1);
}

#[test]
fn test_histogram_bins_min_max_edge_values() {
    let values = vec![0.0, 10.0];
    let counts = histogram_counts(&classify(&values, 0.0, 10.0, 10, None), 10);

    // Min value should be in first bin
    assert!(counts[0] > 0);
    // Max value should be in last bin
    assert!(counts[9] > 0);

    let total: u64 = counts.iter().sum();
    assert_eq!(total, 2);
}

#[test]
fn test_histogram_bin_edges_count() {
    let values = vec![0.0, 5.0, 10.0];
    let counts = histogram_counts(&classify(&values, 0.0, 10.0, 256, None), 256);

    // Should have bin_count bins
    assert_eq!(counts.len(), 256);
}

#[test]
fn test_histogram_empty_values() {
    let values: Vec<f64> = vec![];
    let counts = histogram_counts(&classify(&values, 0.0, 10.0, 10, None), 10);

    let total: u64 = counts.iter().sum();
    assert_eq!(total, 0);
}

#[test]
fn test_histogram_all_nodata() {
    let values = vec![-9999.0; 10];
    let counts = histogram_counts(&classify(&values, 0.0, 10.0, 10, Some(-9999.0)), 10);

    let total: u64 = counts.iter().sum();
    assert_eq!(total, 0);
}

#[test]
fn test_histogram_raw_index_clamps_to_last_bin() {
    // A raw index at or beyond the bin count lands in the last bin.
    let classes = vec![Some(0usize), Some(7), Some(8), Some(250)];
    let counts = histogram_counts(&classes, 8);
    assert_eq!(counts[0], 1);
    assert_eq!(counts[7], 3);
    let total: u64 = counts.iter().sum();
    assert_eq!(total, 4);
}

#[test]
fn test_histogram_exact_uniform_bins() {
    // 100 values over ten bins of width ten: bins 0..9 get 11, 11, ...
    // following the floor((v-min)/range*(binCount-1)) rule.
    let values: Vec<f64> = (0..100).map(|i| i as f64).collect();
    let counts = histogram_counts(&classify(&values, 0.0, 99.0, 10, None), 10);
    // floor(v/99*9): v in 0..=10 gives 0 (11 values), ..., v == 99 gives 9.
    assert_eq!(counts[0], 11);
    assert_eq!(counts[9], 1);
}
