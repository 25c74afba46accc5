use vdb_benchmarks::math::StreamingStat;
use vdb_benchmarks::stats::calculate_stats;

/// The streaming aggregate matches the closed-form double-precision
/// mean and standard deviations for `[1.2, 3.2, 12.3]`, held in tenths.
#[test]
fn streaming_stat_matches_closed_form() {
    let mut stat = StreamingStat::new();
    for value in [12u64, 32, 123] {
        stat.update(value);
    }
    let (sum, count) = stat.mean_parts();
    let mean = sum as f64 / (count as f64 * 10.0);
    assert!((mean - 5.566666666666667).abs() < 1e-9);

    let (var_num, var_den) = stat.variance_parts();
    assert_eq!((var_num, var_den), (21002, 9));
    let std = (var_num as f64 / (var_den as f64 * 100.0)).sqrt();
    assert!((std - 4.830688931773144).abs() < 1e-9);

    let (svar_num, svar_den) = stat.sample_variance_parts();
    assert_eq!((svar_num, svar_den), (21002, 6));
    let sample_std = (svar_num as f64 / (svar_den as f64 * 100.0)).sqrt();
    assert!((sample_std - 5.916361494477272).abs() < 1e-9);
}

#[test]
fn single_sample_statistics() {
    let mut stat = StreamingStat::new();
    stat.update(7);
    assert_eq!(stat.count(), 1);
    assert_eq!(stat.mean_parts(), (7, 1));
    assert_eq!(stat.variance_parts(), (0, 1));
}

/// Eight of ten returned hits correct out of ten returned gives recall
/// and precision of 0.8; hits disjoint from the truth give zero.
#[test]
fn recall_and_precision_of_partial_overlap() {
    let truth: Vec<Vec<u64>> = vec![(1u64..=10).collect(), (1u64..=10).collect()];
    let hits: Vec<u64> = vec![1, 2, 3, 4, 5, 6, 7, 8, 97, 98];
    let disjoint: Vec<u64> = (101u64..=110).collect();
    let data: Vec<(u64, Vec<u64>)> = vec![(0, hits), (1, disjoint)];
    let rp = calculate_stats(&data, &truth, 10).expect("well-formed recall data");

    let (recall_sum, recall_count) = rp.recall.mean_parts();
    assert_eq!(recall_count, 2);
    let recall_mean = recall_sum as f64 / (recall_count as f64 * 1e6);
    assert_eq!(recall_mean, (0.8 + 0.0) / 2.0);

    let (precision_sum, precision_count) = rp.precision.mean_parts();
    assert_eq!(precision_count, 2);
    let precision_mean = precision_sum as f64 / (precision_count as f64 * 1e6);
    assert_eq!(precision_mean, (0.8 + 0.0) / 2.0);
}

/// A hit the backend repeats counts once: true positives are a set
/// intersection.
#[test]
fn repeated_hits_count_once() {
    let truth: Vec<Vec<u64>> = vec![(1u64..=10).collect()];
    let data: Vec<(u64, Vec<u64>)> = vec![(0, vec![1, 1, 1])];
    let rp = calculate_stats(&data, &truth, 10).unwrap();
    // one distinct correct hit out of three returned
    let (precision_sum, _) = rp.precision.mean_parts();
    assert_eq!(precision_sum, 1_000_000 / 3);
    let (recall_sum, _) = rp.recall.mean_parts();
    assert_eq!(recall_sum, 100_000);
}

#[test]
fn empty_hits_score_zero_precision() {
    let truth: Vec<Vec<u64>> = vec![(1u64..=10).collect()];
    let data: Vec<(u64, Vec<u64>)> = vec![(0, Vec::new())];
    let rp = calculate_stats(&data, &truth, 10).unwrap();
    assert_eq!(rp.precision.mean_parts(), (0, 1));
    assert_eq!(rp.recall.mean_parts(), (0, 1));
}

#[test]
fn recall_data_must_be_scorable() {
    let truth: Vec<Vec<u64>> = vec![vec![1, 2, 3]];
    let data: Vec<(u64, Vec<u64>)> = vec![(0, vec![1])];
    // a truth row shorter than the ten scored neighbors is refused
    assert!(calculate_stats(&data, &truth, 10).is_none());
    // an index with no truth row is refused
    let truth_ok: Vec<Vec<u64>> = vec![(1u64..=10).collect()];
    let bad: Vec<(u64, Vec<u64>)> = vec![(5, vec![1])];
    assert!(calculate_stats(&bad, &truth_ok, 10).is_none());
    // a zero expected-hit count is refused
    assert!(calculate_stats(&data, &truth_ok, 0).is_none());
}
