use continuum_golf::venue::{clamp_handicap, handicap_bucket, hole_column, multiplier_histogram};

#[test]
fn test_build_payout_distribution() {
    let multipliers = [0.0_f64, 5.5, 12.0];
    let wholes: Vec<u64> = multipliers.iter().map(|m| m.floor() as u64).collect();

    let dist = multiplier_histogram(&wholes);

    assert_eq!(dist[0], 1);
    assert_eq!(dist[5], 1);
    assert_eq!(dist[10], 1);
}

#[test]
fn histogram_has_eleven_bins_and_counts_every_shot() {
    let wholes: Vec<u64> = vec![0, 0, 1, 9, 10, 11, 250, 3];
    let dist = multiplier_histogram(&wholes);
    assert_eq!(dist.len(), 11);
    assert_eq!(dist, vec![2, 1, 0, 1, 0, 0, 0, 0, 0, 1, 3]);
    assert_eq!(dist.iter().sum::<usize>(), wholes.len());
    assert_eq!(multiplier_histogram(&vec![]), vec![0; 11]);
}

#[test]
fn handicap_buckets() {
    assert_eq!(handicap_bucket(0), 0);
    assert_eq!(handicap_bucket(4), 0);
    assert_eq!(handicap_bucket(5), 1);
    assert_eq!(handicap_bucket(14), 2);
    assert_eq!(handicap_bucket(19), 3);
    assert_eq!(handicap_bucket(24), 4);
    assert_eq!(handicap_bucket(25), 5);
    assert_eq!(handicap_bucket(30), 5);
    assert_eq!(handicap_bucket(200), 5);
}

#[test]
fn hole_columns() {
    assert_eq!(hole_column(1), Some(0));
    assert_eq!(hole_column(8), Some(7));
    assert_eq!(hole_column(0), None);
    assert_eq!(hole_column(9), None);
}

#[test]
fn drawn_handicaps_are_clamped() {
    assert_eq!(clamp_handicap(-3), 0);
    assert_eq!(clamp_handicap(0), 0);
    assert_eq!(clamp_handicap(17), 17);
    assert_eq!(clamp_handicap(30), 30);
    assert_eq!(clamp_handicap(44), 30);
}
