use benchlib::benching::{BenchVec, DurationDifference};
use benchlib::stats::isqrt;

fn series(samples: &[u64]) -> BenchVec {
    BenchVec::from_vec(&samples.to_vec())
}

#[test]
fn new_series_is_empty() {
    let empty = BenchVec::new();
    assert_eq!(empty.len(), 0);
    assert!(empty.inner.is_empty());
    assert_eq!(empty.sum(), 0);
}

#[test]
fn from_vec_copies_the_samples() {
    let samples = vec![3, 1, 2];
    let copy = BenchVec::from_vec(&samples);
    assert_eq!(copy.inner, vec![3, 1, 2]);
    assert_eq!(samples, vec![3, 1, 2]);
}

#[test]
fn push_appends_in_order() {
    let mut s = BenchVec::new();
    s.push(5).push(7).push(5);
    assert_eq!(s.inner, vec![5, 7, 5]);
    assert_eq!(s.len(), 3);
}

#[test]
fn append_concatenates_and_adds_the_totals() {
    let mut left = series(&[1, 2, 3]);
    let right = series(&[10, 20]);
    let right_total = right.sum();
    let left_total = left.sum();
    left.append(right.clone());
    assert_eq!(left.inner, vec![1, 2, 3, 10, 20]);
    assert_eq!(right.inner, vec![10, 20]);
    assert_eq!(left.sum(), left_total + right_total);
    left.append(BenchVec::new());
    assert_eq!(left.inner, vec![1, 2, 3, 10, 20]);
}

#[test]
fn clone_keeps_the_samples() {
    let s = series(&[4, 5, 6]);
    let copy = s.clone();
    assert_eq!(copy.inner, s.inner);
}

#[test]
fn sum_is_exact() {
    assert_eq!(series(&[1, 2, 3]).sum(), 6);
    assert_eq!(series(&[42]).sum(), 42);
    assert_eq!(series(&[0, 0, 0]).sum(), 0);
    assert_eq!(
        series(&[u64::MAX, u64::MAX, 1]).sum(),
        2 * (u64::MAX as u128) + 1
    );
    let many: Vec<u64> = (1..=100_000).collect();
    assert_eq!(BenchVec::from_vec(&many).sum(), 5_000_050_000);
}

#[test]
fn mean_of_an_empty_series_is_undefined() {
    assert_eq!(BenchVec::new().average(), None);
}

#[test]
fn mean_rounds_down() {
    assert_eq!(series(&[10]).average(), Some(10));
    assert_eq!(series(&[7, 8]).average(), Some(7));
    assert_eq!(series(&[1, 2, 3]).average(), Some(2));
    assert_eq!(series(&[0, 1, 0]).average(), Some(0));
    assert_eq!(series(&[u64::MAX, u64::MAX]).average(), Some(u64::MAX));
    assert_eq!(series(&[10_000_000, 12_000_000]).average(), Some(11_000_000));
}

#[test]
fn deviation_needs_two_samples() {
    assert_eq!(BenchVec::new().standard_deviation(), None);
    assert_eq!(series(&[5]).standard_deviation(), None);
    assert_eq!(BenchVec::new().relative_deviation(), None);
    assert_eq!(series(&[5]).relative_deviation(), None);
}

#[test]
fn deviation_is_the_root_of_total_over_degrees_of_freedom() {
    assert_eq!(series(&[10_000_000, 10_000_000]).standard_deviation(), Some(447_214));
    assert_eq!(series(&[1000, 2000, 3000]).standard_deviation(), Some(5477));
    assert_eq!(series(&[0, 0]).standard_deviation(), Some(0));
    assert_eq!(series(&[0, 1, 0]).standard_deviation(), Some(71));
    assert_eq!(series(&[7, 8]).standard_deviation(), Some(387));
    assert_eq!(series(&[1, 1, 1, 1]).standard_deviation(), Some(115));
    assert_eq!(
        series(&[u64::MAX, u64::MAX]).standard_deviation(),
        Some(607_400_099_995)
    );
}

#[test]
fn relative_deviation_is_a_share_of_the_mean() {
    assert_eq!(series(&[10_000_000, 10_000_000]).relative_deviation(), Some(4));
    assert_eq!(series(&[1000, 2000, 3000]).relative_deviation(), Some(274));
    assert_eq!(series(&[7, 8]).relative_deviation(), Some(5533));
    assert_eq!(series(&[1, 1, 1, 1]).relative_deviation(), Some(11_547));
    assert_eq!(series(&[u64::MAX, u64::MAX]).relative_deviation(), Some(0));
    assert_eq!(series(&[0, 0]).relative_deviation(), None);
    assert_eq!(series(&[0, 1, 0]).relative_deviation(), None);
}

#[test]
fn integer_statistics_agree_with_floating_point() {
    let cases: Vec<Vec<u64>> = vec![
        vec![10_000_000, 10_000_000],
        vec![1000, 2000, 3000],
        vec![12_000_000, 12_000_000, 12_000_000],
        vec![7, 8],
        vec![100, 200, 300, 400, 500, 600, 700, 800, 900, 1000],
        vec![30_000, 30_000, 30_000],
        vec![10_001, 10_001, 10_001],
        vec![123_456, 234_567, 345_678, 456_789],
    ];
    for samples in cases {
        let s = BenchVec::from_vec(&samples);
        let total: u64 = samples.iter().sum();
        let mean = total / samples.len() as u64;
        let deviation = (total as f64 / (samples.len() as f64 - 1f64)).sqrt();
        let share = deviation / mean as f64 * 100f64;
        let dev = s.standard_deviation().unwrap();
        let pct = s.relative_deviation().unwrap();
        assert_eq!(
            format!("{}.{:02}", dev / 100, dev % 100),
            format!("{:.2}", deviation)
        );
        assert_eq!(
            format!("{}.{:02}", pct / 100, pct % 100),
            format!("{:.2}", share)
        );
        assert_eq!(s.has_converged(), share / 100f64 < 0.01);
    }
}

#[test]
fn convergence_takes_two_samples_and_a_positive_mean() {
    assert!(!BenchVec::new().has_converged());
    assert!(!series(&[1_000_000_000]).has_converged());
    assert!(!series(&[0, 0]).has_converged());
    assert!(!series(&[0, 1, 0]).has_converged());
}

#[test]
fn convergence_is_dispersion_below_one_percent_of_the_mean() {
    assert!(series(&[20_001, 20_001]).has_converged());
    assert!(!series(&[20_000, 20_000]).has_converged());
    assert!(!series(&[20_000, 20_001]).has_converged());
    assert!(series(&[15_001, 15_001, 15_001]).has_converged());
    assert!(!series(&[15_000, 15_000, 15_000]).has_converged());
    assert!(!series(&[14_999, 14_999, 14_999]).has_converged());
    assert!(series(&[10_000_000, 10_000_000]).has_converged());
    assert!(series(&[u64::MAX, u64::MAX]).has_converged());
    assert!(!series(&[1000, 2000, 3000]).has_converged());
}

#[test]
fn an_adaptive_run_stops_at_the_first_converged_prefix() {
    let readings = [10_003u64, 10_001, 14_000, 16_000, 30_000, 40_000, 50_000];
    let mut s = BenchVec::new();
    let mut stopped_at = None;
    for (i, reading) in readings.iter().enumerate() {
        s.push(*reading);
        if s.has_converged() {
            stopped_at = Some(i + 1);
            break;
        }
    }
    assert_eq!(stopped_at, Some(5));
    assert_eq!(s.len(), 5);
}

#[test]
fn integer_square_root_rounds_down() {
    assert_eq!(isqrt(0), 0);
    assert_eq!(isqrt(1), 1);
    assert_eq!(isqrt(2), 1);
    assert_eq!(isqrt(3), 1);
    assert_eq!(isqrt(4), 2);
    assert_eq!(isqrt(99), 9);
    assert_eq!(isqrt(100), 10);
    assert_eq!(isqrt(80_000_000), 8944);
    assert_eq!(isqrt(u64::MAX as u128), 4_294_967_295);
    assert_eq!(isqrt((u64::MAX as u128) * (u64::MAX as u128)), u64::MAX);
    assert_eq!(isqrt((u64::MAX as u128) * (u64::MAX as u128) - 1), u64::MAX - 1);
    assert_eq!(isqrt(u128::MAX), u64::MAX);
}

#[test]
fn difference_of_ten_and_twelve_milliseconds() {
    let first = series(&[10_000_000, 10_000_000, 10_000_000]);
    let second = series(&[12_000_000, 12_000_000]);
    let diff = first.compare(second.clone()).unwrap();
    assert_eq!(diff.inner, 2_000_000);
    assert!(!diff.positive);
    assert_eq!(diff.to_text(), "-2ms");
    let diff = DurationDifference::new(&second, &first).unwrap();
    assert_eq!(diff.inner, 2_000_000);
    assert!(diff.positive);
    assert_eq!(diff.to_text(), "+2ms");
}

#[test]
fn equal_means_give_a_difference_that_is_not_positive() {
    let a = series(&[5, 5]);
    let b = series(&[4, 6, 5]);
    let diff = DurationDifference::new(&a, &b).unwrap();
    assert_eq!(diff.inner, 0);
    assert!(!diff.positive);
    assert_eq!(diff.to_text(), "-0ns");
}

#[test]
fn an_empty_series_has_no_difference_to_any_other() {
    let empty = BenchVec::new();
    let full = series(&[1, 2, 3]);
    assert!(DurationDifference::new(&empty, &full).is_none());
    assert!(DurationDifference::new(&full, &empty).is_none());
    assert!(DurationDifference::new(&empty, &empty).is_none());
    assert!(full.compare(BenchVec::new()).is_none());
    assert!(empty.compare(full.clone()).is_none());
}

#[test]
fn summary_of_a_series() {
    assert_eq!(
        series(&[10_000_000, 10_000_000]).to_text().unwrap(),
        "10ms (±4472.14ns ~ 0.04%)"
    );
    assert_eq!(
        series(&[1000, 2000, 3000]).to_text().unwrap(),
        "2µs (±54.77ns ~ 2.74%)"
    );
    assert_eq!(
        series(&[1500, 1500]).to_text().unwrap(),
        "1.5µs (±54.77ns ~ 3.65%)"
    );
}

#[test]
fn summary_agrees_with_floating_point_formatting() {
    let samples: Vec<u64> = vec![123_456, 234_567, 345_678, 456_789];
    let s = BenchVec::from_vec(&samples);
    let total: u64 = samples.iter().sum();
    let mean = std::time::Duration::from_nanos(total / 4);
    let deviation = (total as f64 / 3f64).sqrt();
    assert_eq!(
        s.to_text().unwrap(),
        format!(
            "{:?} (±{:.2}ns ~ {:.2}%)",
            mean,
            deviation,
            (deviation / mean.as_nanos() as f64) * 100f64
        )
    );
}

#[test]
fn summary_of_a_series_without_defined_statistics() {
    assert!(BenchVec::new().to_text().is_none());
    assert_eq!(series(&[5]).to_text().unwrap(), "5ns (±infns ~ inf%)");
    assert_eq!(series(&[0]).to_text().unwrap(), "0ns (±NaNns ~ NaN%)");
    assert_eq!(series(&[0, 0]).to_text().unwrap(), "0ns (±0.00ns ~ NaN%)");
    assert_eq!(series(&[0, 1, 0]).to_text().unwrap(), "0ns (±0.71ns ~ inf%)");
}

#[test]
fn record_of_a_series() {
    assert_eq!(
        series(&[10_000_000, 10_000_000]).to_record("closure").unwrap(),
        "closure\t10ms\t4472.14ns\n"
    );
    assert_eq!(series(&[5]).to_record("one").unwrap(), "one\t5ns\tinfns\n");
    assert_eq!(series(&[0]).to_record("").unwrap(), "\t0ns\tNaNns\n");
    assert!(BenchVec::new().to_record("none").is_none());
}
