use dispersion::{compute, Distribution, PartObservation, Ratio, Shares};

fn observations(pairs: &[(i32, i32)]) -> Vec<PartObservation> {
    pairs.iter().map(|&(frequency, size)| PartObservation::new(frequency, size)).collect()
}

#[test]
fn shares_over_the_common_denominator() {
    // totals: frequency 4, size 100
    let given = observations(&[(3, 10), (1, 30), (0, 60)]);
    let distribution = Distribution::new(&given).unwrap();
    assert_eq!(distribution.shares(0), Some(Shares { observed: 300, expected: 40 }));
    assert_eq!(distribution.shares(1), Some(Shares { observed: 100, expected: 120 }));
    assert_eq!(distribution.shares(2), Some(Shares { observed: 0, expected: 240 }));
    assert_eq!(distribution.shares(3), None);
    assert_eq!(distribution.shares(usize::MAX), None);
}

#[test]
fn shares_of_no_part() {
    assert_eq!(Distribution::new(&[]).unwrap().shares(0), None);
}

#[test]
fn shares_sum_to_the_whole() {
    let given = observations(&[(3, 10), (1, 30), (0, 60), (12, 7), (5, 5)]);
    let distribution = Distribution::new(&given).unwrap();
    let context = distribution.context();
    let whole = u128::from(context.total_frequency) * u128::from(context.total_size);
    let mut observed = 0;
    let mut expected = 0;
    for index in 0..distribution.len() {
        let shares = distribution.shares(index).unwrap();
        observed += shares.observed;
        expected += shares.expected;
    }
    assert_eq!(observed, whole);
    assert_eq!(expected, whole);
}

#[test]
fn smallest_size_is_the_least() {
    let given = observations(&[(3, 10), (1, 30), (0, 60)]);
    assert_eq!(Distribution::new(&given).unwrap().smallest_size(), Some(10));
    let given = observations(&[(3, 40), (1, 30), (0, 7), (0, 60)]);
    assert_eq!(Distribution::new(&given).unwrap().smallest_size(), Some(7));
    let given = observations(&[(3, 40), (1, 30), (0, 70), (0, 6)]);
    assert_eq!(Distribution::new(&given).unwrap().smallest_size(), Some(6));
    let given = observations(&[(3, 40)]);
    assert_eq!(Distribution::new(&given).unwrap().smallest_size(), Some(40));
    assert_eq!(Distribution::new(&[]).unwrap().smallest_size(), None);
}

#[test]
fn deviation_sum_adds_the_distances() {
    // distances: |300 - 40| + |100 - 120| + |0 - 240|
    let given = observations(&[(3, 10), (1, 30), (0, 60)]);
    assert_eq!(Distribution::new(&given).unwrap().deviation_sum(), 520);
    assert_eq!(Distribution::new(&[]).unwrap().deviation_sum(), 0);
}

#[test]
fn dp_is_half_the_deviation() {
    // 520 / (2 * 4 * 100) = 0.65
    let given = observations(&[(3, 10), (1, 30), (0, 60)]);
    let dp = Distribution::new(&given).unwrap().dp().unwrap();
    assert_eq!(dp, Ratio { numerator: 520, denominator: 800 });
    assert_eq!(dp.numerator * 100, dp.denominator * 65);
}

#[test]
fn dp_norm_divides_by_the_largest_deviation() {
    // 520 / (2 * 4 * (100 - 10)) = 0.65 / 0.9
    let given = observations(&[(3, 10), (1, 30), (0, 60)]);
    let dp_norm = Distribution::new(&given).unwrap().dp_norm().unwrap();
    assert_eq!(dp_norm, Ratio { numerator: 520, denominator: 720 });
    assert_eq!(dp_norm.numerator * 90, dp_norm.denominator * 65);
}

#[test]
fn dp_with_more_occurrences_than_tokens() {
    // shares 10/11 and 1/11 against 1/2 and 1/2
    let given = observations(&[(50, 10), (5, 10)]);
    let dp = Distribution::new(&given).unwrap().dp().unwrap();
    assert_eq!(dp, Ratio { numerator: 900, denominator: 2200 });
    assert_eq!(dp.numerator * 22, dp.denominator * 9);
}

#[test]
fn dp_of_a_unit_that_occurs_nowhere_is_absent() {
    let given = observations(&[(0, 10), (0, 30)]);
    let distribution = Distribution::new(&given).unwrap();
    assert_eq!(distribution.dp(), None);
    assert_eq!(distribution.dp_norm(), None);
}

#[test]
fn dp_norm_of_one_part_is_absent_and_dp_is_zero() {
    let given = observations(&[(10, 100)]);
    let distribution = Distribution::new(&given).unwrap();
    assert_eq!(distribution.dp(), Some(Ratio { numerator: 0, denominator: 2000 }));
    assert_eq!(distribution.dp_norm(), None);
}

#[test]
fn pervasiveness_is_range_over_parts() {
    let given = observations(&[(3, 10), (1, 30), (0, 60)]);
    let distribution = Distribution::new(&given).unwrap();
    assert_eq!(distribution.pervasiveness_pt(), Some(Ratio { numerator: 2, denominator: 3 }));
    let none = observations(&[(0, 10), (0, 30)]);
    let distribution = Distribution::new(&none).unwrap();
    assert_eq!(distribution.pervasiveness_pt(), Some(Ratio { numerator: 0, denominator: 2 }));
    assert_eq!(Distribution::new(&[]).unwrap().pervasiveness_pt(), None);
}

#[test]
fn absent_is_not_zero() {
    let given = observations(&[(0, 10), (0, 30)]);
    let profile = compute(&given).unwrap();
    assert!(profile.pervasiveness_pt.unwrap().is_zero());
    assert!(profile.dp.is_none());
    let even = observations(&[(1, 10), (3, 30)]);
    let profile = compute(&even).unwrap();
    assert!(profile.dp.unwrap().is_zero());
    assert!(profile.dp_norm.unwrap().is_zero());
    assert!(!profile.pervasiveness_pt.unwrap().is_zero());
}

#[test]
fn ratio_zero_and_one() {
    assert!(Ratio { numerator: 0, denominator: 5 }.is_zero());
    assert!(!Ratio { numerator: 1, denominator: 5 }.is_zero());
    assert!(Ratio { numerator: 5, denominator: 5 }.is_one());
    assert!(!Ratio { numerator: 4, denominator: 5 }.is_one());
    assert!(!Ratio { numerator: 0, denominator: 5 }.is_one());
}

#[test]
fn largest_observations_do_not_overflow() {
    let given = observations(&[(i32::MAX, i32::MAX), (i32::MAX, 1), (0, i32::MAX)]);
    let distribution = Distribution::new(&given).unwrap();
    let max = i32::MAX as u128;
    // totals: frequency 2 * max, size 2 * max + 1
    let frequencies = 2 * max;
    let sizes = 2 * max + 1;
    assert_eq!(
        distribution.shares(0),
        Some(Shares { observed: max * sizes, expected: max * frequencies })
    );
    let deviations = max + (max * sizes - frequencies) + max * frequencies;
    assert_eq!(distribution.deviation_sum(), deviations);
    assert_eq!(
        distribution.dp(),
        Some(Ratio { numerator: deviations, denominator: 2 * frequencies * sizes })
    );
    assert_eq!(
        distribution.dp_norm(),
        Some(Ratio { numerator: deviations, denominator: 2 * frequencies * (sizes - 1) })
    );
}

#[test]
fn profile_gathers_the_metrics() {
    let given = observations(&[(3, 10), (1, 30), (0, 60)]);
    let distribution = Distribution::new(&given).unwrap();
    let profile = distribution.profile();
    assert_eq!(profile.range, distribution.range());
    assert_eq!(profile.context, distribution.context());
    assert_eq!(profile.pervasiveness_pt, distribution.pervasiveness_pt());
    assert_eq!(profile.dp, distribution.dp());
    assert_eq!(profile.dp_norm, distribution.dp_norm());
    assert_eq!(compute(&given), Ok(profile));
}
