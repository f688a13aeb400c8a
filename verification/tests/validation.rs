use dispersion::{compute, DispersionError, Distribution, PartObservation};

fn observations(pairs: &[(i32, i32)]) -> Vec<PartObservation> {
    pairs.iter().map(|&(frequency, size)| PartObservation::new(frequency, size)).collect()
}

#[test]
fn new_keeps_what_it_is_given() {
    let p = PartObservation::new(-7, 0);
    assert_eq!(p.frequency, -7);
    assert_eq!(p.size, 0);
    assert_eq!(p, PartObservation { frequency: -7, size: 0 });
}

#[test]
fn validity_of_one_observation() {
    assert!(PartObservation::new(0, 1).is_valid());
    assert!(PartObservation::new(10, 100).is_valid());
    assert!(PartObservation::new(i32::MAX, i32::MAX).is_valid());
    assert!(!PartObservation::new(-1, 100).is_valid());
    assert!(!PartObservation::new(0, 0).is_valid());
    assert!(!PartObservation::new(5, -3).is_valid());
    assert!(!PartObservation::new(i32::MIN, i32::MIN).is_valid());
}

#[test]
fn frequency_may_exceed_size() {
    assert!(PartObservation::new(50, 10).is_valid());
    let profile = compute(&observations(&[(50, 10), (5, 10)])).unwrap();
    assert_eq!(profile.range, 2);
    assert_eq!(profile.context.total_frequency, 55);
    assert_eq!(profile.context.total_size, 20);
}

#[test]
fn zero_size_is_invalid_input() {
    assert_eq!(compute(&observations(&[(0, 0)])), Err(DispersionError::InvalidInput));
}

#[test]
fn negative_size_is_invalid_input() {
    assert_eq!(compute(&observations(&[(1, -5)])), Err(DispersionError::InvalidInput));
}

#[test]
fn one_invalid_part_refuses_the_whole() {
    for position in 0..4 {
        let mut pairs = vec![(3, 10), (1, 30), (0, 60), (2, 5)];
        pairs[position] = (-2, 10);
        assert_eq!(compute(&observations(&pairs)), Err(DispersionError::InvalidInput));
        pairs[position] = (2, 0);
        assert_eq!(compute(&observations(&pairs)), Err(DispersionError::InvalidInput));
    }
}

#[test]
fn distribution_is_refused_like_the_computation() {
    assert!(matches!(
        Distribution::new(&observations(&[(1, 10), (-1, 10)])),
        Err(DispersionError::InvalidInput)
    ));
    assert!(Distribution::new(&observations(&[(1, 10), (0, 10)])).is_ok());
    assert!(Distribution::new(&[]).is_ok());
}

#[test]
fn distribution_keeps_the_parts_in_order() {
    let given = observations(&[(3, 10), (1, 30), (0, 60)]);
    let distribution = Distribution::new(&given).unwrap();
    assert_eq!(distribution.len(), 3);
    assert_eq!(distribution.parts(), &given[..]);
}

#[test]
fn context_sums_the_parts() {
    let given = observations(&[(3, 10), (1, 30), (0, 60)]);
    let context = Distribution::new(&given).unwrap().context();
    assert_eq!(context.total_frequency, 4);
    assert_eq!(context.total_size, 100);
    assert_eq!(context.num_parts, 3);
}

#[test]
fn context_of_the_largest_observations() {
    let given = observations(&[(i32::MAX, i32::MAX); 3]);
    let context = Distribution::new(&given).unwrap().context();
    assert_eq!(context.total_frequency, 6_442_450_941);
    assert_eq!(context.total_size, 6_442_450_941);
    assert_eq!(context.num_parts, 3);
}

#[test]
fn range_counts_the_parts_with_occurrences() {
    let given = observations(&[(3, 10), (0, 30), (1, 60), (0, 1), (7, 2)]);
    assert_eq!(Distribution::new(&given).unwrap().range(), 3);
    assert_eq!(Distribution::new(&[]).unwrap().range(), 0);
    let none = observations(&[(0, 10), (0, 30)]);
    assert_eq!(Distribution::new(&none).unwrap().range(), 0);
}
