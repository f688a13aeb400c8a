use dispersion::{compute, CorpusContext, DispersionProfile, Metric, PartObservation};

const ALL_METRICS: [Metric; 15] = [
    Metric::SdPopulation,
    Metric::VcPopulation,
    Metric::JuillandD,
    Metric::CarrollD2,
    Metric::RoschengrenSAdj,
    Metric::Dp,
    Metric::DpNorm,
    Metric::KlDivergence,
    Metric::JsdDispersion,
    Metric::HellingerDispersion,
    Metric::MeanTextFrequencyFt,
    Metric::PervasivenessPt,
    Metric::EvennessDa,
    Metric::FtAdjustedByPt,
    Metric::FtAdjustedByDa,
];

fn profile_of(pairs: &[(i32, i32)]) -> DispersionProfile {
    let given: Vec<PartObservation> =
        pairs.iter().map(|&(frequency, size)| PartObservation::new(frequency, size)).collect();
    compute(&given).unwrap()
}

fn defined(profile: &DispersionProfile) -> Vec<Metric> {
    ALL_METRICS.iter().copied().filter(|&metric| profile.is_defined(metric)).collect()
}

#[test]
fn no_parts_define_nothing() {
    assert_eq!(defined(&profile_of(&[])), vec![]);
}

#[test]
fn one_part_without_occurrences() {
    assert_eq!(
        defined(&profile_of(&[(0, 100)])),
        vec![
            Metric::SdPopulation,
            Metric::MeanTextFrequencyFt,
            Metric::PervasivenessPt,
            Metric::FtAdjustedByPt,
        ]
    );
}

#[test]
fn one_part_with_occurrences() {
    assert_eq!(
        defined(&profile_of(&[(10, 100)])),
        vec![
            Metric::SdPopulation,
            Metric::RoschengrenSAdj,
            Metric::Dp,
            Metric::KlDivergence,
            Metric::JsdDispersion,
            Metric::HellingerDispersion,
            Metric::MeanTextFrequencyFt,
            Metric::PervasivenessPt,
            Metric::FtAdjustedByPt,
        ]
    );
}

#[test]
fn several_parts_without_occurrences() {
    assert_eq!(
        defined(&profile_of(&[(0, 100), (0, 50), (0, 7)])),
        vec![
            Metric::SdPopulation,
            Metric::MeanTextFrequencyFt,
            Metric::PervasivenessPt,
            Metric::FtAdjustedByPt,
        ]
    );
}

#[test]
fn several_parts_with_occurrences_define_everything() {
    assert_eq!(defined(&profile_of(&[(0, 100), (1, 50)])), ALL_METRICS.to_vec());
    assert_eq!(defined(&profile_of(&[(5, 100), (5, 100), (5, 100)])), ALL_METRICS.to_vec());
}

#[test]
fn one_undefined_metric_does_not_block_another() {
    let profile = profile_of(&[(10, 100)]);
    assert!(!profile.is_defined(Metric::VcPopulation));
    assert!(profile.is_defined(Metric::SdPopulation));
    assert!(!profile.is_defined(Metric::DpNorm));
    assert!(profile.is_defined(Metric::Dp));
    assert!(profile.dp.is_some());
    assert!(profile.dp_norm.is_none());
    assert!(!profile.is_defined(Metric::CarrollD2));
    assert!(profile.is_defined(Metric::KlDivergence));
}

#[test]
fn rational_metrics_are_present_exactly_where_defined() {
    let inputs: [&[(i32, i32)]; 6] = [
        &[],
        &[(0, 100)],
        &[(10, 100)],
        &[(0, 100), (0, 50)],
        &[(7, 100), (0, 50)],
        &[(3, 10), (1, 30), (0, 60)],
    ];
    for pairs in inputs {
        let profile = profile_of(pairs);
        assert_eq!(
            profile.pervasiveness_pt.is_some(),
            profile.is_defined(Metric::PervasivenessPt)
        );
        assert_eq!(profile.dp.is_some(), profile.is_defined(Metric::Dp));
        assert_eq!(profile.dp_norm.is_some(), profile.is_defined(Metric::DpNorm));
    }
}

#[test]
fn definedness_is_chained() {
    let contexts = [
        CorpusContext { total_frequency: 0, total_size: 0, num_parts: 0 },
        CorpusContext { total_frequency: 0, total_size: 100, num_parts: 1 },
        CorpusContext { total_frequency: 10, total_size: 100, num_parts: 1 },
        CorpusContext { total_frequency: 0, total_size: 100, num_parts: 2 },
        CorpusContext { total_frequency: 10, total_size: 100, num_parts: 2 },
        CorpusContext { total_frequency: 10, total_size: 100, num_parts: 40 },
    ];
    for context in contexts {
        assert_eq!(
            context.is_defined(Metric::JuillandD),
            context.num_parts >= 2 && context.is_defined(Metric::VcPopulation)
        );
        assert!(!context.is_defined(Metric::DpNorm) || context.is_defined(Metric::Dp));
        assert_eq!(
            context.is_defined(Metric::FtAdjustedByPt),
            context.is_defined(Metric::MeanTextFrequencyFt)
                && context.is_defined(Metric::PervasivenessPt)
        );
        assert_eq!(
            context.is_defined(Metric::FtAdjustedByDa),
            context.is_defined(Metric::MeanTextFrequencyFt)
                && context.is_defined(Metric::EvennessDa)
        );
    }
}

#[test]
fn context_alone_decides() {
    let context = CorpusContext { total_frequency: 4, total_size: 100, num_parts: 3 };
    for metric in ALL_METRICS {
        assert!(context.is_defined(metric), "{:?}", metric);
    }
    let context = CorpusContext { total_frequency: 4, total_size: 100, num_parts: 1 };
    assert!(!context.is_defined(Metric::EvennessDa));
    assert!(!context.is_defined(Metric::FtAdjustedByDa));
    assert!(context.is_defined(Metric::HellingerDispersion));
}
