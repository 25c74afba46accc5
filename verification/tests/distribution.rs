use vdb_benchmarks::distribution::choice::{BoolDistribution, IdxChoiceDistribution};
use vdb_benchmarks::distribution::date;
use vdb_benchmarks::distribution::label::{FilterGenerator, Population};
use vdb_benchmarks::distribution::range::{parse_percentage, RangeDistributionBuilder};
use vdb_benchmarks::distribution::rng::RngBuilder;
use vdb_benchmarks::distribution::Distributions;
use vdb_benchmarks::error::{ConfigError, SampleError};

fn label_population(population: usize) -> Population {
    let weights: Vec<u64> = vec![1; population];
    let property_counts = IdxChoiceDistribution::new(&vec![1; 11]).unwrap();
    let filters = FilterGenerator {
        include_count_distribution: IdxChoiceDistribution::new(&vec![1; 3]).unwrap(),
        exclude_count_distribution: IdxChoiceDistribution::new(&vec![1; 3]).unwrap(),
    };
    Population::new(population, &weights, property_counts, filters).unwrap()
}

#[test]
fn unique_sampling_yields_exactly_n_distinct_labels() {
    let population = label_population(100);
    let mut rng = RngBuilder { seed: 7 }.build();
    for n in [0usize, 1, 10, 50] {
        let labels = population.sample_n_unique(n, &mut rng).unwrap();
        assert_eq!(labels.0.len(), n);
        for (i, a) in labels.0.iter().enumerate() {
            assert!((a.0 as usize) < 100);
            for b in &labels.0[i + 1..] {
                assert_ne!(a, b);
            }
        }
    }
}

#[test]
fn oversized_unique_sample_requests_are_rejected() {
    let population = label_population(100);
    let mut rng = RngBuilder { seed: 7 }.build();
    assert_eq!(
        population.sample_n_unique(51, &mut rng).unwrap_err(),
        SampleError::TooManyLabels
    );
    let big = label_population(10_000);
    assert_eq!(
        big.sample_n_unique(513, &mut rng).unwrap_err(),
        SampleError::TooManyLabels
    );
}

#[test]
fn population_construction_checks_its_budget() {
    let weights: Vec<u64> = vec![1; 10];
    let narrow = IdxChoiceDistribution::new(&vec![1; 2]).unwrap();
    let wide = IdxChoiceDistribution::new(&vec![1; 6]).unwrap();
    let filters = FilterGenerator {
        include_count_distribution: IdxChoiceDistribution::new(&vec![1; 2]).unwrap(),
        exclude_count_distribution: IdxChoiceDistribution::new(&vec![1; 2]).unwrap(),
    };
    assert!(matches!(
        Population::new(10, &weights, wide, filters),
        Err(ConfigError::SampleBudgetTooLarge)
    ));
    let filters = FilterGenerator {
        include_count_distribution: IdxChoiceDistribution::new(&vec![1; 2]).unwrap(),
        exclude_count_distribution: IdxChoiceDistribution::new(&vec![1; 2]).unwrap(),
    };
    assert!(Population::new(10, &weights, narrow, filters).is_ok());

    let empty: Vec<u64> = Vec::new();
    let counts = IdxChoiceDistribution::new(&vec![1; 2]).unwrap();
    let filters = FilterGenerator {
        include_count_distribution: IdxChoiceDistribution::new(&vec![1; 2]).unwrap(),
        exclude_count_distribution: IdxChoiceDistribution::new(&vec![1; 2]).unwrap(),
    };
    assert!(matches!(
        Population::new(0, &empty, counts, filters),
        Err(ConfigError::InvalidWeights)
    ));
    let counts = IdxChoiceDistribution::new(&vec![1; 2]).unwrap();
    let filters = FilterGenerator {
        include_count_distribution: IdxChoiceDistribution::new(&vec![1; 2]).unwrap(),
        exclude_count_distribution: IdxChoiceDistribution::new(&vec![1; 2]).unwrap(),
    };
    assert!(matches!(
        Population::new(2_000_000, &vec![1; 10], counts, filters),
        Err(ConfigError::PopulationTooLarge)
    ));
}

#[test]
fn weight_tables_must_be_non_empty_with_a_positive_total() {
    let empty: Vec<u64> = Vec::new();
    assert!(matches!(
        IdxChoiceDistribution::new(&empty),
        Err(ConfigError::InvalidWeights)
    ));
    assert!(matches!(
        IdxChoiceDistribution::new(&vec![0, 0, 0]),
        Err(ConfigError::InvalidWeights)
    ));
    let d = IdxChoiceDistribution::new(&vec![0, 0, 7]).unwrap();
    assert_eq!(d.nr_choices(), 3);
    // only the last index carries weight, so every draw returns it
    let mut rng = RngBuilder { seed: 2 }.build();
    for _ in 0..30 {
        assert_eq!(d.sample(&mut rng), 2);
    }
}

#[test]
fn weighted_draws_respect_the_weights() {
    // only the last label carries weight: every draw must return it
    let mut weights: Vec<u64> = vec![0; 100];
    weights[99] = 1;
    let property_counts = IdxChoiceDistribution::new(&vec![1; 2]).unwrap();
    let filters = FilterGenerator {
        include_count_distribution: IdxChoiceDistribution::new(&vec![1; 2]).unwrap(),
        exclude_count_distribution: IdxChoiceDistribution::new(&vec![1; 2]).unwrap(),
    };
    let population = Population::new(100, &weights, property_counts, filters).unwrap();
    let mut rng = RngBuilder { seed: 3 }.build();
    for _ in 0..50 {
        assert_eq!(population.sample_label(&mut rng).0, 99);
    }
}

#[test]
fn label_filters_never_share_a_label() {
    let population = label_population(40);
    let mut rng = RngBuilder { seed: 11 }.build();
    for _ in 0..200 {
        let filter = population.sample_filter(&mut rng).unwrap();
        for a in &filter.included.0 {
            for b in &filter.excluded.0 {
                assert_ne!(a, b);
            }
        }
    }
}

#[test]
fn certain_coins_are_certain() {
    let always = BoolDistribution::new(1, 1).unwrap();
    let never = BoolDistribution::new(0, 1).unwrap();
    let mut rng = RngBuilder { seed: 5 }.build();
    for _ in 0..100 {
        assert!(always.sample(&mut rng));
        assert!(!never.sample(&mut rng));
    }
    assert!(matches!(
        BoolDistribution::new(3, 2),
        Err(ConfigError::InvalidProbability)
    ));
    assert!(matches!(
        BoolDistribution::new(1, 0),
        Err(ConfigError::InvalidProbability)
    ));
}

#[test]
fn percentage_parsing_accepts_and_rejects() {
    let p = parse_percentage("10%").unwrap();
    assert_eq!((p.num(), p.den()), (10, 100));
    assert_eq!(p.num() as f64 / p.den() as f64, 0.10);
    assert_eq!(
        parse_percentage("101%").unwrap_err(),
        ConfigError::InvalidPercentage
    );
    assert_eq!(
        parse_percentage("-1%").unwrap_err(),
        ConfigError::InvalidPercentage
    );
    assert_eq!(
        parse_percentage("abc").unwrap_err(),
        ConfigError::InvalidPercentage
    );
    let p = parse_percentage("100%").unwrap();
    assert_eq!((p.num(), p.den()), (100, 100));
    let p = parse_percentage("7.5%").unwrap();
    assert_eq!((p.num(), p.den()), (75, 1000));
    assert!(parse_percentage("100.5%").is_err());
    assert!(parse_percentage("%").is_err());
}

fn date_population(
    lower_coin: (u32, u32),
    upper_coin: (u32, u32),
    builder: fn() -> RangeDistributionBuilder,
) -> date::Population {
    date::Population::new(
        0,
        1_000_000,
        builder(),
        BoolDistribution::new(lower_coin.0, lower_coin.1).unwrap(),
        BoolDistribution::new(upper_coin.0, upper_coin.1).unwrap(),
        builder(),
        builder(),
    )
    .unwrap()
}

#[test]
fn date_filters_keep_their_bounds_ordered() {
    let uniform = date_population((1, 1), (1, 1), || RangeDistributionBuilder::Uniform);
    let mut rng = RngBuilder { seed: 13 }.build();
    for _ in 0..300 {
        let filter = uniform.sample_filter(&mut rng);
        let lower = filter.lower_bound.unwrap();
        let upper = filter.upper_bound.unwrap();
        assert!(lower <= upper);
        assert!(upper <= 1_000_000);
    }
    let bell = date_population((1, 1), (1, 1), || RangeDistributionBuilder::Normal {
        mean: parse_percentage("50%").unwrap(),
        std: parse_percentage("10%").unwrap(),
    });
    for _ in 0..300 {
        let filter = bell.sample_filter(&mut rng);
        let lower = filter.lower_bound.unwrap();
        let upper = filter.upper_bound.unwrap();
        assert!(lower <= upper);
        assert!(upper <= 1_000_000);
    }
    let never = date_population((0, 1), (0, 1), || RangeDistributionBuilder::Uniform);
    let filter = never.sample_filter(&mut rng);
    assert_eq!(filter.lower_bound, None);
    assert_eq!(filter.upper_bound, None);
}

#[test]
fn date_population_rejects_bad_bounds() {
    let r = date::Population::new(
        -5,
        1000,
        RangeDistributionBuilder::Uniform,
        BoolDistribution::new(1, 2).unwrap(),
        BoolDistribution::new(1, 2).unwrap(),
        RangeDistributionBuilder::Uniform,
        RangeDistributionBuilder::Uniform,
    );
    assert!(matches!(r, Err(ConfigError::InvalidDateBounds)));
    let r = date::Population::new(
        1000,
        1000,
        RangeDistributionBuilder::Uniform,
        BoolDistribution::new(1, 2).unwrap(),
        BoolDistribution::new(1, 2).unwrap(),
        RangeDistributionBuilder::Uniform,
        RangeDistributionBuilder::Uniform,
    );
    assert!(matches!(r, Err(ConfigError::InvalidDateBounds)));
}

fn build_distributions(seed: u64) -> Distributions {
    let date = date_population((1, 2), (1, 2), || RangeDistributionBuilder::Uniform);
    let authors = label_population(50);
    let tags = label_population(60);
    Distributions::new(RngBuilder { seed }, date, authors, tags)
}

#[test]
fn payload_generation_is_reproducible_for_one_seed() {
    let first = build_distributions(42);
    let second = build_distributions(42);
    let mut rng_a = first.create_rng();
    let mut rng_b = second.create_rng();
    for _ in 0..20 {
        let a = first.sample_document_payload(&mut rng_a).unwrap();
        let b = second.sample_document_payload(&mut rng_b).unwrap();
        assert_eq!(a.publication_date, b.publication_date);
        assert_eq!(a.authors.0, b.authors.0);
        assert_eq!(a.tags.0, b.tags.0);
        assert_eq!(a.link, b.link);
        assert_eq!(a.link.len(), 32);
        let qa = first.sample_query_payload(&mut rng_a).unwrap();
        let qb = second.sample_query_payload(&mut rng_b).unwrap();
        assert_eq!(qa.publication_date, qb.publication_date);
        assert_eq!(qa.authors.included.0, qb.authors.included.0);
        assert_eq!(qa.authors.excluded.0, qb.authors.excluded.0);
        assert_eq!(qa.tags.included.0, qb.tags.included.0);
        assert_eq!(qa.tags.excluded.0, qb.tags.excluded.0);
    }
}

#[test]
fn degenerate_uniform_range_pins_the_date() {
    let narrow = date::Population::new(
        3661,
        3662,
        RangeDistributionBuilder::Uniform,
        BoolDistribution::new(1, 1).unwrap(),
        BoolDistribution::new(1, 1).unwrap(),
        RangeDistributionBuilder::Uniform,
        RangeDistributionBuilder::Uniform,
    )
    .unwrap();
    let mut rng = RngBuilder { seed: 1 }.build();
    for _ in 0..20 {
        let d = narrow.sample_date(&mut rng);
        assert!((3661..=3662).contains(&d));
    }
}
