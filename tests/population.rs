use genetic_basics::fitness::exact_digits;
use genetic_basics::population::{ChildrenPerPair, Config, Phenotype, Population};

fn ones_plus_one(genes: &Vec<u8>) -> u64 {
    genes.iter().filter(|g| **g == 1).count() as u64 + 1
}

fn pattern() -> Vec<u8> {
    "1100000000000000000000011".bytes().map(|c| c - b'0').collect()
}

fn is_binary_of_len(p: &Phenotype, len: usize) -> bool {
    p.chromosome.len() == len && p.chromosome.iter().all(|g| *g <= 1)
}

#[test]
fn random_phenotype_is_binary() {
    for len in [0usize, 1, 25, 100] {
        let p = Phenotype::new(len);
        assert!(is_binary_of_len(&p, len));
        assert!(p.fitness.is_none());
    }
}

#[test]
fn random_phenotype_uses_both_values() {
    let p = Phenotype::new(1000);
    assert!(p.chromosome.iter().any(|g| *g == 1));
    assert!(p.chromosome.iter().any(|g| *g == 0));
}

#[test]
fn phenotype_from_chromosome_is_unevaluated() {
    let p = Phenotype::from_chromosome(vec![1, 0, 1]);
    assert_eq!(p.chromosome, vec![1, 0, 1]);
    assert!(p.fitness.is_none());
}

#[test]
fn phenotype_calculate_fitness_sets_score() {
    let mut p = Phenotype::from_chromosome(pattern());
    p.calculate_fitness(&exact_digits);
    assert_eq!(p.fitness, Some(25));
}

#[test]
fn new_population_has_standard_shape() {
    let p = Population::new();
    assert_eq!(p.generation(), 0);
    assert_eq!(p.phenotypes().len(), 15);
    for ph in p.phenotypes() {
        assert!(is_binary_of_len(ph, 25));
        assert!(ph.fitness.is_none());
    }
    assert!(p.best_phenotype().is_none());
    assert!(p.worst_phenotype().is_none());
    assert!(!p.can_evolve());
}

#[test]
fn calculate_fitness_records_first_extremes() {
    let config = Config { population_size: 6, genes: 4, elitism: true, children_per_pair: ChildrenPerPair::One };
    let mut p = Population::with_config(config);
    let scores_of = |g: &Vec<u8>| g.iter().map(|x| *x as u64).sum::<u64>() % 3 + 1;
    p.calculate_fitness(&scores_of);
    let scores: Vec<u64> = p.phenotypes().iter().map(|ph| ph.fitness.unwrap()).collect();
    let min = *scores.iter().min().unwrap();
    let max = *scores.iter().max().unwrap();
    let first_min = scores.iter().position(|s| *s == min).unwrap();
    let first_max = scores.iter().position(|s| *s == max).unwrap();
    assert_eq!(p.worst_phenotype().unwrap().fitness, Some(min));
    assert_eq!(p.best_phenotype().unwrap().fitness, Some(max));
    assert_eq!(p.worst_phenotype_index(), Some(first_min));
    assert_eq!(p.best_phenotype_index(), Some(first_max));
}

#[test]
fn calculate_fitness_ties_pick_first() {
    let config = Config { population_size: 5, genes: 3, elitism: false, children_per_pair: ChildrenPerPair::One };
    let mut p = Population::with_config(config);
    p.calculate_fitness(&|_: &Vec<u8>| 7u64);
    assert_eq!(p.worst_phenotype_index(), Some(0));
    assert_eq!(p.best_phenotype_index(), Some(0));
}

#[test]
fn calculate_fitness_twice_is_idempotent() {
    let mut p = Population::new();
    p.calculate_fitness(&exact_digits);
    let first: Vec<(Vec<u8>, Option<u64>)> =
        p.phenotypes().iter().map(|ph| (ph.chromosome.clone(), ph.fitness)).collect();
    let worst = p.worst_phenotype_index();
    let best = p.best_phenotype_index();
    p.calculate_fitness(&exact_digits);
    let second: Vec<(Vec<u8>, Option<u64>)> =
        p.phenotypes().iter().map(|ph| (ph.chromosome.clone(), ph.fitness)).collect();
    assert_eq!(first, second);
    assert!(worst.is_some() && best.is_some());
    assert_eq!(worst, p.worst_phenotype_index());
    assert_eq!(best, p.best_phenotype_index());
}

#[test]
fn evolve_keeps_size_and_advances_generation() {
    let mut p = Population::new();
    for g in 0..10u32 {
        assert_eq!(p.generation(), g);
        assert_eq!(p.phenotypes().len(), 15);
        p.calculate_fitness(&ones_plus_one);
        assert!(p.can_evolve());
        p = p.evolve();
        assert_eq!(p.generation(), g + 1);
        assert_eq!(p.phenotypes().len(), 15);
        assert!(p.best_phenotype().is_none());
        for ph in p.phenotypes() {
            assert!(is_binary_of_len(ph, 25));
            assert!(ph.fitness.is_none());
        }
    }
}

#[test]
fn evolve_copies_best_into_first_slot() {
    let mut p = Population::new();
    p.calculate_fitness(&exact_digits);
    let best = p.best_phenotype().unwrap().chromosome.clone();
    let next = p.evolve();
    assert_eq!(next.phenotypes()[0].chromosome, best);
    assert!(next.phenotypes()[0].fitness.is_none());
}

#[test]
fn evolve_two_children_without_elitism() {
    for size in [1usize, 4, 7] {
        let config = Config { population_size: size, genes: 9, elitism: false, children_per_pair: ChildrenPerPair::Two };
        let mut p = Population::with_config(config);
        p.calculate_fitness(&ones_plus_one);
        let next = p.evolve();
        assert_eq!(next.phenotypes().len(), size);
        assert_eq!(next.generation(), 1);
        assert!(!next.config().elitism);
        for ph in next.phenotypes() {
            assert!(is_binary_of_len(ph, 9));
        }
    }
}

#[test]
fn evolve_from_single_positive_parent() {
    let config = Config { population_size: 8, genes: 6, elitism: false, children_per_pair: ChildrenPerPair::One };
    let mut p = Population::with_config(config);
    let target = p.phenotypes()[3].chromosome.clone();
    let only = target.clone();
    p.calculate_fitness(&move |g: &Vec<u8>| if *g == only { 1 } else { 0 });
    assert!(p.can_evolve());
    let next = p.evolve();
    let differing: usize = next
        .phenotypes()
        .iter()
        .map(|ph| ph.chromosome.iter().zip(target.iter()).filter(|(a, b)| a != b).count())
        .sum();
    assert!(differing <= 6);
}

#[test]
fn zero_total_fitness_cannot_evolve() {
    let mut p = Population::new();
    p.calculate_fitness(&|_: &Vec<u8>| 0u64);
    assert!(!p.can_evolve());
}

#[test]
fn overflowing_total_fitness_cannot_evolve() {
    let mut p = Population::new();
    p.calculate_fitness(&|_: &Vec<u8>| u64::MAX);
    assert!(!p.can_evolve());
}

#[test]
fn end_to_end_exact_match_run() {
    let mut p = Population::new();
    p.calculate_fitness(&exact_digits);
    let first_best = p.best_phenotype().unwrap().fitness.unwrap();
    for _ in 0..50 {
        assert!(p.can_evolve());
        p = p.evolve();
        p.calculate_fitness(&exact_digits);
    }
    assert_eq!(p.generation(), 50);
    let best = p.best_phenotype().unwrap();
    assert!(best.fitness.unwrap() >= first_best);
    if best.fitness == Some(25) {
        assert_eq!(best.chromosome, pattern());
    }
}

#[test]
fn elitism_never_lowers_best() {
    let mut p = Population::new();
    p.calculate_fitness(&exact_digits);
    let mut best = p.best_phenotype().unwrap().fitness.unwrap();
    for _ in 0..30 {
        p = p.evolve();
        p.calculate_fitness(&exact_digits);
        let now = p.best_phenotype().unwrap().fitness.unwrap();
        assert!(now >= best);
        best = now;
    }
}
