use genetic_basics::operators::{
    breed, breed_pair, cross_chromosomes, crossover, mutate, mutate_chromosome, select_index,
};
use rand::Rng;

#[test]
fn crossover_threshold_picks_parent() {
    assert_eq!(crossover(0, 1, 1), 0);
    assert_eq!(crossover(0, 1, 70), 0);
    assert_eq!(crossover(0, 1, 71), 1);
    assert_eq!(crossover(0, 1, 100), 1);
}

#[test]
fn mutate_threshold_flips() {
    assert_eq!(mutate(0, 99), 0);
    assert_eq!(mutate(1, 1), 1);
    assert_eq!(mutate(0, 100), 1);
    assert_eq!(mutate(1, 100), 0);
}

#[test]
fn crossover_always_second_reproduces_second_parent() {
    let a = vec![1, 1, 0, 0, 1];
    let b = vec![0, 1, 1, 0, 0];
    let rolls = vec![100; 5];
    assert_eq!(cross_chromosomes(&a, &b, &rolls), b);
}

#[test]
fn crossover_always_first_reproduces_first_parent() {
    let a = vec![1, 1, 0, 0, 1];
    let b = vec![0, 1, 1, 0, 0];
    let rolls = vec![1; 5];
    assert_eq!(cross_chromosomes(&a, &b, &rolls), a);
}

#[test]
fn crossover_mixes_per_position() {
    let a = vec![1, 1, 1, 1];
    let b = vec![0, 0, 0, 0];
    let rolls = vec![70, 71, 1, 100];
    assert_eq!(cross_chromosomes(&a, &b, &rolls), vec![1, 0, 1, 0]);
}

#[test]
fn mutation_never_triggered_keeps_genes() {
    let genes = vec![1, 0, 0, 1, 1, 0];
    let rolls = vec![99; 6];
    assert_eq!(mutate_chromosome(&genes, &rolls), genes);
}

#[test]
fn mutation_always_triggered_flips_every_gene() {
    let genes = vec![1, 0, 0, 1, 1, 0];
    let rolls = vec![100; 6];
    assert_eq!(mutate_chromosome(&genes, &rolls), vec![0, 1, 1, 0, 0, 1]);
}

#[test]
fn breed_crosses_then_mutates() {
    let a = vec![1, 1, 1];
    let b = vec![0, 0, 0];
    let cross = vec![100, 1, 1];
    let mutation = vec![1, 100, 1];
    assert_eq!(breed(&a, &b, &cross, &mutation), vec![0, 0, 1]);
}

#[test]
fn breed_empty_chromosomes() {
    let empty: Vec<u8> = Vec::new();
    let no_rolls: Vec<u64> = Vec::new();
    assert_eq!(breed(&empty, &empty, &no_rolls, &no_rolls), empty);
}

#[test]
fn wheel_targets_map_to_segments() {
    let fitness = vec![1, 2, 3, 4, 10];
    let expected = [0, 1, 1, 2, 2, 2, 3, 3, 3, 3];
    for (t, e) in expected.iter().enumerate() {
        assert_eq!(select_index(&fitness, t as u64 + 1), *e);
    }
    for t in 11..=20 {
        assert_eq!(select_index(&fitness, t), 4);
    }
}

#[test]
fn wheel_skips_zero_fitness() {
    let fitness = vec![0, 3, 0, 2, 0];
    for t in 1..=5 {
        let i = select_index(&fitness, t);
        assert!(fitness[i] > 0);
    }
    assert_eq!(select_index(&fitness, 3), 1);
    assert_eq!(select_index(&fitness, 4), 3);
}

#[test]
fn wheel_frequencies_track_fitness_share() {
    let fitness = vec![1u64, 2, 3, 4, 10];
    let total: u64 = fitness.iter().sum();
    let draws = 20_000;
    let mut counts = [0u32; 5];
    let mut rng = rand::thread_rng();
    for _ in 0..draws {
        let t = rng.gen_range(1..=total);
        counts[select_index(&fitness, t)] += 1;
    }
    for i in 0..5 {
        let expected = fitness[i] as f64 / total as f64;
        let observed = counts[i] as f64 / draws as f64;
        assert!((expected - observed).abs() < 0.02, "index {}: {} vs {}", i, observed, expected);
    }
}

#[test]
fn breed_pair_siblings_split_genes() {
    let a = vec![1, 1, 1, 1];
    let b = vec![0, 0, 0, 0];
    let cross = vec![70, 71, 1, 100];
    let (first, second) = breed_pair(&a, &b, &cross, &vec![1; 4], &vec![1; 4]);
    assert_eq!(first, vec![1, 0, 1, 0]);
    assert_eq!(second, vec![0, 1, 0, 1]);
    let (first, second) = breed_pair(&a, &b, &cross, &vec![100, 1, 1, 1], &vec![1, 1, 1, 100]);
    assert_eq!(first, vec![0, 0, 1, 0]);
    assert_eq!(second, vec![0, 1, 0, 0]);
}
