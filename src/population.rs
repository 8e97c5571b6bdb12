//! Individuals and the population that evolves them.
use crate::operators::{
    breed, breed_pair, bred, is_binary, lemma_bred_is_binary, lemma_prefix_sum_monotone, prefix_sum,
    select_index, total_fitness, valid_rolls, ROLL_MAX,
};
use crate::random::random_in_range;
use vstd::prelude::*;

verus! {

/// Size of the population that `Population::new` builds.
pub const POPULATION_SIZE: usize = 15;

/// Chromosome length of the population that `Population::new` builds.
pub const GENES: usize = 25;

/// How many children each selected pair of parents produces.
#[derive(Clone, Copy, Debug, PartialEq, Eq)]
pub enum ChildrenPerPair {
    /// One child per pair.
    One,
    /// Two children per pair: the second takes, at every position, the gene
    /// that the first did not.
    Two,
}

/// The construction-time parameters of a population.
#[derive(Clone, Copy, Debug)]
pub struct Config {
    /// N, the number of individuals.
    pub population_size: usize,
    /// G, the number of genes in every chromosome.
    pub genes: usize,
    /// Whether the best individual is copied into slot 0 of the next generation.
    pub elitism: bool,
    /// One or two children from each selected pair of parents.
    pub children_per_pair: ChildrenPerPair,
}

impl Config {
    /// N = 15, G = 25, elitism on, one child per pair.
    pub fn standard() -> (r: Config)
        ensures
            r.population_size == POPULATION_SIZE,
            r.genes == GENES,
            r.elitism,
            r.children_per_pair is One,
    {
        Config {
            population_size: POPULATION_SIZE,
            genes: GENES,
            elitism: true,
            children_per_pair: ChildrenPerPair::One,
        }
    }
}

/// One individual: a binary chromosome and its fitness, unset until evaluated.
pub struct Phenotype {
    pub chromosome: Vec<u8>,
    pub fitness: Option<u64>,
}

/// The fitness of each individual, with 0 where it is unset.
pub open spec fn scores(members: Seq<Phenotype>) -> Seq<u64> {
    Seq::new(
        members.len(),
        |i: int|
            match members[i].fitness {
                Some(s) => s,
                None => 0,
            },
    )
}

/// Every individual has its fitness set.
pub open spec fn all_evaluated(members: Seq<Phenotype>) -> bool {
    forall|i: int| 0 <= i < members.len() ==> (#[trigger] members[i]).fitness is Some
}

/// `i` is the first index holding the least value of `s`.
pub open spec fn is_first_min(s: Seq<u64>, i: int) -> bool {
    &&& 0 <= i < s.len()
    &&& forall|j: int| 0 <= j < s.len() ==> s[i] <= #[trigger] s[j]
    &&& forall|j: int| 0 <= j < i ==> #[trigger] s[j] > s[i]
}

/// `i` is the first index holding the greatest value of `s`.
pub open spec fn is_first_max(s: Seq<u64>, i: int) -> bool {
    &&& 0 <= i < s.len()
    &&& forall|j: int| 0 <= j < s.len() ==> s[i] >= #[trigger] s[j]
    &&& forall|j: int| 0 <= j < i ==> #[trigger] s[j] < s[i]
}

/// `child` comes from two parents of positive fitness by crossover and
/// mutation, with every draw in `1..=ROLL_MAX`.
pub open spec fn is_offspring(parents: Seq<Phenotype>, child: Seq<u8>) -> bool {
    exists|i: int, j: int, cross_rolls: Seq<u64>, mutation_rolls: Seq<u64>|
        {
            &&& 0 <= i < parents.len()
            &&& 0 <= j < parents.len()
            &&& scores(parents)[i] > 0
            &&& scores(parents)[j] > 0
            &&& cross_rolls.len() == parents[i].chromosome@.len()
            &&& mutation_rolls.len() == parents[i].chromosome@.len()
            &&& valid_rolls(cross_rolls)
            &&& valid_rolls(mutation_rolls)
            &&& #[trigger] bred(
                parents[i].chromosome@,
                parents[j].chromosome@,
                cross_rolls,
                mutation_rolls,
            ) == child
        }
}

/// A fitness function that gives equal scores to equal gene sequences.
pub open spec fn is_deterministic<F: Fn(&Vec<u8>) -> u64>(f: &F) -> bool {
    forall|a: &Vec<u8>, b: &Vec<u8>, x: u64, y: u64|
        #![trigger f.ensures((a,), x), f.ensures((b,), y)]
        a@ == b@ && f.ensures((a,), x) && f.ensures((b,), y) ==> x == y
}

fn random_rolls(len: usize) -> (r: Vec<u64>)
    ensures
        r@.len() == len,
        valid_rolls(r@),
{
    let mut rolls: Vec<u64> = Vec::with_capacity(len);
    let mut i: usize = 0;
    while i < len
        invariant
            i <= len,
            rolls@.len() == i,
            valid_rolls(rolls@),
        decreases len - i,
    {
        rolls.push(random_in_range(1, ROLL_MAX));
        i += 1;
    }
    rolls
}

fn copy_chromosome(genes: &Vec<u8>) -> (r: Vec<u8>)
    ensures
        r@ == genes@,
{
    let mut out: Vec<u8> = Vec::with_capacity(genes.len());
    let mut i: usize = 0;
    while i < genes.len()
        invariant
            i <= genes.len(),
            out@ =~= genes@.take(i as int),
        decreases genes.len() - i,
    {
        out.push(genes[i]);
        i += 1;
    }
    assert(out@ =~= genes@);
    out
}

impl Phenotype {
    /// A random individual of `genes` genes, each an independent coin flip;
    /// fitness unset.
    pub fn new(genes: usize) -> (r: Self)
        ensures
            r.chromosome@.len() == genes,
            is_binary(r.chromosome@),
            r.fitness is None,
    {
        let mut chromosome: Vec<u8> = Vec::with_capacity(genes);
        let mut i: usize = 0;
        while i < genes
            invariant
                i <= genes,
                chromosome@.len() == i,
                is_binary(chromosome@),
            decreases genes - i,
        {
            let bit = random_in_range(0, 1);
            chromosome.push(bit as u8);
            i += 1;
        }
        Phenotype { chromosome, fitness: None }
    }

    /// An individual holding `chromosome`, fitness unset.
    pub fn from_chromosome(chromosome: Vec<u8>) -> (r: Self)
        ensures
            r.chromosome == chromosome,
            r.fitness is None,
    {
        Phenotype { chromosome, fitness: None }
    }

    /// Sets the fitness to the score that `fitness_function` gives the chromosome.
    pub fn calculate_fitness<F: Fn(&Vec<u8>) -> u64>(&mut self, fitness_function: &F)
        requires
            forall|g: &Vec<u8>| fitness_function.requires((g,)),
        ensures
            final(self).chromosome == old(self).chromosome,
            final(self).fitness is Some,
            fitness_function.ensures((&old(self).chromosome,), final(self).fitness->0),
    {
        let score = fitness_function(&self.chromosome);
        self.fitness = Some(score);
    }
}

/// A fixed-size population of individuals at some generation.
pub struct Population {
    generation: u32,
    phenotypes: Vec<Phenotype>,
    worst_phenotype_index: Option<usize>,
    best_phenotype_index: Option<usize>,
    config: Config,
}

impl Population {
    /// The generation counter.
    pub closed spec fn spec_generation(&self) -> u32 {
        self.generation
    }

    /// The individuals, in stored order.
    pub closed spec fn spec_members(&self) -> Seq<Phenotype> {
        self.phenotypes@
    }

    /// Index of the first individual of least fitness, when evaluated.
    pub closed spec fn spec_worst(&self) -> Option<usize> {
        self.worst_phenotype_index
    }

    /// Index of the first individual of greatest fitness, when evaluated.
    pub closed spec fn spec_best(&self) -> Option<usize> {
        self.best_phenotype_index
    }

    /// The parameters the population was built with.
    pub closed spec fn spec_config(&self) -> Config {
        self.config
    }

    /// The population's invariant: N individuals of G binary genes each; the
    /// best and worst indices are present together, and only when every
    /// individual is evaluated, and then point into the population.
    pub closed spec fn wf(&self) -> bool {
        &&& self.config.population_size >= 1
        &&& self.phenotypes@.len() == self.config.population_size
        &&& forall|i: int|
            0 <= i < self.phenotypes@.len() ==> (#[trigger] self.phenotypes@[i]).chromosome@.len()
                == self.config.genes && is_binary(self.phenotypes@[i].chromosome@)
        &&& self.worst_phenotype_index is Some <==> self.best_phenotype_index is Some
        &&& self.best_phenotype_index is Some ==> {
            &&& all_evaluated(self.phenotypes@)
            &&& self.best_phenotype_index->0 < self.phenotypes@.len()
            &&& self.worst_phenotype_index->0 < self.phenotypes@.len()
        }
    }

    /// `after` is `before` evaluated by `f`: same chromosomes, generation and
    /// configuration; each fitness is what `f` returned for the chromosome; the
    /// worst and best indices are the first minimum and first maximum.
    pub open spec fn evaluates<F: Fn(&Vec<u8>) -> u64>(after: Self, before: Self, f: &F) -> bool {
        &&& after.spec_generation() == before.spec_generation()
        &&& after.spec_config() == before.spec_config()
        &&& after.spec_members().len() == before.spec_members().len()
        &&& forall|i: int|
            0 <= i < after.spec_members().len() ==> {
                &&& (#[trigger] after.spec_members()[i]).chromosome
                    == before.spec_members()[i].chromosome
                &&& after.spec_members()[i].fitness is Some
                &&& f.ensures(
                    (&before.spec_members()[i].chromosome,),
                    after.spec_members()[i].fitness->0,
                )
            }
        &&& after.spec_worst() is Some
        &&& is_first_min(scores(after.spec_members()), after.spec_worst()->0 as int)
        &&& after.spec_best() is Some
        &&& is_first_max(scores(after.spec_members()), after.spec_best()->0 as int)
    }

    /// Whether `evolve` may run: the population is evaluated, its total
    /// fitness is positive and fits in a `u64`, and the generation counter can
    /// still advance.
    pub open spec fn spec_can_evolve(&self) -> bool {
        &&& self.spec_best() is Some
        &&& 0 < total_fitness(scores(self.spec_members())) <= u64::MAX
        &&& self.spec_generation() < u32::MAX
    }

    /// A population of `Config::standard()`.
    pub fn new() -> (r: Self)
        ensures
            r.wf(),
            r.spec_config().population_size == POPULATION_SIZE,
            r.spec_config().genes == GENES,
            r.spec_config().elitism,
            r.spec_config().children_per_pair is One,
            r.spec_generation() == 0,
            r.spec_members().len() == POPULATION_SIZE,
            forall|i: int| 0 <= i < r.spec_members().len() ==> (#[trigger] r.spec_members()[i]).fitness is None,
            r.spec_worst() is None,
            r.spec_best() is None,
    {
        Self::with_config(Config::standard())
    }

    /// N random individuals of G genes each, fitness unset, at generation 0.
    pub fn with_config(config: Config) -> (r: Self)
        requires
            config.population_size >= 1,
        ensures
            r.wf(),
            r.spec_config() == config,
            r.spec_generation() == 0,
            r.spec_members().len() == config.population_size,
            forall|i: int|
                0 <= i < r.spec_members().len() ==> {
                    &&& (#[trigger] r.spec_members()[i]).chromosome@.len() == config.genes
                    &&& is_binary(r.spec_members()[i].chromosome@)
                    &&& r.spec_members()[i].fitness is None
                },
            r.spec_worst() is None,
            r.spec_best() is None,
    {
        let mut phenotypes: Vec<Phenotype> = Vec::with_capacity(config.population_size);
        let mut i: usize = 0;
        while i < config.population_size
            invariant
                i <= config.population_size,
                phenotypes@.len() == i,
                forall|k: int|
                    0 <= k < i ==> {
                        &&& (#[trigger] phenotypes@[k]).chromosome@.len() == config.genes
                        &&& is_binary(phenotypes@[k].chromosome@)
                        &&& phenotypes@[k].fitness is None
                    },
            decreases config.population_size - i,
        {
            phenotypes.push(Phenotype::new(config.genes));
            i += 1;
        }
        Population {
            generation: 0,
            phenotypes,
            worst_phenotype_index: None,
            best_phenotype_index: None,
            config,
        }
    }
    /// Evaluates every individual with `fitness_function`, then records the
    /// first index of least fitness as the worst and the first index of
    /// greatest fitness as the best. Earlier results are replaced.
    pub fn calculate_fitness<F: Fn(&Vec<u8>) -> u64>(&mut self, fitness_function: &F)
        requires
            old(self).wf(),
            forall|g: &Vec<u8>| fitness_function.requires((g,)),
        ensures
            final(self).wf(),
            Self::evaluates(*final(self), *old(self), fitness_function),
    {
        let n = self.phenotypes.len();
        let mut i: usize = 0;
        while i < n
            invariant
                forall|g: &Vec<u8>| fitness_function.requires((g,)),
                i <= n,
                n == old(self).phenotypes@.len(),
                self.phenotypes@.len() == n,
                self.generation == old(self).generation,
                self.config == old(self).config,
                forall|k: int|
                    0 <= k < n ==> (#[trigger] self.phenotypes@[k]).chromosome
                        == old(self).phenotypes@[k].chromosome,
                forall|k: int|
                    0 <= k < i ==> {
                        &&& (#[trigger] self.phenotypes@[k]).fitness is Some
                        &&& fitness_function.ensures(
                            (&old(self).phenotypes@[k].chromosome,),
                            self.phenotypes@[k].fitness->0,
                        )
                    },
            decreases n - i,
        {
            let mut p = Phenotype { chromosome: Vec::new(), fitness: None };
            self.phenotypes.set_and_swap(i, &mut p);
            p.calculate_fitness(fitness_function);
            self.phenotypes.set_and_swap(i, &mut p);
            i += 1;
        }
        let ghost sc = scores(self.phenotypes@);
        let mut worst: usize = 0;
        let mut best: usize = 0;
        let mut worst_score: u64 = self.score_at(0);
        let mut best_score: u64 = worst_score;
        let mut k: usize = 1;
        while k < n
            invariant
                sc == scores(self.phenotypes@),
                self.phenotypes@.len() == n,
                n >= 1,
                1 <= k <= n,
                worst < k,
                best < k,
                worst_score == sc[worst as int],
                best_score == sc[best as int],
                forall|j: int| 0 <= j < k ==> sc[worst as int] <= #[trigger] sc[j],
                forall|j: int| 0 <= j < worst ==> #[trigger] sc[j] > sc[worst as int],
                forall|j: int| 0 <= j < k ==> sc[best as int] >= #[trigger] sc[j],
                forall|j: int| 0 <= j < best ==> #[trigger] sc[j] < sc[best as int],
            decreases n - k,
        {
            let s = self.score_at(k);
            if s < worst_score {
                worst = k;
                worst_score = s;
            }
            if s > best_score {
                best = k;
                best_score = s;
            }
            k += 1;
        }
        self.worst_phenotype_index = Some(worst);
        self.best_phenotype_index = Some(best);
    }

    fn score_at(&self, i: usize) -> (r: u64)
        requires
            i < self.phenotypes@.len(),
        ensures
            r == scores(self.phenotypes@)[i as int],
    {
        match self.phenotypes[i].fitness {
            Some(s) => s,
            None => 0,
        }
    }
    /// The fitness of each individual, 0 where unset.
    fn fitness_values(&self) -> (r: Vec<u64>)
        ensures
            r@ == scores(self.phenotypes@),
    {
        let mut values: Vec<u64> = Vec::with_capacity(self.phenotypes.len());
        let mut i: usize = 0;
        while i < self.phenotypes.len()
            invariant
                i <= self.phenotypes@.len(),
                values@ =~= scores(self.phenotypes@).take(i as int),
            decreases self.phenotypes@.len() - i,
        {
            values.push(self.score_at(i));
            i += 1;
        }
        assert(values@ =~= scores(self.phenotypes@));
        values
    }

    /// The sum of `values`, or `None` where it does not fit in a `u64`.
    fn checked_total(values: &Vec<u64>) -> (r: Option<u64>)
        ensures
            r matches Some(t) ==> t == total_fitness(values@),
            r is None <==> total_fitness(values@) > u64::MAX,
    {
        let mut sum: u64 = 0;
        let mut i: usize = 0;
        while i < values.len()
            invariant
                i <= values@.len(),
                sum == prefix_sum(values@, i as int),
            decreases values@.len() - i,
        {
            if sum > u64::MAX - values[i] {
                proof {
                    lemma_prefix_sum_monotone(values@, i as int + 1, values@.len() as int);
                }
                return None;
            }
            sum = sum + values[i];
            i += 1;
        }
        Some(sum)
    }

    /// Whether `evolve` may run on this population.
    pub fn can_evolve(&self) -> (r: bool)
        requires
            self.wf(),
        ensures
            r == self.spec_can_evolve(),
    {
        if self.best_phenotype_index.is_none() || self.generation == u32::MAX {
            return false;
        }
        let values = self.fitness_values();
        match Self::checked_total(&values) {
            Some(t) => t > 0,
            None => false,
        }
    }

    /// The next generation: with elitism, slot 0 holds a copy of the best
    /// chromosome; every other slot holds a child of two parents chosen by
    /// roulette-wheel selection, bred by crossover and then mutation. With two
    /// children per pair the sibling takes the complementary genes and its own
    /// mutation. Every fitness is unset, the worst and best indices are
    /// cleared, and the generation counter advances by one.
    pub fn evolve(&self) -> (r: Self)
        requires
            self.wf(),
            self.spec_can_evolve(),
        ensures
            r.wf(),
            r.spec_generation() == self.spec_generation() + 1,
            r.spec_config() == self.spec_config(),
            r.spec_members().len() == self.spec_config().population_size,
            r.spec_worst() is None,
            r.spec_best() is None,
            forall|i: int|
                0 <= i < r.spec_members().len() ==> {
                    &&& (#[trigger] r.spec_members()[i]).fitness is None
                    &&& r.spec_members()[i].chromosome@.len() == self.spec_config().genes
                    &&& is_binary(r.spec_members()[i].chromosome@)
                },
            self.spec_config().elitism ==> r.spec_members()[0].chromosome@
                == self.spec_members()[self.spec_best()->0 as int].chromosome@,
            forall|i: int|
                (if self.spec_config().elitism {
                    1int
                } else {
                    0int
                }) <= i < r.spec_members().len() ==> is_offspring(
                    self.spec_members(),
                    (#[trigger] r.spec_members()[i]).chromosome@,
                ),
    {
        let values = self.fitness_values();
        let total = match Self::checked_total(&values) {
            Some(t) => t,
            None => 0,
        };
        let n = self.config.population_size;
        let genes = self.config.genes;
        let ghost parents = self.phenotypes@;
        let mut next: Vec<Phenotype> = Vec::with_capacity(n);
        let start: usize = if self.config.elitism {
            1
        } else {
            0
        };
        if self.config.elitism {
            let b = match self.best_phenotype_index {
                Some(b) => b,
                None => 0,
            };
            next.push(Phenotype::from_chromosome(copy_chromosome(&self.phenotypes[b].chromosome)));
        }
        while next.len() < n
            invariant
                self.wf(),
                parents == self.phenotypes@,
                values@ == scores(parents),
                total == total_fitness(values@),
                total >= 1,
                n == self.config.population_size,
                genes == self.config.genes,
                start == (if self.config.elitism {
                    1int
                } else {
                    0int
                }),
                start <= next@.len() <= n,
                self.config.elitism ==> next@[0].chromosome@
                    == parents[self.best_phenotype_index->0 as int].chromosome@,
                forall|k: int|
                    0 <= k < next@.len() ==> {
                        &&& (#[trigger] next@[k]).fitness is None
                        &&& next@[k].chromosome@.len() == genes
                        &&& is_binary(next@[k].chromosome@)
                    },
                forall|k: int|
                    start <= k < next@.len() ==> is_offspring(
                        parents,
                        (#[trigger] next@[k]).chromosome@,
                    ),
            decreases n - next@.len(),
        {
            let a = select_index(&values, random_in_range(1, total));
            let b = select_index(&values, random_in_range(1, total));
            let cross_rolls = random_rolls(genes);
            let mutation_rolls = random_rolls(genes);
            let pa = &self.phenotypes[a].chromosome;
            let pb = &self.phenotypes[b].chromosome;
            if matches!(self.config.children_per_pair, ChildrenPerPair::Two) && n - next.len() >= 2 {
                let sibling_rolls = random_rolls(genes);
                let (child, sibling) = breed_pair(pa, pb, &cross_rolls, &mutation_rolls, &sibling_rolls);
                proof {
                    assert(values@[a as int] > 0 && values@[b as int] > 0);
                    lemma_bred_is_binary(pa@, pb@, cross_rolls@, mutation_rolls@);
                    lemma_bred_is_binary(pb@, pa@, cross_rolls@, sibling_rolls@);
                    assert(is_offspring(parents, child@));
                    assert(is_offspring(parents, sibling@));
                }
                next.push(Phenotype::from_chromosome(child));
                next.push(Phenotype::from_chromosome(sibling));
            } else {
                let child = breed(pa, pb, &cross_rolls, &mutation_rolls);
                proof {
                    assert(values@[a as int] > 0 && values@[b as int] > 0);
                    lemma_bred_is_binary(pa@, pb@, cross_rolls@, mutation_rolls@);
                    assert(is_offspring(parents, child@));
                }
                next.push(Phenotype::from_chromosome(child));
            }
        }
        Population {
            generation: self.generation + 1,
            phenotypes: next,
            worst_phenotype_index: None,
            best_phenotype_index: None,
            config: self.config,
        }
    }
    pub fn generation(&self) -> (r: u32)
        ensures
            r == self.spec_generation(),
    {
        self.generation
    }

    pub fn config(&self) -> (r: Config)
        ensures
            r == self.spec_config(),
    {
        self.config
    }

    /// The individuals, in stored order.
    pub fn phenotypes(&self) -> (r: &Vec<Phenotype>)
        ensures
            r@ == self.spec_members(),
    {
        &self.phenotypes
    }

    /// Index of the individual of least fitness, once evaluated.
    pub fn worst_phenotype_index(&self) -> (r: Option<usize>)
        ensures
            r == self.spec_worst(),
    {
        self.worst_phenotype_index
    }

    /// Index of the individual of greatest fitness, once evaluated.
    pub fn best_phenotype_index(&self) -> (r: Option<usize>)
        ensures
            r == self.spec_best(),
    {
        self.best_phenotype_index
    }

    /// The individual of least fitness, once evaluated.
    pub fn worst_phenotype(&self) -> (r: Option<&Phenotype>)
        requires
            self.wf(),
        ensures
            r is Some <==> self.spec_worst() is Some,
            r matches Some(p) ==> *p == self.spec_members()[self.spec_worst()->0 as int],
    {
        match self.worst_phenotype_index {
            Some(i) => Some(&self.phenotypes[i]),
            None => None,
        }
    }

    /// The individual of greatest fitness, once evaluated.
    pub fn best_phenotype(&self) -> (r: Option<&Phenotype>)
        requires
            self.wf(),
        ensures
            r is Some <==> self.spec_best() is Some,
            r matches Some(p) ==> *p == self.spec_members()[self.spec_best()->0 as int],
    {
        match self.best_phenotype_index {
            Some(i) => Some(&self.phenotypes[i]),
            None => None,
        }
    }
}

/// Evaluation is idempotent: evaluating twice in succession with a
/// deterministic fitness function leaves the same individuals, fitness values,
/// and worst and best indices as evaluating once.
pub proof fn lemma_evaluation_idempotent<F: Fn(&Vec<u8>) -> u64>(
    f: &F,
    p0: Population,
    p1: Population,
    p2: Population,
)
    requires
        is_deterministic(f),
        Population::evaluates(p1, p0, f),
        Population::evaluates(p2, p1, f),
    ensures
        p2.spec_members() == p1.spec_members(),
        p2.spec_worst() == p1.spec_worst(),
        p2.spec_best() == p1.spec_best(),
        p2.spec_generation() == p1.spec_generation(),
        p2.spec_config() == p1.spec_config(),
{
    let m1 = p1.spec_members();
    let m2 = p2.spec_members();
    assert forall|i: int| 0 <= i < m1.len() implies #[trigger] m2[i] == m1[i] by {
        assert(f.ensures((&p0.spec_members()[i].chromosome,), m1[i].fitness->0));
        assert(f.ensures((&m1[i].chromosome,), m2[i].fitness->0));
    }
    assert(m2 =~= m1);
    let s = scores(m1);
    let w1 = p1.spec_worst()->0 as int;
    let w2 = p2.spec_worst()->0 as int;
    let b1 = p1.spec_best()->0 as int;
    let b2 = p2.spec_best()->0 as int;
    assert(s =~= scores(m2));
    if w1 < w2 {
        assert(s[w1] > s[w2]);
    } else if w2 < w1 {
        assert(s[w2] > s[w1]);
    }
    if b1 < b2 {
        assert(s[b1] < s[b2]);
    } else if b2 < b1 {
        assert(s[b2] < s[b1]);
    }
}

/// Under elitism the best fitness never degrades: evaluate a population,
/// evolve it so that slot 0 keeps the best chromosome, evaluate the result
/// with the same deterministic fitness function, and the new best fitness is
/// at least the old one.
pub proof fn lemma_elitism_keeps_best<F: Fn(&Vec<u8>) -> u64>(
    f: &F,
    previous: Population,
    evaluated: Population,
    next: Population,
    next_evaluated: Population,
)
    requires
        is_deterministic(f),
        Population::evaluates(evaluated, previous, f),
        next.spec_members().len() >= 1,
        next.spec_members()[0].chromosome@
            == evaluated.spec_members()[evaluated.spec_best()->0 as int].chromosome@,
        Population::evaluates(next_evaluated, next, f),
    ensures
        scores(next_evaluated.spec_members())[next_evaluated.spec_best()->0 as int] >= scores(
            evaluated.spec_members(),
        )[evaluated.spec_best()->0 as int],
{
    let b = evaluated.spec_best()->0 as int;
    let e = evaluated.spec_members()[b];
    let c = next_evaluated.spec_members()[0];
    assert(f.ensures((&previous.spec_members()[b].chromosome,), e.fitness->0));
    assert(f.ensures((&next.spec_members()[0].chromosome,), c.fitness->0));
    assert(c.fitness->0 == e.fitness->0);
    assert(scores(next_evaluated.spec_members())[0] == c.fitness->0);
}

} // verus!
