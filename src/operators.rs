//! Selection, crossover and mutation, each as a function of its random draws.
use vstd::prelude::*;

verus! {

/// A crossover draw above this keeps the second parent's gene.
pub const CROSSOVER_THRESHOLD: u64 = 70;

/// A mutation draw above this flips the gene.
pub const MUTATION_THRESHOLD: u64 = 99;

/// Draws for crossover and mutation are taken uniformly from `1..=ROLL_MAX`.
pub const ROLL_MAX: u64 = 100;

/// Every gene is 0 or 1.
pub open spec fn is_binary(genes: Seq<u8>) -> bool {
    forall|i: int| 0 <= i < genes.len() ==> #[trigger] genes[i] <= 1
}

/// Every draw lies in `1..=ROLL_MAX`.
pub open spec fn valid_rolls(rolls: Seq<u64>) -> bool {
    forall|i: int| 0 <= i < rolls.len() ==> 1 <= #[trigger] rolls[i] <= ROLL_MAX
}

/// The gene that crossover keeps at one position.
pub open spec fn crossover_gene(a: u8, b: u8, roll: u64) -> u8 {
    if roll > CROSSOVER_THRESHOLD {
        b
    } else {
        a
    }
}

/// The gene after mutation at one position.
pub open spec fn mutated_gene(gene: u8, roll: u64) -> u8 {
    if roll > MUTATION_THRESHOLD {
        flipped(gene)
    } else {
        gene
    }
}

pub open spec fn flipped(gene: u8) -> u8 {
    if gene == 1 {
        0
    } else {
        1
    }
}

/// Uniform crossover of two parents, one draw per position.
pub open spec fn crossed(a: Seq<u8>, b: Seq<u8>, rolls: Seq<u64>) -> Seq<u8> {
    Seq::new(a.len(), |i: int| crossover_gene(a[i], b[i], rolls[i]))
}

/// Per-gene mutation, one draw per position.
pub open spec fn mutated(genes: Seq<u8>, rolls: Seq<u64>) -> Seq<u8> {
    Seq::new(genes.len(), |i: int| mutated_gene(genes[i], rolls[i]))
}

/// The child of two parents: crossover, then mutation of the combined sequence.
pub open spec fn bred(a: Seq<u8>, b: Seq<u8>, cross_rolls: Seq<u64>, mutation_rolls: Seq<u64>) -> Seq<u8> {
    mutated(crossed(a, b, cross_rolls), mutation_rolls)
}

/// Sum of the first `k` fitness values.
pub open spec fn prefix_sum(fitness: Seq<u64>, k: int) -> int
    decreases k,
{
    if k <= 0 {
        0
    } else {
        prefix_sum(fitness, k - 1) + fitness[k - 1]
    }
}

/// Sum of all fitness values.
pub open spec fn total_fitness(fitness: Seq<u64>) -> int {
    prefix_sum(fitness, fitness.len() as int)
}

/// The roulette wheel gives index `i` the targets in
/// `prefix_sum(i) + 1 ..= prefix_sum(i + 1)`.
pub open spec fn wheel_picks(fitness: Seq<u64>, target: int, i: int) -> bool {
    0 <= i < fitness.len() && prefix_sum(fitness, i) < target <= prefix_sum(fitness, i + 1)
}

/// Crossover at one gene position: above the threshold the second parent's
/// gene is taken, otherwise the first's.
pub fn crossover(a: u8, b: u8, roll: u64) -> (r: u8)
    ensures
        r == crossover_gene(a, b, roll),
{
    if roll > CROSSOVER_THRESHOLD {
        b
    } else {
        a
    }
}

/// Mutation at one gene position: above the threshold the bit flips.
pub fn mutate(gene: u8, roll: u64) -> (r: u8)
    ensures
        r == mutated_gene(gene, roll),
{
    if roll > MUTATION_THRESHOLD {
        if gene == 1 {
            0
        } else {
            1
        }
    } else {
        gene
    }
}

/// Uniform crossover over whole chromosomes.
pub fn cross_chromosomes(a: &Vec<u8>, b: &Vec<u8>, rolls: &Vec<u64>) -> (r: Vec<u8>)
    requires
        a.len() == b.len(),
        a.len() == rolls.len(),
    ensures
        r@ == crossed(a@, b@, rolls@),
{
    let mut child: Vec<u8> = Vec::with_capacity(a.len());
    let mut i: usize = 0;
    while i < a.len()
        invariant
            a.len() == b.len(),
            a.len() == rolls.len(),
            i <= a.len(),
            child@ =~= crossed(a@, b@, rolls@).take(i as int),
        decreases a.len() - i,
    {
        child.push(crossover(a[i], b[i], rolls[i]));
        i += 1;
    }
    assert(child@ =~= crossed(a@, b@, rolls@));
    child
}

/// Per-gene mutation over a whole chromosome.
pub fn mutate_chromosome(genes: &Vec<u8>, rolls: &Vec<u64>) -> (r: Vec<u8>)
    requires
        genes.len() == rolls.len(),
    ensures
        r@ == mutated(genes@, rolls@),
{
    let mut out: Vec<u8> = Vec::with_capacity(genes.len());
    let mut i: usize = 0;
    while i < genes.len()
        invariant
            genes.len() == rolls.len(),
            i <= genes.len(),
            out@ =~= mutated(genes@, rolls@).take(i as int),
        decreases genes.len() - i,
    {
        out.push(mutate(genes[i], rolls[i]));
        i += 1;
    }
    assert(out@ =~= mutated(genes@, rolls@));
    out
}

/// One child of two parents: crossover, then mutation.
pub fn breed(a: &Vec<u8>, b: &Vec<u8>, cross_rolls: &Vec<u64>, mutation_rolls: &Vec<u64>) -> (r: Vec<u8>)
    requires
        a.len() == b.len(),
        a.len() == cross_rolls.len(),
        a.len() == mutation_rolls.len(),
    ensures
        r@ == bred(a@, b@, cross_rolls@, mutation_rolls@),
{
    let child = cross_chromosomes(a, b, cross_rolls);
    mutate_chromosome(&child, mutation_rolls)
}

/// Two siblings of one pair: both use the same crossover draws, so at every
/// position the second child takes the gene the first did not; each is then
/// mutated with its own draws.
pub fn breed_pair(
    a: &Vec<u8>,
    b: &Vec<u8>,
    cross_rolls: &Vec<u64>,
    first_mutation_rolls: &Vec<u64>,
    second_mutation_rolls: &Vec<u64>,
) -> (r: (Vec<u8>, Vec<u8>))
    requires
        a.len() == b.len(),
        a.len() == cross_rolls.len(),
        a.len() == first_mutation_rolls.len(),
        a.len() == second_mutation_rolls.len(),
    ensures
        r.0@ == bred(a@, b@, cross_rolls@, first_mutation_rolls@),
        r.1@ == bred(b@, a@, cross_rolls@, second_mutation_rolls@),
{
    let first = breed(a, b, cross_rolls, first_mutation_rolls);
    let second = breed(b, a, cross_rolls, second_mutation_rolls);
    (first, second)
}

/// Roulette-wheel selection: walks the fitness values in order and returns the
/// first index whose running sum reaches `target`.
pub fn select_index(fitness: &Vec<u64>, target: u64) -> (r: usize)
    requires
        1 <= target <= total_fitness(fitness@),
    ensures
        wheel_picks(fitness@, target as int, r as int),
{
    let mut reached: u64 = 0;
    let mut i: usize = 0;
    while i < fitness.len()
        invariant
            1 <= target <= total_fitness(fitness@),
            i <= fitness.len(),
            reached == prefix_sum(fitness@, i as int),
            reached < target,
        decreases fitness.len() - i,
    {
        if target - reached <= fitness[i] {
            return i;
        }
        reached = reached + fitness[i];
        i += 1;
    }
    i
}

/// Crossover whose draws all keep the first parent reproduces the first parent.
pub proof fn lemma_crossover_keeps_first(a: Seq<u8>, b: Seq<u8>, rolls: Seq<u64>)
    requires
        a.len() == b.len(),
        a.len() == rolls.len(),
        forall|i: int| 0 <= i < rolls.len() ==> #[trigger] rolls[i] <= CROSSOVER_THRESHOLD,
    ensures
        crossed(a, b, rolls) == a,
{
    assert(crossed(a, b, rolls) =~= a);
}

/// Crossover whose draws all pick the second parent reproduces the second parent.
pub proof fn lemma_crossover_takes_second(a: Seq<u8>, b: Seq<u8>, rolls: Seq<u64>)
    requires
        a.len() == b.len(),
        a.len() == rolls.len(),
        forall|i: int| 0 <= i < rolls.len() ==> #[trigger] rolls[i] > CROSSOVER_THRESHOLD,
    ensures
        crossed(a, b, rolls) == b,
{
    assert(crossed(a, b, rolls) =~= b);
}

/// Mutation whose draws never trigger leaves the chromosome unchanged.
pub proof fn lemma_mutation_never_triggered(genes: Seq<u8>, rolls: Seq<u64>)
    requires
        genes.len() == rolls.len(),
        forall|i: int| 0 <= i < rolls.len() ==> #[trigger] rolls[i] <= MUTATION_THRESHOLD,
    ensures
        mutated(genes, rolls) == genes,
{
    assert(mutated(genes, rolls) =~= genes);
}

/// Mutation whose draws always trigger flips every gene of a binary chromosome.
pub proof fn lemma_mutation_always_triggered(genes: Seq<u8>, rolls: Seq<u64>)
    requires
        genes.len() == rolls.len(),
        is_binary(genes),
        forall|i: int| 0 <= i < rolls.len() ==> #[trigger] rolls[i] > MUTATION_THRESHOLD,
    ensures
        mutated(genes, rolls).len() == genes.len(),
        forall|i: int| 0 <= i < genes.len() ==> #[trigger] mutated(genes, rolls)[i] == 1 - genes[i],
{
    assert forall|i: int| 0 <= i < genes.len() implies #[trigger] mutated(genes, rolls)[i] == 1
        - genes[i] by {
        assert(genes[i] <= 1);
    }
}

/// Breeding keeps the chromosome binary and of the parents' length.
pub proof fn lemma_bred_is_binary(
    a: Seq<u8>,
    b: Seq<u8>,
    cross_rolls: Seq<u64>,
    mutation_rolls: Seq<u64>,
)
    requires
        a.len() == b.len(),
        a.len() == cross_rolls.len(),
        a.len() == mutation_rolls.len(),
        is_binary(a),
        is_binary(b),
    ensures
        bred(a, b, cross_rolls, mutation_rolls).len() == a.len(),
        is_binary(bred(a, b, cross_rolls, mutation_rolls)),
{
    let c = crossed(a, b, cross_rolls);
    assert forall|i: int| 0 <= i < a.len() implies #[trigger] bred(a, b, cross_rolls, mutation_rolls)[i] <= 1 by {
        assert(a[i] <= 1 && b[i] <= 1);
        assert(c[i] <= 1);
    }
}

/// Crossover of a pair with shared draws hands each position's two genes to
/// the two siblings, one each: either kept in place or swapped.
pub proof fn lemma_siblings_split_genes(a: Seq<u8>, b: Seq<u8>, rolls: Seq<u64>)
    requires
        a.len() == b.len(),
        a.len() == rolls.len(),
    ensures
        forall|i: int|
            0 <= i < a.len() ==> {
                ||| (#[trigger] crossed(a, b, rolls)[i] == a[i] && crossed(b, a, rolls)[i] == b[i])
                ||| (crossed(a, b, rolls)[i] == b[i] && crossed(b, a, rolls)[i] == a[i])
            },
{
}

/// Running sums never decrease.
pub proof fn lemma_prefix_sum_monotone(fitness: Seq<u64>, j: int, k: int)
    requires
        0 <= j <= k <= fitness.len(),
    ensures
        prefix_sum(fitness, j) <= prefix_sum(fitness, k),
    decreases k - j,
{
    if j < k {
        lemma_prefix_sum_monotone(fitness, j, k - 1);
    }
}

/// The roulette wheel is fitness-proportionate: each target in `1..=total`
/// selects exactly one index; the index it selects has positive fitness; and
/// the targets that select index `i` are exactly `fitness[i]` consecutive
/// values, so an index with fitness 0 is never selected.
pub proof fn lemma_wheel_is_proportionate(fitness: Seq<u64>, target: int, i: int, j: int)
    requires
        1 <= target <= total_fitness(fitness),
    ensures
        exists|k: int| wheel_picks(fitness, target, k),
        wheel_picks(fitness, target, i) ==> fitness[i] > 0,
        wheel_picks(fitness, target, i) && wheel_picks(fitness, target, j) ==> i == j,
        0 <= i < fitness.len() ==> (wheel_picks(fitness, target, i) <==> prefix_sum(fitness, i)
            < target <= prefix_sum(fitness, i) + fitness[i]),
{
    lemma_wheel_has_pick(fitness, target, fitness.len() as int);
    if wheel_picks(fitness, target, i) && wheel_picks(fitness, target, j) && i != j {
        if i < j {
            lemma_prefix_sum_monotone(fitness, i + 1, j);
        } else {
            lemma_prefix_sum_monotone(fitness, j + 1, i);
        }
    }
}

proof fn lemma_wheel_has_pick(fitness: Seq<u64>, target: int, k: int)
    requires
        0 <= k <= fitness.len(),
        1 <= target <= prefix_sum(fitness, k),
    ensures
        exists|i: int| wheel_picks(fitness, target, i),
    decreases k,
{
    if target <= prefix_sum(fitness, k - 1) {
        lemma_wheel_has_pick(fitness, target, k - 1);
    } else {
        assert(wheel_picks(fitness, target, k - 1));
    }
}

} // verus!
