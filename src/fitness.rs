//! Fitness functions over binary chromosomes.
use vstd::arithmetic::power2::{
    lemma2_to64, lemma_pow2_strictly_increases, lemma_pow2_unfold, pow2,
};
use vstd::prelude::*;

verus! {

/// Length of the pattern that `exact_digits` scores against.
pub const TARGET_LENGTH: usize = 25;

/// The gene at position `i` of the pattern `1100000000000000000000011`.
pub open spec fn target_gene(i: int) -> u8 {
    if i < 2 || i >= TARGET_LENGTH - 2 {
        1
    } else {
        0
    }
}

/// The pattern `1100000000000000000000011`.
pub open spec fn target_pattern() -> Seq<u8> {
    Seq::new(TARGET_LENGTH as nat, |i: int| target_gene(i))
}

/// The number of positions below `k` at which `a` and `b` agree.
pub open spec fn count_matches(a: Seq<u8>, b: Seq<u8>, k: int) -> nat
    decreases k,
{
    if k <= 0 {
        0
    } else {
        count_matches(a, b, k - 1) + if a[k - 1] == b[k - 1] {
            1nat
        } else {
            0nat
        }
    }
}

/// 1 for a set gene, 0 for any other value.
pub open spec fn digit(gene: u8) -> nat {
    if gene == 1 {
        1
    } else {
        0
    }
}

/// The chromosome read as a binary number, its last gene least significant.
pub open spec fn binary_value(genes: Seq<u8>) -> nat
    decreases genes.len(),
{
    if genes.len() == 0 {
        0
    } else {
        2 * binary_value(genes.drop_last()) + digit(genes.last())
    }
}

proof fn lemma_binary_value_bound(genes: Seq<u8>)
    ensures
        binary_value(genes) < pow2(genes.len()),
    decreases genes.len(),
{
    if genes.len() == 0 {
        lemma2_to64();
    } else {
        lemma_binary_value_bound(genes.drop_last());
        lemma_pow2_unfold(genes.len());
    }
}

fn pattern() -> (r: Vec<u8>)
    ensures
        r@ == target_pattern(),
{
    let mut genes: Vec<u8> = Vec::with_capacity(TARGET_LENGTH);
    let mut i: usize = 0;
    while i < TARGET_LENGTH
        invariant
            i <= TARGET_LENGTH,
            genes@ =~= target_pattern().take(i as int),
        decreases TARGET_LENGTH - i,
    {
        if i < 2 || i >= TARGET_LENGTH - 2 {
            genes.push(1);
        } else {
            genes.push(0);
        }
        i += 1;
    }
    assert(genes@ =~= target_pattern());
    genes
}

/// The number of positions, up to the shorter length, at which `chromosome`
/// matches `target`.
pub fn matching_genes(target: &Vec<u8>, chromosome: &Vec<u8>) -> (r: u64)
    ensures
        r == count_matches(
            target@,
            chromosome@,
            if target@.len() <= chromosome@.len() {
                target@.len() as int
            } else {
                chromosome@.len() as int
            },
        ),
{
    let n = if target.len() <= chromosome.len() {
        target.len()
    } else {
        chromosome.len()
    };
    let mut count: u64 = 0;
    let mut i: usize = 0;
    while i < n
        invariant
            n <= target@.len(),
            n <= chromosome@.len(),
            i <= n,
            count == count_matches(target@, chromosome@, i as int),
            count <= i,
        decreases n - i,
    {
        if target[i] == chromosome[i] {
            count = count + 1;
        }
        i += 1;
    }
    count
}

/// Scores a chromosome by how many of its genes match the pattern
/// `1100000000000000000000011`.
pub fn exact_digits(chromosome: &Vec<u8>) -> (r: u64)
    ensures
        r == count_matches(
            target_pattern(),
            chromosome@,
            if chromosome@.len() < TARGET_LENGTH {
                chromosome@.len() as int
            } else {
                TARGET_LENGTH as int
            },
        ),
        r <= TARGET_LENGTH,
{
    let target = pattern();
    let r = matching_genes(&target, chromosome);
    proof {
        lemma_count_matches_bound(target@, chromosome@, if chromosome@.len() < TARGET_LENGTH {
            chromosome@.len() as int
        } else {
            TARGET_LENGTH as int
        });
    }
    r
}

proof fn lemma_count_matches_bound(a: Seq<u8>, b: Seq<u8>, k: int)
    requires
        k >= 0,
    ensures
        count_matches(a, b, k) <= k,
    decreases k,
{
    if k > 0 {
        lemma_count_matches_bound(a, b, k - 1);
    }
}

/// Scores a chromosome by its value as a binary number, last gene least
/// significant.
pub fn max_digits(chromosome: &Vec<u8>) -> (r: u64)
    requires
        chromosome@.len() <= 64,
    ensures
        r == binary_value(chromosome@),
{
    let mut value: u64 = 0;
    let mut i: usize = 0;
    while i < chromosome.len()
        invariant
            chromosome@.len() <= 64,
            i <= chromosome@.len(),
            value == binary_value(chromosome@.take(i as int)),
        decreases chromosome@.len() - i,
    {
        let ghost prefix = chromosome@.take(i as int + 1);
        proof {
            assert(prefix.drop_last() =~= chromosome@.take(i as int));
            lemma_binary_value_bound(prefix);
            lemma2_to64();
            if prefix.len() < 64 {
                lemma_pow2_strictly_increases(prefix.len(), 64);
            }
        }
        let d: u64 = if chromosome[i] == 1 {
            1
        } else {
            0
        };
        value = 2 * value + d;
        i += 1;
    }
    assert(chromosome@.take(chromosome@.len() as int) =~= chromosome@);
    value
}

/// Scores a chromosome by how far its binary value lies below `2^len`.
pub fn min_digits(chromosome: &Vec<u8>) -> (r: u64)
    requires
        chromosome@.len() < 64,
    ensures
        r == pow2(chromosome@.len()) - binary_value(chromosome@),
{
    let mut power: u64 = 1;
    let mut i: usize = 0;
    proof {
        lemma2_to64();
    }
    while i < chromosome.len()
        invariant
            chromosome@.len() < 64,
            i <= chromosome@.len(),
            power == pow2(i as nat),
        decreases chromosome@.len() - i,
    {
        proof {
            lemma2_to64();
            lemma_pow2_unfold(i as nat + 1);
            if i + 1 < 64 {
                lemma_pow2_strictly_increases(i as nat + 1, 64);
            }
        }
        power = 2 * power;
        i += 1;
    }
    proof {
        lemma_binary_value_bound(chromosome@);
    }
    power - max_digits(chromosome)
}

/// Positions below `k` all agree exactly when the count of agreements is `k`.
pub proof fn lemma_all_match(a: Seq<u8>, b: Seq<u8>, k: int)
    requires
        0 <= k,
        count_matches(a, b, k) == k,
    ensures
        forall|i: int| 0 <= i < k ==> #[trigger] a[i] == b[i],
    decreases k,
{
    if k > 0 {
        lemma_count_matches_bound(a, b, k - 1);
        lemma_all_match(a, b, k - 1);
    }
}

/// A chromosome of the pattern's length that `exact_digits` scores at the
/// maximum is the pattern itself.
pub proof fn lemma_full_score_is_pattern(chromosome: Seq<u8>)
    requires
        chromosome.len() == TARGET_LENGTH,
        count_matches(target_pattern(), chromosome, TARGET_LENGTH as int) == TARGET_LENGTH,
    ensures
        chromosome == target_pattern(),
{
    lemma_all_match(target_pattern(), chromosome, TARGET_LENGTH as int);
    assert(chromosome =~= target_pattern());
}

} // verus!
