//! The initial seed plan: how many random seeds of each size to generate.
use vstd::prelude::*;

verus! {

/// Number of distinct seed sizes.
pub const SEED_SIZE_COUNT: usize = 5;

/// The seed size at position `i` of the spread {4, 16, 32, 64, 128}.
pub open spec fn spec_seed_size(i: int) -> usize {
    if i == 0 {
        4
    } else if i == 1 {
        16
    } else if i == 2 {
        32
    } else if i == 3 {
        64
    } else {
        128
    }
}

/// How many of `total` seeds get the size at position `i`: an even share,
/// with the remainder going to the earliest sizes.
pub open spec fn spec_seeds_for(total: usize, i: int) -> usize {
    (total / SEED_SIZE_COUNT + if i < (total % SEED_SIZE_COUNT) as int { 1usize } else { 0usize }) as usize
}

/// One entry of the seed plan.
#[derive(Debug, Clone, Copy, PartialEq, Eq, Structural)]
pub struct SeedBatch {
    /// Length in bytes of each seed of the batch.
    pub size: usize,
    /// Number of seeds of that length.
    pub count: usize,
}

/// The size of the seeds at position `i` of the spread.
pub fn seed_size(i: usize) -> (r: usize)
    requires
        i < SEED_SIZE_COUNT,
    ensures
        r == spec_seed_size(i as int),
{
    if i == 0 {
        4
    } else if i == 1 {
        16
    } else if i == 2 {
        32
    } else if i == 3 {
        64
    } else {
        128
    }
}

/// Splits `total` seeds over the five sizes, in order of size.
pub fn seed_plan(total: usize) -> (r: Vec<SeedBatch>)
    ensures
        r@.len() == SEED_SIZE_COUNT,
        forall|i: int|
            #![trigger r@[i]]
            0 <= i < SEED_SIZE_COUNT ==> r@[i].size == spec_seed_size(i) && r@[i].count
                == spec_seeds_for(total, i),
{
    let share = total / SEED_SIZE_COUNT;
    let remainder = total % SEED_SIZE_COUNT;
    let mut r: Vec<SeedBatch> = Vec::new();
    let mut i: usize = 0;
    while i < SEED_SIZE_COUNT
        invariant
            i <= SEED_SIZE_COUNT,
            share == total / SEED_SIZE_COUNT,
            remainder == total % SEED_SIZE_COUNT,
            r@.len() == i,
            forall|j: int|
                0 <= j < i ==> r@[j].size == spec_seed_size(j) && r@[j].count == spec_seeds_for(
                    total,
                    j,
                ),
        decreases SEED_SIZE_COUNT - i,
    {
        let extra: usize = if i < remainder { 1 } else { 0 };
        let batch = SeedBatch { size: seed_size(i), count: share + extra };
        assert(batch.count == spec_seeds_for(total, i as int));
        let ghost prev = r@;
        r.push(batch);
        assert(forall|j: int| 0 <= j < i ==> r@[j] == prev[j]);
        i = i + 1;
    }
    assert(i == SEED_SIZE_COUNT);
    assert(forall|j: int| 0 <= j < SEED_SIZE_COUNT ==> r@[j].size == spec_seed_size(j));
    r
}

/// The plan generates exactly the requested number of seeds.
pub proof fn lemma_seed_plan_total(total: usize)
    ensures
        spec_seeds_for(total, 0) + spec_seeds_for(total, 1) + spec_seeds_for(total, 2)
            + spec_seeds_for(total, 3) + spec_seeds_for(total, 4) == total,
{
}

} // verus!
