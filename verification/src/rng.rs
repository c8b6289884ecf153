use rand::{RngCore, SeedableRng};
use rand_chacha::ChaCha8Rng;
use vstd::prelude::*;

verus! {

/// The first 64-bit draw of a ChaCha8 stream seeded with `seed`.
pub uninterp spec fn chacha_first_draw(seed: u64) -> u64;

/// Relies on rand_chacha's `ChaCha8Rng`: `seed_from_u64` expands the
/// 64-bit seed by a fixed arithmetic recipe that rand_core documents as
/// value-stable, and `next_u64` on the freshly seeded generator returns
/// the stream's first draw — a pure, platform-independent function of
/// the seed alone.
#[verifier::external_body]
fn first_draw(seed: u64) -> (r: u64)
    ensures
        r == chacha_first_draw(seed),
{
    let mut rng = ChaCha8Rng::seed_from_u64(seed);
    rng.next_u64()
}

/// The seed of one column's structure draw: the world seed combined
/// with the column coordinate, shifted to a non-negative offset so that
/// every column in reach has its own stream. Columns draw from
/// separate deterministically seeded streams rather than one shared
/// advancing stream: outcomes stay decorrelated across columns, and a
/// regenerated chunk reproduces its structures exactly.
pub open spec fn column_seed_spec(seed: u64, x: i64) -> u64 {
    seed ^ ((x + 0x4000_0000_0000_0000) as u64)
}

/// A surface column hosts a structure exactly when its deterministic
/// draw falls on zero modulo the biome's tree chance: one surface block
/// in `tree_chance` on average.
pub open spec fn tree_decision(seed: u64, tree_chance: i64, x: i64) -> bool {
    chacha_first_draw(column_seed_spec(seed, x)) % (tree_chance as u64) == 0
}

/// Draws the Bernoulli trial for one surface column from the seeded
/// structure stream.
pub fn tree_trial(seed: u64, tree_chance: i64, x: i64) -> (r: bool)
    requires
        1 <= tree_chance,
        -2_000_000_000_000 <= x <= 2_000_000_000_000,
    ensures
        r == tree_decision(seed, tree_chance, x),
{
    let offset: i64 = x + 0x4000_0000_0000_0000;
    let column_seed: u64 = seed ^ (offset as u64);
    let draw: u64 = first_draw(column_seed);
    draw % (tree_chance as u64) == 0
}

} // verus!
