use crate::block::{is_ore_kind, BlockKind};
use crate::samples::ColumnSamples;
use crate::settings::{valid_biome, BiomeSettings, OreSettings, NOISE_SCALE};
use crate::utils::{floor_div, in_bounds_y, in_bounds_y_spec};
use vstd::arithmetic::div_mod::{lemma_div_is_ordered, lemma_div_multiples_vanish};
use vstd::prelude::*;

verus! {

/// The surface row of a column: the terrain noise sample, scaled by the
/// biome's height multiplier and shifted by its height addition,
/// rounded toward negative infinity.
pub open spec fn surface_height_spec(terrain_sample: i64, b: BiomeSettings) -> int {
    b.height_addition + (terrain_sample * b.height_multiplier) / (NOISE_SCALE as int)
}

/// With valid settings and an in-range sample, the surface row lies
/// between `height_addition - height_multiplier` (at least bedrock) and
/// `height_addition + height_multiplier`.
pub proof fn lemma_surface_height_bounds(terrain_sample: i64, b: BiomeSettings)
    requires
        valid_biome(b),
        -NOISE_SCALE <= terrain_sample <= NOISE_SCALE,
    ensures
        0 <= b.height_addition - b.height_multiplier <= surface_height_spec(terrain_sample, b),
        surface_height_spec(terrain_sample, b) <= b.height_addition + b.height_multiplier,
{
    let s = NOISE_SCALE as int;
    let m = b.height_multiplier as int;
    let p = terrain_sample * b.height_multiplier;
    assert(s * -m <= p <= s * m) by (nonlinear_arith)
        requires
            -s <= terrain_sample <= s,
            0 <= m,
            p == terrain_sample * m,
    {
    }
    lemma_div_multiples_vanish(-m, s);
    lemma_div_multiples_vanish(m, s);
    lemma_div_is_ordered(s * -m, p, s);
    lemma_div_is_ordered(p, s * m, s);
}

/// Computes the surface row of a column from its terrain noise sample.
pub fn surface_height(terrain_sample: i64, b: &BiomeSettings) -> (r: i64)
    requires
        valid_biome(*b),
        -NOISE_SCALE <= terrain_sample <= NOISE_SCALE,
    ensures
        r == surface_height_spec(terrain_sample, *b),
        0 <= r <= b.height_addition + b.height_multiplier,
{
    proof {
        lemma_surface_height_bounds(terrain_sample, *b);
    }
    let scaled: i64 = floor_div(terrain_sample * b.height_multiplier, NOISE_SCALE);
    b.height_addition + scaled
}

/// A block exists (is solid) at a row exactly when its cave noise
/// sample exceeds the biome's air threshold.
pub open spec fn solid_spec(b: BiomeSettings, cave_sample: i64) -> bool {
    cave_sample > b.air_probability
}

/// An ore channel claims a row when its sample falls below the ore's
/// vein threshold and the row lies inside the ore's depth bounds.
pub open spec fn ore_hit(o: OreSettings, sample: i64, y: i64) -> bool {
    sample < o.size && in_bounds_y_spec(o.below, o.above, y)
}

/// Decides whether an ore's noise sample `v` places that ore at row `y`.
pub fn is_ore(v: i64, y: i64, ore_stgs: &OreSettings) -> (r: bool)
    ensures
        r == ore_hit(*ore_stgs, v, y),
{
    v < ore_stgs.size && in_bounds_y(ore_stgs.below, ore_stgs.above, y)
}

/// The first ore from priority position `k` on whose channel claims row
/// `y` of the column, or `None` when none does.
pub open spec fn ore_pick_from(ores: Seq<OreSettings>, col: ColumnSamples, y: i64, k: int) -> Option<
    int,
>
    decreases ores.len() - k,
{
    if k < 0 || k >= ores.len() {
        None
    } else if ore_hit(ores[k], col.ores@[k]@[y as int], y) {
        Some(k)
    } else {
        ore_pick_from(ores, col, y, k + 1)
    }
}

/// A successful pick names an in-range priority position whose channel
/// claims the row, and every position before it declined.
pub proof fn lemma_ore_pick_hit(ores: Seq<OreSettings>, col: ColumnSamples, y: i64, k: int, j: int)
    requires
        0 <= k,
        ore_pick_from(ores, col, y, k) == Some(j),
    ensures
        k <= j < ores.len(),
        ore_hit(ores[j], col.ores@[j]@[y as int], y),
    decreases ores.len() - k,
{
    if k < ores.len() && !ore_hit(ores[k], col.ores@[k]@[y as int], y) {
        lemma_ore_pick_hit(ores, col, y, k + 1, j);
    }
}

/// The material of a solid, non-bedrock block: the highest-priority
/// matching ore, else stone; near the surface the biome's exposed
/// materials override that choice, the sub-surface material first and
/// the top material last, so ore veins never surface through the crust.
pub open spec fn terrain_kind_spec(
    b: BiomeSettings,
    col: ColumnSamples,
    y: i64,
    height: int,
) -> BlockKind {
    let base = match ore_pick_from(b.ores@, col, y, 0) {
        Some(k) => b.ores@[k].kind,
        None => BlockKind::Stone,
    };
    let mid = if height - y < b.exposed_block_layer_height + b.exposed_block_top_layer_height {
        b.exposed_block
    } else {
        base
    };
    if height - y < b.exposed_block_top_layer_height {
        b.exposed_block_top
    } else {
        mid
    }
}

/// Whenever the chosen material is the ore at priority position `k`,
/// the row satisfies that ore's depth bounds.
pub proof fn lemma_terrain_kind_ore_depth(
    b: BiomeSettings,
    col: ColumnSamples,
    y: i64,
    height: int,
    k: int,
)
    requires
        valid_biome(b),
        0 <= k < b.ores@.len(),
        terrain_kind_spec(b, col, y, height) == b.ores@[k].kind,
    ensures
        in_bounds_y_spec(b.ores@[k].below, b.ores@[k].above, y),
{
    let picked = ore_pick_from(b.ores@, col, y, 0);
    if height - y < b.exposed_block_top_layer_height {
        assert(!is_ore_kind(b.exposed_block_top));
    } else if height - y < b.exposed_block_layer_height + b.exposed_block_top_layer_height {
        assert(!is_ore_kind(b.exposed_block));
    } else {
        match picked {
            Some(j) => {
                lemma_ore_pick_hit(b.ores@, col, y, 0, j);
                assert(j == k);
            },
            None => {
                assert(!is_ore_kind(BlockKind::Stone));
            },
        }
    }
}

/// Picks the material of one solid block by probing the ore channels in
/// priority order and then applying the exposed-layer overrides.
pub fn block_kind(b: &BiomeSettings, col: &ColumnSamples, y: i64, height: i64) -> (r: BlockKind)
    requires
        valid_biome(*b),
        col.ores@.len() == b.ores@.len(),
        forall|k: int| 0 <= k < col.ores@.len() ==> 0 <= y < (#[trigger] col.ores@[k])@.len(),
        0 <= y <= 2_000_000,
        -2_000_000 <= height <= 2_000_000,
    ensures
        r == terrain_kind_spec(*b, *col, y, height as int),
        height - y < b.exposed_block_top_layer_height ==> r == b.exposed_block_top,
{
    let mut kind = BlockKind::Stone;
    let mut k: usize = 0;
    let mut found = false;
    while k < b.ores.len() && !found
        invariant
            valid_biome(*b),
            col.ores@.len() == b.ores@.len(),
            forall|j: int| 0 <= j < col.ores@.len() ==> 0 <= y < (#[trigger] col.ores@[j])@.len(),
            0 <= y <= 2_000_000,
            0 <= k <= b.ores@.len(),
            if found {
                ore_pick_from(b.ores@, *col, y, 0) == Some((k - 1) as int) && kind == b.ores@[k
                    - 1].kind
            } else {
                ore_pick_from(b.ores@, *col, y, 0) == ore_pick_from(b.ores@, *col, y, k as int)
                    && kind == BlockKind::Stone
            },
        decreases b.ores@.len() - k,
    {
        let sample: i64 = col.ores[k][y as usize];
        assert(sample == col.ores@[k as int]@[y as int]);
        if is_ore(sample, y, &b.ores[k]) {
            kind = b.ores[k].kind;
            found = true;
            assert(ore_hit(b.ores@[k as int], col.ores@[k as int]@[y as int], y));
            assert(ore_pick_from(b.ores@, *col, y, k as int) == Some(k as int));
        } else {
            assert(ore_pick_from(b.ores@, *col, y, k as int) == ore_pick_from(
                b.ores@,
                *col,
                y,
                k as int + 1,
            ));
        }
        k = k + 1;
    }
    if !found {
        assert(ore_pick_from(b.ores@, *col, y, b.ores@.len() as int) is None);
    }
    if height - y < b.exposed_block_layer_height + b.exposed_block_top_layer_height {
        kind = b.exposed_block;
    }
    if height - y < b.exposed_block_top_layer_height {
        kind = b.exposed_block_top;
    }
    kind
}

} // verus!
