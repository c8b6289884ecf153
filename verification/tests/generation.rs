use worldgen::block::{Block, BlockKind};
use worldgen::gen::generate_chunk;
use worldgen::samples::{ChunkSamples, ColumnSamples};
use worldgen::settings::{BiomeSettings, TreeKind, WorldSettings};
use worldgen::terrain::{is_ore, surface_height};
use worldgen::utils::in_bounds_y;
use rand::{RngCore, SeedableRng};
use rand_chacha::ChaCha8Rng;
use std::cmp::Ordering;

const AIR: i64 = -500_000;
const SOLID: i64 = 0;

fn plains() -> BiomeSettings {
    WorldSettings::plains_default().plain
}

/// Uniform samples: the same terrain sample for every column, the same
/// cave sample for every row, and ore channels that never fire.
fn flat_samples(b: &BiomeSettings, terrain: i64, cave: i64) -> ChunkSamples {
    let mut columns = Vec::new();
    for _ in 0..16 {
        let h = surface_height(terrain, b) as usize;
        let mut ores = Vec::new();
        for _ in 0..b.ores.len() {
            ores.push(vec![SOLID; h + 1]);
        }
        columns.push(ColumnSamples {
            terrain,
            cave: vec![cave; h + 1],
            ores,
        });
    }
    ChunkSamples { columns }
}

fn find_blocks(blocks: &[Block], x: i64, y: i64) -> Vec<Block> {
    blocks.iter().copied().filter(|b| b.x == x && b.y == y).collect()
}

#[test]
fn determinism_same_inputs_same_blocks() {
    let b = plains();
    let samples = flat_samples(&b, 250_000, SOLID);
    assert!(samples.well_formed(&b));
    let first = generate_chunk(59_900, &b, 3, &samples);
    let second = generate_chunk(59_900, &b, 3, &samples);
    assert_eq!(first, second);
    assert!(!first.is_empty());
}

#[test]
fn no_two_blocks_share_a_coordinate() {
    let mut b = plains();
    b.tree_chance = 1; // a tree on every surface block
    let samples = flat_samples(&b, 0, SOLID);
    let blocks = generate_chunk(7, &b, 0, &samples);
    for i in 0..blocks.len() {
        for j in (i + 1)..blocks.len() {
            assert!(
                !(blocks[i].x == blocks[j].x && blocks[i].y == blocks[j].y),
                "duplicate at ({}, {})",
                blocks[i].x,
                blocks[i].y
            );
        }
    }
}

#[test]
fn bedrock_fills_row_zero() {
    let b = plains();
    let samples = flat_samples(&b, 0, AIR); // caves everywhere above row zero
    let blocks = generate_chunk(1, &b, 2, &samples);
    // columns of chunk 2 are x = 33..=48: one bedrock each, nothing else
    assert_eq!(blocks.len(), 16);
    for (k, blk) in blocks.iter().enumerate() {
        assert_eq!(blk.x, 33 + k as i64);
        assert_eq!(blk.y, 0);
        assert_eq!(blk.kind, BlockKind::Bedrock);
        assert!(blk.collidable);
    }
}

#[test]
fn cave_sample_below_threshold_leaves_air() {
    let b = plains();
    let mut samples = flat_samples(&b, 0, SOLID);
    let h = surface_height(0, &b);
    assert_eq!(h, 90);
    // carve one cell out of column index 4 (x = 5 in chunk 0)
    samples.columns[4].cave[40] = AIR;
    let blocks = generate_chunk(0, &b, 0, &samples);
    assert!(find_blocks(&blocks, 5, 40).is_empty());
    assert_eq!(find_blocks(&blocks, 5, 39).len(), 1);
    assert_eq!(find_blocks(&blocks, 5, 41).len(), 1);
}

#[test]
fn ore_priority_first_match_wins() {
    let b = plains();
    let mut samples = flat_samples(&b, 0, SOLID);
    // ores are listed rarest first: diamond, gold, iron, copper, coal
    // diamond (depth y <= 15) and iron (unbounded) both fire at y = 10
    samples.columns[0].ores[0][10] = -300_000;
    samples.columns[0].ores[2][10] = -300_000;
    // only iron fires at y = 11
    samples.columns[0].ores[2][11] = -300_000;
    let blocks = generate_chunk(0, &b, 0, &samples);
    assert_eq!(find_blocks(&blocks, 1, 10)[0].kind, BlockKind::DiamondOre);
    assert_eq!(find_blocks(&blocks, 1, 11)[0].kind, BlockKind::IronOre);
    assert_eq!(find_blocks(&blocks, 1, 12)[0].kind, BlockKind::Stone);
}

#[test]
fn ore_depth_bounds_respected() {
    let b = plains();
    let mut samples = flat_samples(&b, 0, SOLID);
    // coal carries `above = 20`: it may only appear at rows y >= 20;
    // diamond carries `below = 15`: never above row 15
    for y in 0..=90usize {
        samples.columns[2].ores[4][y] = -300_000; // coal channel always fires
        samples.columns[4].ores[0][y] = -999_999; // diamond channel always fires
    }
    let blocks = generate_chunk(0, &b, 0, &samples);
    for blk in &blocks {
        if blk.kind == BlockKind::CoalOre {
            assert!(blk.y >= 20, "coal outside its depth bound at y = {}", blk.y);
        }
        if blk.kind == BlockKind::DiamondOre {
            assert!(blk.y <= 15, "diamond outside its depth bound at y = {}", blk.y);
        }
    }
    // rows 1..20 of the coal column stay stone even though the channel fires
    for y in 1..20 {
        assert_eq!(find_blocks(&blocks, 3, y)[0].kind, BlockKind::Stone);
    }
    assert_eq!(find_blocks(&blocks, 3, 20)[0].kind, BlockKind::CoalOre);
    // the diamond column turns back to stone above row 15
    assert_eq!(find_blocks(&blocks, 5, 15)[0].kind, BlockKind::DiamondOre);
    assert_eq!(find_blocks(&blocks, 5, 16)[0].kind, BlockKind::Stone);
}

#[test]
fn surface_layers_override_ores() {
    let b = plains();
    let mut samples = flat_samples(&b, 0, SOLID);
    let h = surface_height(0, &b); // 90
    for y in 0..=(h as usize) {
        samples.columns[6].ores[2][y] = -999_999; // an iron vein everywhere
    }
    let blocks = generate_chunk(0, &b, 0, &samples);
    let x = 7;
    // top layer (depth < 1): grass, never an ore
    assert_eq!(find_blocks(&blocks, x, h)[0].kind, BlockKind::Grass);
    // sub-surface layer (depth < 4): dirt
    for y in (h - 3)..h {
        assert_eq!(find_blocks(&blocks, x, y)[0].kind, BlockKind::Dirt);
    }
    // below the crust the vein shows
    assert_eq!(find_blocks(&blocks, x, h - 4)[0].kind, BlockKind::IronOre);
}

#[test]
fn tree_grows_on_surface() {
    let mut b = plains();
    b.tree_chance = 1;
    let mut samples = flat_samples(&b, 0, SOLID);
    let h = surface_height(0, &b); // 90
    for k in 0..16 {
        if k != 7 {
            samples.columns[k].cave[h as usize] = AIR; // only column 7 keeps its surface
        }
    }
    let blocks = generate_chunk(0, &b, 0, &samples);
    let x = 8;
    // trunk: three logs then three leafed logs, rooted just above the surface
    for i in 0..3 {
        let t = find_blocks(&blocks, x, h + 1 + i);
        assert_eq!(t.len(), 1);
        assert_eq!(t[0].kind, BlockKind::OakLog);
        assert!(!t[0].collidable);
    }
    for i in 3..6 {
        let t = find_blocks(&blocks, x, h + 1 + i);
        assert_eq!(t[0].kind, BlockKind::LeafedOakLog);
    }
    // cap above the trunk
    assert_eq!(find_blocks(&blocks, x, h + 7)[0].kind, BlockKind::Leaves);
}

#[test]
fn colliding_tree_block_is_omitted_not_the_tree() {
    let mut b = plains();
    b.tree_chance = 1;
    b.height_multiplier = 100;
    b.height_addition = 100;
    let mut samples = flat_samples(&b, -920_000, SOLID); // every column h = 8
    for k in 0..16 {
        let h = surface_height(samples.columns[k].terrain, &b) as usize;
        samples.columns[k].cave[h] = AIR; // no surface block, so no tree
    }
    // column index 1 (x = 2): tall, air at rows 11/13/14, iron ore at row 12
    let tall: i64 = -800_000; // h = 100 + floor(-800000*100/1e6) = 20
    let h_tall = surface_height(tall, &b) as usize;
    assert_eq!(h_tall, 20);
    let mut ores = Vec::new();
    for _ in 0..b.ores.len() {
        ores.push(vec![SOLID; h_tall + 1]);
    }
    let mut col_a = ColumnSamples {
        terrain: tall,
        cave: vec![SOLID; h_tall + 1],
        ores,
    };
    col_a.cave[11] = AIR;
    col_a.cave[13] = AIR;
    col_a.cave[14] = AIR;
    col_a.cave[20] = AIR; // no surface block here either
    col_a.ores[2][12] = -300_000; // iron fires at (2, 12)
    samples.columns[1] = col_a;
    // column index 3 (x = 4) keeps its surface block and hosts the tree
    let h_b = surface_height(samples.columns[3].terrain, &b) as usize;
    assert_eq!(h_b, 8);
    samples.columns[3].cave[h_b] = SOLID;
    assert!(samples.well_formed(&b));

    let blocks = generate_chunk(0, &b, 0, &samples);
    // the tree stands at (4, 9)
    assert_eq!(find_blocks(&blocks, 4, 9)[0].kind, BlockKind::OakLog);
    // its canopy reaches x = 2, rows 11..=14; (2, 12) is the ore and is
    // skipped, the other three canopy blocks are placed
    let at_12 = find_blocks(&blocks, 2, 12);
    assert_eq!(at_12.len(), 1);
    assert_eq!(at_12[0].kind, BlockKind::IronOre);
    assert!(at_12[0].collidable);
    for y in [11, 13, 14] {
        let at = find_blocks(&blocks, 2, y);
        assert_eq!(at.len(), 1, "missing canopy block at (2, {})", y);
        assert_eq!(at[0].kind, BlockKind::Leaves);
        assert!(!at[0].collidable);
    }
}

#[test]
fn cactus_builds_three_blocks() {
    let mut b = plains();
    b.tree_chance = 1;
    b.tree_kind = TreeKind::Cactus;
    let samples = flat_samples(&b, 0, SOLID);
    let h = surface_height(0, &b);
    let blocks = generate_chunk(0, &b, 0, &samples);
    for i in 1..=3 {
        let t = find_blocks(&blocks, 5, h + i);
        assert_eq!(t.len(), 1);
        assert_eq!(t[0].kind, BlockKind::Cactus);
        assert!(!t[0].collidable);
    }
    assert!(find_blocks(&blocks, 5, h + 4).is_empty());
}

#[test]
fn surface_height_formula() {
    let b = plains(); // multiplier 40, addition 90
    assert_eq!(surface_height(0, &b), 90);
    assert_eq!(surface_height(1_000_000, &b), 130);
    assert_eq!(surface_height(-1_000_000, &b), 50);
    assert_eq!(surface_height(250_000, &b), 100);
    assert_eq!(surface_height(-250_001, &b), 79); // floors toward negative infinity
}

#[test]
fn map_remaps_linearly() {
    assert_eq!(worldgen::utils::map(5, 0, 10, 0, 100), 0); // integer division floors the ratio
    assert_eq!(worldgen::utils::map(10, 0, 10, 0, 100), 100);
    assert_eq!(worldgen::utils::map(0, 0, 10, 20, 40), 20);
    assert_eq!(worldgen::utils::map(7, 7, 9, -5, 5), -5);
}

#[test]
fn depth_bound_checks() {
    assert!(in_bounds_y(None, None, 42));
    assert!(in_bounds_y(Some(20), None, 20));
    assert!(!in_bounds_y(Some(20), None, 21));
    assert!(in_bounds_y(None, Some(5), 5));
    assert!(!in_bounds_y(None, Some(5), 4));
    assert!(in_bounds_y(Some(30), Some(5), 17));
}

#[test]
fn is_ore_needs_threshold_and_depth() {
    let b = plains();
    let gold = b.ores[1]; // size -250_000, below 30, above 5
    assert!(is_ore(-300_000, 10, &gold));
    assert!(!is_ore(-200_000, 10, &gold)); // sample too large
    assert!(!is_ore(-300_000, 31, &gold)); // too high
    assert!(!is_ore(-300_000, 4, &gold)); // too deep
}

#[test]
fn cmp_opt_lit_orders_optional_bounds() {
    assert_eq!(worldgen::utils::cmp_opt_lit(Some(3), 5, Ordering::Greater), Ordering::Less);
    assert_eq!(worldgen::utils::cmp_opt_lit(Some(5), 5, Ordering::Greater), Ordering::Equal);
    assert_eq!(worldgen::utils::cmp_opt_lit(Some(9), 5, Ordering::Less), Ordering::Greater);
    assert_eq!(worldgen::utils::cmp_opt_lit(None, 5, Ordering::Greater), Ordering::Greater);
    assert_eq!(worldgen::utils::cmp_opt_lit(None, 5, Ordering::Less), Ordering::Less);
}

#[test]
fn tree_trials_follow_the_seeded_stream() {
    let mut b = plains();
    b.tree_chance = 3;
    let samples = flat_samples(&b, 0, SOLID);
    let h = surface_height(0, &b);
    let seed: u64 = 424_242;
    let blocks = generate_chunk(seed, &b, 0, &samples);
    let mut some_tree = false;
    let mut some_bare = false;
    for x in 1..=16i64 {
        let column_seed = seed ^ ((x + 0x4000_0000_0000_0000) as u64);
        let draw = ChaCha8Rng::seed_from_u64(column_seed).next_u64();
        let expect_tree = draw % 3 == 0;
        // the trunk root sits one row above the surface of its column,
        // unless a neighbouring canopy already claimed that cell
        let at_root = find_blocks(&blocks, x, h + 1);
        let has_trunk = at_root
            .iter()
            .any(|t| t.kind == BlockKind::OakLog || t.kind == BlockKind::LeafedOakLog);
        if expect_tree {
            assert!(!at_root.is_empty(), "expected a structure block at ({x}, {})", h + 1);
        }
        if has_trunk {
            assert!(expect_tree, "unexpected trunk at ({x}, {})", h + 1);
            some_tree = true;
        }
        if at_root.is_empty() {
            assert!(!expect_tree);
            some_bare = true;
        }
    }
    assert!(some_tree && some_bare, "the draws should vary across columns");
}
