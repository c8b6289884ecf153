use worldgen::samples::{ChunkSamples, ColumnSamples};
use worldgen::settings::{BiomeSettings, WorldSettings};
use worldgen::stream::{observer_chunk_position, World};
use worldgen::terrain::surface_height;

const SOLID: i64 = 0;

fn flat_samples(b: &BiomeSettings, terrain: i64) -> ChunkSamples {
    let mut columns = Vec::new();
    for _ in 0..16 {
        let h = surface_height(terrain, b) as usize;
        let mut ores = Vec::new();
        for _ in 0..b.ores.len() {
            ores.push(vec![SOLID; h + 1]);
        }
        columns.push(ColumnSamples {
            terrain,
            cave: vec![SOLID; h + 1],
            ores,
        });
    }
    ChunkSamples { columns }
}

fn window_samples(settings: &WorldSettings, render_distance: i64) -> Vec<ChunkSamples> {
    let mut list = Vec::new();
    for _ in 0..(2 * render_distance + 1) {
        list.push(flat_samples(&settings.plain, 0));
    }
    list
}

fn loaded_positions(w: &World) -> Vec<i64> {
    let mut ps: Vec<i64> = w.chunks.iter().map(|c| c.position).collect();
    ps.sort();
    ps
}

#[test]
fn first_pass_loads_exact_window() {
    let settings = WorldSettings::plains_default();
    let samples = window_samples(&settings, 2);
    let mut w = World::new(settings, 2).unwrap();
    assert!(w.needs_refresh(0));
    w.pass(0, &samples);
    assert_eq!(loaded_positions(&w), vec![-2, -1, 0, 1, 2]);
    assert!(!w.needs_refresh(0));
    assert!(w.needs_refresh(1));
}

#[test]
fn observer_jump_swaps_window() {
    // render distance 3, observer moves from chunk 0 to chunk 5 in one
    // tick: exactly chunks 2..=8 loaded, -3..=1 unloaded, none left over
    let settings = WorldSettings::plains_default();
    let samples = window_samples(&settings, 3);
    let mut w = World::new(settings, 3).unwrap();
    w.pass(0, &samples);
    assert_eq!(loaded_positions(&w), vec![-3, -2, -1, 0, 1, 2, 3]);
    w.pass(5, &samples);
    assert_eq!(loaded_positions(&w), vec![2, 3, 4, 5, 6, 7, 8]);
    for p in -3..2 {
        assert!(!w.is_loaded(p));
    }
}

#[test]
fn refresh_reports_missing_in_order() {
    let settings = WorldSettings::plains_default();
    let samples = window_samples(&settings, 3);
    let mut w = World::new(settings, 3).unwrap();
    w.pass(0, &samples);
    let missing = w.refresh(5);
    // chunks 2 and 3 survive the move, the rest of the window is missing
    assert_eq!(loaded_positions(&w), vec![2, 3]);
    assert_eq!(missing, vec![4, 5, 6, 7, 8]);
}

#[test]
fn kept_chunks_survive_eviction_byte_identical() {
    let settings = WorldSettings::plains_default();
    let samples = window_samples(&settings, 3);
    let mut w = World::new(settings, 3).unwrap();
    w.pass(0, &samples);
    let before = w
        .chunks
        .iter()
        .find(|c| c.position == 2)
        .unwrap()
        .blocks
        .clone();
    w.pass(5, &samples);
    let after = &w.chunks.iter().find(|c| c.position == 2).unwrap().blocks;
    assert_eq!(&before, after);
}

#[test]
fn reloaded_chunk_regenerates_identically() {
    let settings = WorldSettings::plains_default();
    let samples = window_samples(&settings, 1);
    let mut w = World::new(settings, 1).unwrap();
    w.pass(0, &samples);
    let before = w
        .chunks
        .iter()
        .find(|c| c.position == 1)
        .unwrap()
        .blocks
        .clone();
    w.pass(100, &samples); // chunk 1 evicted
    assert!(!w.is_loaded(1));
    w.pass(0, &samples); // and regenerated
    let after = &w.chunks.iter().find(|c| c.position == 1).unwrap().blocks;
    assert_eq!(&before, after);
}

#[test]
fn install_after_refresh_completes_window() {
    let settings = WorldSettings::plains_default();
    let plain_samples = flat_samples(&settings.plain, 0);
    let mut w = World::new(settings, 1).unwrap();
    let missing = w.refresh(10);
    assert_eq!(missing, vec![9, 10, 11]);
    for m in missing {
        assert!(!w.is_loaded(m));
        w.install_chunk(m, &plain_samples);
        assert!(w.is_loaded(m));
    }
    assert_eq!(loaded_positions(&w), vec![9, 10, 11]);
}

#[test]
fn observer_chunk_rounds_half_away_from_zero() {
    // a chunk is 16 blocks of 70 world units: 1120 units wide
    assert_eq!(observer_chunk_position(0, 70), 0);
    assert_eq!(observer_chunk_position(559, 70), 0);
    assert_eq!(observer_chunk_position(560, 70), 1);
    assert_eq!(observer_chunk_position(1120, 70), 1);
    assert_eq!(observer_chunk_position(1681, 70), 2);
    assert_eq!(observer_chunk_position(-559, 70), 0);
    assert_eq!(observer_chunk_position(-560, 70), -1);
    assert_eq!(observer_chunk_position(-1681, 70), -2);
}
