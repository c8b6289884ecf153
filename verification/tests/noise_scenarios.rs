use bracket_noise::prelude::{FastNoise, NoiseType};
use worldgen::samples::{ChunkSamples, ColumnSamples};
use worldgen::settings::{BiomeSettings, OreSettings, WorldSettings, NOISE_SCALE};
use worldgen::stream::World;
use worldgen::terrain::surface_height;

fn sampler(w: &WorldSettings) -> FastNoise {
    let mut noise = FastNoise::seeded(w.seed);
    noise.set_noise_type(NoiseType::PerlinFractal);
    noise.set_fractal_octaves(w.octaves as i32);
    noise.set_fractal_lacunarity(w.lacunarity as f32 / NOISE_SCALE as f32);
    noise
}

fn fixed(v: f32) -> i64 {
    let s = (v * NOISE_SCALE as f32).round() as i64;
    s.clamp(-NOISE_SCALE, NOISE_SCALE)
}

fn terrain_sample(noise: &mut FastNoise, b: &BiomeSettings, x: i64) -> i64 {
    noise.set_frequency(b.terrain_frequency as f32 / NOISE_SCALE as f32);
    // the second axis is pinned to the cave frequency to decorrelate
    // the terrain channel from the cave channel
    let z = b.cave_frequency as f32 / NOISE_SCALE as f32;
    fixed(noise.get_noise(x as f32 / b.terrain_divider as f32, z))
}

fn cave_sample(noise: &mut FastNoise, b: &BiomeSettings, x: i64, y: i64) -> i64 {
    noise.set_frequency(b.cave_frequency as f32 / NOISE_SCALE as f32);
    fixed(noise.get_noise(
        x as f32 / b.cave_divider as f32,
        y as f32 / b.cave_divider as f32,
    ))
}

fn ore_sample(
    noise: &mut FastNoise,
    step: i64,
    ore: &OreSettings,
    index: i64,
    x: i64,
    y: i64,
) -> i64 {
    noise.set_frequency(ore.rarity as f32 / NOISE_SCALE as f32);
    let px = (x + step * index) as f32 / ore.divider as f32;
    let py = (y + step * index) as f32 / ore.divider as f32;
    fixed(noise.get_noise(px, py))
}

fn sample_chunk(noise: &mut FastNoise, b: &BiomeSettings, chunk_x: i64) -> ChunkSamples {
    let mut columns = Vec::new();
    for k in 0..16i64 {
        let x = 16 * chunk_x + k + 1;
        let terrain = terrain_sample(noise, b, x);
        let h = surface_height(terrain, b) as usize;
        let mut cave = Vec::with_capacity(h + 1);
        for y in 0..=h {
            cave.push(cave_sample(noise, b, x, y as i64));
        }
        let mut ores = Vec::new();
        for (oi, ore) in b.ores.iter().enumerate() {
            let mut channel = Vec::with_capacity(h + 1);
            for y in 0..=h {
                channel.push(ore_sample(noise, b.ores_map_step, ore, oi as i64, x, y as i64));
            }
            ores.push(channel);
        }
        columns.push(ColumnSamples { terrain, cave, ores });
    }
    ChunkSamples { columns }
}

#[test]
fn surface_height_at_origin_is_stable() {
    let mut w = WorldSettings::plains_default();
    w.seed = 59_900;
    let t1 = terrain_sample(&mut sampler(&w), &w.plain, 0);
    let t2 = terrain_sample(&mut sampler(&w), &w.plain, 0);
    assert_eq!(t1, t2);
    let h = surface_height(t1, &w.plain);
    assert_eq!(h, surface_height(t2, &w.plain));
    // regression pin: the plains surface at column zero for this seed
    assert_eq!(h, 90);
}

#[test]
fn sampled_chunks_are_well_formed() {
    let mut w = WorldSettings::plains_default();
    w.seed = 59_900;
    for chunk_x in [-2, 0, 7] {
        let samples = sample_chunk(&mut sampler(&w), &w.plain, chunk_x);
        assert!(samples.well_formed(&w.plain));
    }
}

#[test]
fn real_noise_chunk_is_deterministic() {
    let mut w = WorldSettings::plains_default();
    w.seed = 59_900;
    let s1 = sample_chunk(&mut sampler(&w), &w.plain, 0);
    let s2 = sample_chunk(&mut sampler(&w), &w.plain, 0);
    let b1 = worldgen::gen::generate_chunk(w.seed, &w.plain, 0, &s1);
    let b2 = worldgen::gen::generate_chunk(w.seed, &w.plain, 0, &s2);
    assert_eq!(b1, b2);
    assert!(!b1.is_empty());
    for i in 0..b1.len() {
        for j in (i + 1)..b1.len() {
            assert!(!(b1[i].x == b1[j].x && b1[i].y == b1[j].y));
        }
    }
}

#[test]
fn real_noise_pass_fills_window() {
    let mut settings = WorldSettings::plains_default();
    settings.seed = 59_900;
    let mut list = Vec::new();
    for c in -1..=1 {
        list.push(sample_chunk(&mut sampler(&settings), &settings.plain, c));
    }
    let mut w = World::new(settings, 1).unwrap();
    w.pass(0, &list);
    for c in -1..=1 {
        assert!(w.is_loaded(c));
    }
    assert_eq!(w.chunks.len(), 3);
    for ch in &w.chunks {
        assert!(!ch.blocks.is_empty());
    }
}
