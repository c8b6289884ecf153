use crate::gen::CHUNK_SIZE;
use crate::settings::{valid_biome, BiomeSettings, NOISE_SCALE};
use crate::terrain::{surface_height, surface_height_spec};
use vstd::prelude::*;

verus! {

/// The noise inputs for one column of a chunk, as fixed-point integers
/// (`NOISE_SCALE` steps per unit of noise): one terrain sample for the
/// surface height, one cave sample per row `0..=surface`, and one such
/// row vector per ore channel, in the biome's ore priority order.
#[derive(Clone, Debug)]
pub struct ColumnSamples {
    pub terrain: i64,
    pub cave: Vec<i64>,
    pub ores: Vec<Vec<i64>>,
}

/// The noise inputs for one chunk: one `ColumnSamples` per column.
#[derive(Clone, Debug)]
pub struct ChunkSamples {
    pub columns: Vec<ColumnSamples>,
}

/// A column's samples fit the biome: the terrain sample is one noise
/// unit at most, and the cave and ore channels each cover exactly the
/// rows `0..=surface`.
pub open spec fn wf_column(c: ColumnSamples, b: BiomeSettings) -> bool {
    &&& -NOISE_SCALE <= c.terrain <= NOISE_SCALE
    &&& c.cave@.len() == surface_height_spec(c.terrain, b) + 1
    &&& c.ores@.len() == b.ores@.len()
    &&& (forall|k: int| 0 <= k < c.ores@.len() ==> (#[trigger] c.ores@[k])@.len() == c.cave@.len())
}

/// A chunk's samples fit the biome: one well-formed column per column
/// of the chunk.
pub open spec fn wf_chunk(s: ChunkSamples, b: BiomeSettings) -> bool {
    &&& s.columns@.len() == CHUNK_SIZE
    &&& (forall|i: int| 0 <= i < s.columns@.len() ==> wf_column(#[trigger] s.columns@[i], b))
}

impl ColumnSamples {
    /// Decides whether this column's samples fit the biome.
    pub fn well_formed(&self, b: &BiomeSettings) -> (r: bool)
        requires
            valid_biome(*b),
        ensures
            r == wf_column(*self, *b),
    {
        if !(-NOISE_SCALE <= self.terrain && self.terrain <= NOISE_SCALE) {
            return false;
        }
        let h: i64 = surface_height(self.terrain, b);
        if self.cave.len() != (h as usize) + 1 {
            return false;
        }
        if self.ores.len() != b.ores.len() {
            return false;
        }
        let mut k: usize = 0;
        while k < self.ores.len()
            invariant
                0 <= k <= self.ores@.len(),
                forall|j: int|
                    0 <= j < k ==> (#[trigger] self.ores@[j])@.len() == self.cave@.len(),
            decreases self.ores@.len() - k,
        {
            if self.ores[k].len() != self.cave.len() {
                return false;
            }
            k = k + 1;
        }
        true
    }
}

impl ChunkSamples {
    /// Decides whether this chunk's samples fit the biome.
    pub fn well_formed(&self, b: &BiomeSettings) -> (r: bool)
        requires
            valid_biome(*b),
        ensures
            r == wf_chunk(*self, *b),
    {
        if self.columns.len() != 16 {
            return false;
        }
        let mut i: usize = 0;
        while i < self.columns.len()
            invariant
                0 <= i <= self.columns@.len(),
                valid_biome(*b),
                forall|j: int| 0 <= j < i ==> wf_column(#[trigger] self.columns@[j], *b),
            decreases self.columns@.len() - i,
        {
            if !self.columns[i].well_formed(b) {
                return false;
            }
            i = i + 1;
        }
        true
    }
}

/// The coordinate at which an ore channel is probed: the block
/// coordinate shifted by the channel's decorrelation offset, `step`
/// times the ore's priority position.
pub fn ore_probe_coordinate(v: i64, step: i64, k: i64) -> (r: i64)
    requires
        -10_000_000_000_000 <= v <= 10_000_000_000_000,
        0 <= step <= 1_000_000,
        0 <= k <= 16,
    ensures
        r == v + step * k,
{
    assert(0 <= step * k <= 16_000_000) by (nonlinear_arith)
        requires
            0 <= step <= 1_000_000,
            0 <= k <= 16,
    {
    }
    v + step * k
}

} // verus!
