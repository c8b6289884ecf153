use crate::block::{is_ore_kind, is_structure_kind, Block, BlockKind};
use crate::rng::{tree_decision, tree_trial};
use crate::samples::{wf_chunk, wf_column, ChunkSamples, ColumnSamples};
use crate::settings::{valid_biome, BiomeSettings};
use crate::structure::{claimed_contains, place_blocks_spec, place_structure, structure_blocks};
use crate::terrain::{
    block_kind, lemma_terrain_kind_ore_depth, solid_spec, surface_height, surface_height_spec,
    terrain_kind_spec,
};
use crate::utils::in_bounds_y_spec;
use vstd::prelude::*;

verus! {

broadcast use vstd::seq_lib::lemma_seq_contains_after_push;

/// The width of one chunk, in columns.
pub const CHUNK_SIZE: i64 = 16;

/// Chunk coordinates the streamer may request stay inside this bound.
pub const CHUNK_COORD_LIMIT: i64 = 1_000_000_000;

/// One row of one column, applied to the generation state `(claimed,
/// out)`. Row zero is unconditionally bedrock. A higher row exists only
/// when its cave sample exceeds the air threshold and its coordinate is
/// still unclaimed; the surface row may first drop a structure, and the
/// block itself takes the terrain material for its depth and is
/// claimed.
pub open spec fn row_step(
    b: BiomeSettings,
    seed: u64,
    x: i64,
    height: i64,
    col: ColumnSamples,
    y: i64,
    claimed: Seq<(i64, i64)>,
    out: Seq<Block>,
) -> (Seq<(i64, i64)>, Seq<Block>) {
    if y == 0 {
        (claimed, out.push(Block { kind: BlockKind::Bedrock, x, y: 0, collidable: true }))
    } else if !solid_spec(b, col.cave@[y as int]) {
        (claimed, out)
    } else if claimed.contains((x, y)) {
        (claimed, out)
    } else {
        let st = if y == height && tree_decision(seed, b.tree_chance, x) {
            place_blocks_spec(structure_blocks(b.tree_kind, x, (y + 1) as i64), claimed, out)
        } else {
            (claimed, out)
        };
        (
            st.0.push((x, y)),
            st.1.push(
                Block {
                    kind: terrain_kind_spec(b, col, y, height as int),
                    x,
                    y,
                    collidable: true,
                },
            ),
        )
    }
}

/// Rows `0..n` of one column, processed bottom-up over the incoming
/// generation state.
pub open spec fn rows_spec(
    b: BiomeSettings,
    seed: u64,
    x: i64,
    height: i64,
    col: ColumnSamples,
    n: int,
    claimed: Seq<(i64, i64)>,
    out: Seq<Block>,
) -> (Seq<(i64, i64)>, Seq<Block>)
    decreases n,
{
    if n <= 0 {
        (claimed, out)
    } else {
        let st = rows_spec(b, seed, x, height, col, n - 1, claimed, out);
        row_step(b, seed, x, height, col, (n - 1) as i64, st.0, st.1)
    }
}

/// The first `k` columns of the chunk at `chunk_x`, processed left to
/// right from the empty state. Column `i` covers world column
/// `CHUNK_SIZE * chunk_x + i + 1` over rows `0..=surface`.
pub open spec fn columns_spec(
    b: BiomeSettings,
    seed: u64,
    chunk_x: i64,
    s: ChunkSamples,
    k: int,
) -> (Seq<(i64, i64)>, Seq<Block>)
    decreases k,
{
    if k <= 0 {
        (Seq::empty(), Seq::empty())
    } else {
        let st = columns_spec(b, seed, chunk_x, s, k - 1);
        let col = s.columns@[k - 1];
        let x = (CHUNK_SIZE * chunk_x + k) as i64;
        let h = surface_height_spec(col.terrain, b);
        rows_spec(b, seed, x, h as i64, col, h + 1, st.0, st.1)
    }
}

/// Every block of the chunk at `chunk_x`, in generation order: a pure
/// function of the seed, the biome settings, the chunk coordinate and
/// its noise samples.
pub open spec fn chunk_blocks_spec(
    b: BiomeSettings,
    seed: u64,
    chunk_x: i64,
    s: ChunkSamples,
) -> Seq<Block> {
    columns_spec(b, seed, chunk_x, s, CHUNK_SIZE as int).1
}

/// Materializes one chunk. The result is exactly
/// `chunk_blocks_spec(settings, seed, chunk_x, samples)`: regenerating
/// an evicted chunk from the same seed, settings and samples reproduces
/// it block for block.
pub fn generate_chunk(seed: u64, b: &BiomeSettings, chunk_x: i64, samples: &ChunkSamples) -> (blocks:
    Vec<Block>)
    requires
        valid_biome(*b),
        wf_chunk(*samples, *b),
        -CHUNK_COORD_LIMIT <= chunk_x <= CHUNK_COORD_LIMIT,
    ensures
        blocks@ == chunk_blocks_spec(*b, seed, chunk_x, *samples),
{
    let mut claimed: Vec<(i64, i64)> = Vec::new();
    let mut out: Vec<Block> = Vec::new();
    let mut k: usize = 0;
    while k < 16
        invariant
            valid_biome(*b),
            wf_chunk(*samples, *b),
            -CHUNK_COORD_LIMIT <= chunk_x <= CHUNK_COORD_LIMIT,
            0 <= k <= 16,
            (claimed@, out@) == columns_spec(*b, seed, chunk_x, *samples, k as int),
        decreases 16 - k,
    {
        let col: &ColumnSamples = &samples.columns[k];
        let x: i64 = CHUNK_SIZE * chunk_x + (k as i64) + 1;
        let h: i64 = surface_height(col.terrain, b);
        let ghost st_col: (Seq<(i64, i64)>, Seq<Block>) = (claimed@, out@);
        let mut y: i64 = 0;
        while y <= h
            invariant
                valid_biome(*b),
                wf_column(*col, *b),
                col == samples.columns@[k as int],
                0 <= k < 16,
                -CHUNK_COORD_LIMIT <= chunk_x <= CHUNK_COORD_LIMIT,
                x == CHUNK_SIZE * chunk_x + k + 1,
                h == surface_height_spec(col.terrain, *b),
                0 <= h <= 2_000_000,
                0 <= y <= h + 1,
                (claimed@, out@) == rows_spec(
                    *b,
                    seed,
                    x,
                    h,
                    *col,
                    y as int,
                    st_col.0,
                    st_col.1,
                ),
            decreases h + 1 - y,
        {
            if y == 0 {
                out.push(Block { kind: BlockKind::Bedrock, x, y: 0, collidable: true });
            } else {
                let v: i64 = col.cave[y as usize];
                if v > b.air_probability {
                    if !claimed_contains(&claimed, x, y) {
                        if y == h {
                            if tree_trial(seed, b.tree_chance, x) {
                                place_structure(b.tree_kind, x, y + 1, &mut claimed, &mut out);
                            }
                        }
                        let kind = block_kind(b, col, y, h);
                        out.push(Block { kind, x, y, collidable: true });
                        claimed.push((x, y));
                    }
                }
            }
            y = y + 1;
        }
        k = k + 1;
    }
    out
}

/// No two blocks of the list share a grid coordinate.
pub open spec fn block_coords_distinct(out: Seq<Block>) -> bool {
    forall|i: int, j: int|
        0 <= i < j < out.len() ==> !((#[trigger] out[i]).x == (#[trigger] out[j]).x && out[i].y
            == out[j].y)
}

/// Every block above bedrock has its coordinate in the claimed set.
pub open spec fn blocks_claimed(claimed: Seq<(i64, i64)>, out: Seq<Block>) -> bool {
    forall|i: int|
        0 <= i < out.len() && (#[trigger] out[i]).y >= 1 ==> claimed.contains(
            (out[i].x, out[i].y),
        )
}

/// Every block at or below row zero is collidable bedrock at row zero
/// exactly, in a column at or left of the bound.
pub open spec fn bedrock_ok(out: Seq<Block>, x_bound: i64) -> bool {
    forall|i: int|
        0 <= i < out.len() && (#[trigger] out[i]).y <= 0 ==> out[i].y == 0 && out[i].kind
            == BlockKind::Bedrock && out[i].collidable && out[i].x <= x_bound
}

/// Every non-collidable block is a structure block above bedrock.
pub open spec fn structure_ok(out: Seq<Block>) -> bool {
    forall|i: int|
        0 <= i < out.len() && !(#[trigger] out[i]).collidable ==> is_structure_kind(out[i].kind)
            && out[i].y >= 1
}

/// The block sits in column `c` of the chunk and carries the terrain
/// material chosen for its row and that column's surface height.
pub open spec fn column_matches(
    b: BiomeSettings,
    chunk_x: i64,
    s: ChunkSamples,
    blk: Block,
    c: int,
) -> bool {
    &&& 0 <= c < CHUNK_SIZE
    &&& blk.x == CHUNK_SIZE * chunk_x + c + 1
    &&& blk.kind == terrain_kind_spec(
        b,
        s.columns@[c],
        blk.y,
        surface_height_spec(s.columns@[c].terrain, b),
    )
}

/// Every collidable block above bedrock is a terrain block of one of
/// the chunk's columns.
pub open spec fn terrain_ok(b: BiomeSettings, chunk_x: i64, s: ChunkSamples, out: Seq<Block>) -> bool {
    forall|i: int|
        0 <= i < out.len() && (#[trigger] out[i]).collidable && out[i].y >= 1 ==> exists|c: int|
            column_matches(b, chunk_x, s, out[i], c)
}

/// The invariant carried through a chunk build: coordinates distinct,
/// blocks above bedrock claimed, bedrock only at row zero up to the
/// column bound, structures non-collidable, terrain blocks labelled by
/// their column.
pub open spec fn gen_inv(
    b: BiomeSettings,
    chunk_x: i64,
    s: ChunkSamples,
    claimed: Seq<(i64, i64)>,
    out: Seq<Block>,
    x_bound: i64,
) -> bool {
    &&& block_coords_distinct(out)
    &&& blocks_claimed(claimed, out)
    &&& bedrock_ok(out, x_bound)
    &&& structure_ok(out)
    &&& terrain_ok(b, chunk_x, s, out)
}

/// Placing structure candidates whose rows all lie at or above
/// `min_y >= 1` preserves the generation invariant; the claimed set
/// only grows, and every newly claimed coordinate lies at or above
/// `min_y`.
proof fn lemma_place_keeps_inv(
    b: BiomeSettings,
    chunk_x: i64,
    s: ChunkSamples,
    cands: Seq<Block>,
    claimed: Seq<(i64, i64)>,
    out: Seq<Block>,
    x_bound: i64,
    min_y: i64,
)
    requires
        gen_inv(b, chunk_x, s, claimed, out, x_bound),
        1 <= min_y,
        forall|n: int|
            0 <= n < cands.len() ==> !(#[trigger] cands[n]).collidable && is_structure_kind(
                cands[n].kind,
            ) && cands[n].y >= min_y,
    ensures
        ({
            let st = place_blocks_spec(cands, claimed, out);
            &&& gen_inv(b, chunk_x, s, st.0, st.1, x_bound)
            &&& (forall|z: (i64, i64)| claimed.contains(z) ==> st.0.contains(z))
            &&& (forall|z: (i64, i64)| st.0.contains(z) ==> claimed.contains(z) || z.1 >= min_y)
        }),
    decreases cands.len(),
{
    if cands.len() > 0 {
        let c = cands[0];
        let rest = cands.drop_first();
        assert(forall|n: int| 0 <= n < rest.len() ==> rest[n] == cands[n + 1]);
        if claimed.contains((c.x, c.y)) {
            lemma_place_keeps_inv(b, chunk_x, s, rest, claimed, out, x_bound, min_y);
        } else {
            let claimed1 = claimed.push((c.x, c.y));
            let out1 = out.push(c);
            assert forall|i: int, j: int|
                0 <= i < j < out1.len() implies !((#[trigger] out1[i]).x == (#[trigger] out1[j]).x
                && out1[i].y == out1[j].y) by {
                if j == out.len() {
                    if out[i].y >= 1 {
                        assert(claimed.contains((out[i].x, out[i].y)));
                    }
                }
            }
            lemma_place_keeps_inv(b, chunk_x, s, rest, claimed1, out1, x_bound, min_y);
            let st = place_blocks_spec(cands, claimed, out);
            assert forall|z: (i64, i64)| claimed.contains(z) implies st.0.contains(z) by {
                assert(claimed1.contains(z));
            }
            assert forall|z: (i64, i64)| st.0.contains(z) implies claimed.contains(z) || z.1
                >= min_y by {
                if !claimed.contains(z) {
                    if claimed1.contains(z) {
                        assert(z == (c.x, c.y));
                    }
                }
            }
        }
    }
}

/// One row step preserves the generation invariant of the column at
/// `x`: a row-zero step needs every earlier bedrock strictly left of
/// `x`, every other row keeps the bound as it stands.
proof fn lemma_row_keeps_inv(
    b: BiomeSettings,
    seed: u64,
    chunk_x: i64,
    s: ChunkSamples,
    c: int,
    col: ColumnSamples,
    height: i64,
    y: i64,
    claimed: Seq<(i64, i64)>,
    out: Seq<Block>,
)
    requires
        valid_biome(b),
        -CHUNK_COORD_LIMIT <= chunk_x <= CHUNK_COORD_LIMIT,
        0 <= c < CHUNK_SIZE,
        col == s.columns@[c],
        height == surface_height_spec(col.terrain, b),
        0 <= height <= 2_000_000,
        0 <= y <= height,
        gen_inv(b, chunk_x, s, claimed, out, (CHUNK_SIZE * chunk_x + c + 1) as i64),
        y == 0 ==> bedrock_ok(out, (CHUNK_SIZE * chunk_x + c) as i64),
    ensures
        ({
            let x = (CHUNK_SIZE * chunk_x + c + 1) as i64;
            let st = row_step(b, seed, x, height, col, y, claimed, out);
            gen_inv(b, chunk_x, s, st.0, st.1, x)
        }),
{
    let x = (CHUNK_SIZE * chunk_x + c + 1) as i64;
    let st = row_step(b, seed, x, height, col, y, claimed, out);
    if y == 0 {
        let blk = Block { kind: BlockKind::Bedrock, x, y: 0, collidable: true };
        let out1 = out.push(blk);
        assert forall|i: int, j: int|
            0 <= i < j < out1.len() implies !((#[trigger] out1[i]).x == (#[trigger] out1[j]).x
            && out1[i].y == out1[j].y) by {
            if j == out.len() && out[i].y == 0 {
                assert(out[i].x <= CHUNK_SIZE * chunk_x + c);
            }
        }
        assert forall|i: int|
            0 <= i < out1.len() && (#[trigger] out1[i]).collidable && out1[i].y >= 1 implies exists|cc: int|
            column_matches(b, chunk_x, s, out1[i], cc) by {
            if i < out.len() {
                assert(out1[i] == out[i]);
            }
        }
    } else if !solid_spec(b, col.cave@[y as int]) || claimed.contains((x, y)) {
    } else {
        let st1 = if y == height && tree_decision(seed, b.tree_chance, x) {
            place_blocks_spec(structure_blocks(b.tree_kind, x, (y + 1) as i64), claimed, out)
        } else {
            (claimed, out)
        };
        if y == height && tree_decision(seed, b.tree_chance, x) {
            crate::structure::lemma_structure_blocks_shape(b.tree_kind, x, (y + 1) as i64);
            lemma_place_keeps_inv(
                b,
                chunk_x,
                s,
                structure_blocks(b.tree_kind, x, (y + 1) as i64),
                claimed,
                out,
                (CHUNK_SIZE * chunk_x + c + 1) as i64,
                (y + 1) as i64,
            );
        }
        assert(!st1.0.contains((x, y)));
        let blk = Block {
            kind: terrain_kind_spec(b, col, y, height as int),
            x,
            y,
            collidable: true,
        };
        let claimed2 = st1.0.push((x, y));
        let out2 = st1.1.push(blk);
        assert forall|i: int, j: int|
            0 <= i < j < out2.len() implies !((#[trigger] out2[i]).x == (#[trigger] out2[j]).x
            && out2[i].y == out2[j].y) by {
            if j == st1.1.len() {
                if st1.1[i].y >= 1 {
                    assert(st1.0.contains((st1.1[i].x, st1.1[i].y)));
                }
            }
        }
        assert(column_matches(b, chunk_x, s, blk, c));
        assert forall|i: int|
            0 <= i < out2.len() && (#[trigger] out2[i]).collidable && out2[i].y >= 1 implies exists|cc: int|
            column_matches(b, chunk_x, s, out2[i], cc) by {
            if i < st1.1.len() {
                assert(out2[i] == st1.1[i]);
            } else {
                assert(out2[i] == blk);
            }
        }
        assert(st == (claimed2, out2));
    }
}

/// All rows `0..n` of column `c` preserve the generation invariant.
proof fn lemma_rows_keep_inv(
    b: BiomeSettings,
    seed: u64,
    chunk_x: i64,
    s: ChunkSamples,
    c: int,
    col: ColumnSamples,
    height: i64,
    n: int,
    claimed: Seq<(i64, i64)>,
    out: Seq<Block>,
)
    requires
        valid_biome(b),
        -CHUNK_COORD_LIMIT <= chunk_x <= CHUNK_COORD_LIMIT,
        0 <= c < CHUNK_SIZE,
        col == s.columns@[c],
        height == surface_height_spec(col.terrain, b),
        0 <= height <= 2_000_000,
        0 <= n <= height + 1,
        gen_inv(b, chunk_x, s, claimed, out, (CHUNK_SIZE * chunk_x + c) as i64),
    ensures
        ({
            let x = (CHUNK_SIZE * chunk_x + c + 1) as i64;
            let st = rows_spec(b, seed, x, height, col, n, claimed, out);
            gen_inv(b, chunk_x, s, st.0, st.1, (CHUNK_SIZE * chunk_x + c + 1) as i64)
        }),
    decreases n,
{
    let x = (CHUNK_SIZE * chunk_x + c + 1) as i64;
    if n <= 0 {
        assert(bedrock_ok(out, x));
    } else {
        lemma_rows_keep_inv(b, seed, chunk_x, s, c, col, height, n - 1, claimed, out);
        let st = rows_spec(b, seed, x, height, col, n - 1, claimed, out);
        if n - 1 == 0 {
            assert forall|i: int|
                0 <= i < st.1.len() && (#[trigger] st.1[i]).y <= 0 implies st.1[i].y == 0
                && st.1[i].kind == BlockKind::Bedrock && st.1[i].collidable && st.1[i].x
                <= CHUNK_SIZE * chunk_x + c by {
                assert(rows_spec(b, seed, x, height, col, 0, claimed, out) == (claimed, out));
            }
        }
        lemma_row_keeps_inv(
            b,
            seed,
            chunk_x,
            s,
            c,
            col,
            height,
            (n - 1) as i64,
            st.0,
            st.1,
        );
    }
}

/// All columns `0..k` of the chunk preserve the generation invariant,
/// with every bedrock block left of the next column.
proof fn lemma_columns_keep_inv(
    b: BiomeSettings,
    seed: u64,
    chunk_x: i64,
    s: ChunkSamples,
    k: int,
)
    requires
        valid_biome(b),
        wf_chunk(s, b),
        -CHUNK_COORD_LIMIT <= chunk_x <= CHUNK_COORD_LIMIT,
        0 <= k <= CHUNK_SIZE,
    ensures
        ({
            let st = columns_spec(b, seed, chunk_x, s, k);
            gen_inv(b, chunk_x, s, st.0, st.1, (CHUNK_SIZE * chunk_x + k) as i64)
        }),
    decreases k,
{
    if k > 0 {
        lemma_columns_keep_inv(b, seed, chunk_x, s, k - 1);
        let st = columns_spec(b, seed, chunk_x, s, k - 1);
        let col = s.columns@[k - 1];
        let h = surface_height_spec(col.terrain, b);
        crate::terrain::lemma_surface_height_bounds(col.terrain, b);
        lemma_rows_keep_inv(
            b,
            seed,
            chunk_x,
            s,
            k - 1,
            col,
            h as i64,
            h + 1,
            st.0,
            st.1,
        );
    }
}

/// No two blocks of a generated chunk share a grid coordinate: the
/// claimed set guards every block above bedrock, and bedrock itself
/// appears once per column.
pub proof fn lemma_chunk_no_duplicates(b: BiomeSettings, seed: u64, chunk_x: i64, s: ChunkSamples)
    requires
        valid_biome(b),
        wf_chunk(s, b),
        -CHUNK_COORD_LIMIT <= chunk_x <= CHUNK_COORD_LIMIT,
    ensures
        block_coords_distinct(chunk_blocks_spec(b, seed, chunk_x, s)),
{
    lemma_columns_keep_inv(b, seed, chunk_x, s, CHUNK_SIZE as int);
}

/// Depth bounds hold: whenever a generated block carries the material
/// of the ore at priority position `k`, its row satisfies that ore's
/// `below`/`above` bounds.
pub proof fn lemma_chunk_ore_depth(
    b: BiomeSettings,
    seed: u64,
    chunk_x: i64,
    s: ChunkSamples,
    i: int,
    k: int,
)
    requires
        valid_biome(b),
        wf_chunk(s, b),
        -CHUNK_COORD_LIMIT <= chunk_x <= CHUNK_COORD_LIMIT,
        0 <= i < chunk_blocks_spec(b, seed, chunk_x, s).len(),
        0 <= k < b.ores@.len(),
        chunk_blocks_spec(b, seed, chunk_x, s)[i].kind == b.ores@[k].kind,
    ensures
        in_bounds_y_spec(
            b.ores@[k].below,
            b.ores@[k].above,
            chunk_blocks_spec(b, seed, chunk_x, s)[i].y,
        ),
{
    lemma_columns_keep_inv(b, seed, chunk_x, s, CHUNK_SIZE as int);
    let st = columns_spec(b, seed, chunk_x, s, CHUNK_SIZE as int);
    let out = chunk_blocks_spec(b, seed, chunk_x, s);
    assert(out == st.1);
    let blk = out[i];
    assert(is_ore_kind(b.ores@[k].kind));
    if blk.y == 0 {
        assert(blk.kind == BlockKind::Bedrock);
    } else if !blk.collidable {
        assert(is_structure_kind(blk.kind));
    } else {
        assert(blk.y >= 1) by {
            if blk.y <= 0 {
                assert(blk.y == 0);
            }
        }
        assert(st.1[i].collidable && st.1[i].y >= 1);
        assert(exists|c: int| column_matches(b, chunk_x, s, blk, c));
        let c = choose|c: int| column_matches(b, chunk_x, s, blk, c);
        lemma_terrain_kind_ore_depth(
            b,
            s.columns@[c],
            blk.y,
            surface_height_spec(s.columns@[c].terrain, b),
            k,
        );
    }
}

/// Surface override precedence holds: a terrain block (collidable,
/// above bedrock) of column `c` whose depth below that column's surface
/// is less than the top-layer depth always carries the top exposed
/// material, never an ore.
pub proof fn lemma_chunk_surface_override(
    b: BiomeSettings,
    seed: u64,
    chunk_x: i64,
    s: ChunkSamples,
    i: int,
    c: int,
)
    requires
        valid_biome(b),
        wf_chunk(s, b),
        -CHUNK_COORD_LIMIT <= chunk_x <= CHUNK_COORD_LIMIT,
        0 <= i < chunk_blocks_spec(b, seed, chunk_x, s).len(),
        0 <= c < CHUNK_SIZE,
        chunk_blocks_spec(b, seed, chunk_x, s)[i].collidable,
        chunk_blocks_spec(b, seed, chunk_x, s)[i].y >= 1,
        chunk_blocks_spec(b, seed, chunk_x, s)[i].x == CHUNK_SIZE * chunk_x + c + 1,
        surface_height_spec(s.columns@[c].terrain, b) - chunk_blocks_spec(b, seed, chunk_x, s)[i].y
            < b.exposed_block_top_layer_height,
    ensures
        chunk_blocks_spec(b, seed, chunk_x, s)[i].kind == b.exposed_block_top,
{
    lemma_columns_keep_inv(b, seed, chunk_x, s, CHUNK_SIZE as int);
    let st = columns_spec(b, seed, chunk_x, s, CHUNK_SIZE as int);
    let out = chunk_blocks_spec(b, seed, chunk_x, s);
    assert(out == st.1);
    let blk = out[i];
    assert(st.1[i].collidable && st.1[i].y >= 1);
    assert(exists|cc: int| column_matches(b, chunk_x, s, blk, cc));
    let cc = choose|cc: int| column_matches(b, chunk_x, s, blk, cc);
    assert(cc == c);
}

} // verus!
