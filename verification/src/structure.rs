use crate::block::{is_structure_kind, Block, BlockKind};
use crate::settings::TreeKind;
use vstd::arithmetic::div_mod::lemma_fundamental_div_mod_converse;
use vstd::prelude::*;

verus! {

/// Horizontal coordinates stay inside this bound for every chunk the
/// streamer can request, leaving room for structure overhang.
pub const X_LIMIT: i64 = 2_000_000_000_000;

/// Rows stay inside this bound for every valid biome, leaving room for
/// structure tops.
pub const Y_LIMIT: i64 = 4_000_000;

/// Block `n` of an oak rooted at `(x, y0)`: a six-block trunk whose
/// upper half carries leaves, then a canopy of four rows over the two
/// columns on each side of the trunk, then a three-block cap over the
/// trunk's top.
pub open spec fn oak_block(x: i64, y0: i64, n: int) -> Block {
    if n < 6 {
        Block {
            kind: if n >= 3 {
                BlockKind::LeafedOakLog
            } else {
                BlockKind::OakLog
            },
            x,
            y: (y0 + n) as i64,
            collidable: false,
        }
    } else if n < 22 {
        let m = n - 6;
        let q = m / 4;
        let j = m % 4;
        let dx = if q < 2 {
            q - 2
        } else {
            q - 1
        };
        Block { kind: BlockKind::Leaves, x: (x + dx) as i64, y: (y0 + 2 + j) as i64, collidable: false }
    } else {
        Block { kind: BlockKind::Leaves, x: (x + n - 23) as i64, y: (y0 + 6) as i64, collidable: false }
    }
}

/// The candidate blocks of a structure rooted at `(x, y0)`, in the
/// order they are attempted: an oak's trunk, canopy and cap, or a
/// three-block cactus.
pub open spec fn structure_blocks(kind: TreeKind, x: i64, y0: i64) -> Seq<Block> {
    match kind {
        TreeKind::Oak => Seq::new(25, |n: int| oak_block(x, y0, n)),
        TreeKind::Cactus => Seq::new(
            3,
            |n: int|
                Block { kind: BlockKind::Cactus, x, y: (y0 + n) as i64, collidable: false },
        ),
    }
}

/// Every candidate block of a structure is non-collidable, made of a
/// structure material, and sits within two columns of the root and
/// within rows `y0..=y0 + 7`.
pub proof fn lemma_structure_blocks_shape(kind: TreeKind, x: i64, y0: i64)
    requires
        -X_LIMIT <= x <= X_LIMIT,
        0 <= y0 <= Y_LIMIT,
    ensures
        forall|n: int|
            0 <= n < structure_blocks(kind, x, y0).len() ==> {
                let bl = #[trigger] structure_blocks(kind, x, y0)[n];
                &&& !bl.collidable
                &&& is_structure_kind(bl.kind)
                &&& x - 2 <= bl.x <= x + 2
                &&& y0 <= bl.y <= y0 + 7
            },
{
    assert forall|n: int| 0 <= n < structure_blocks(kind, x, y0).len() implies {
        let bl = #[trigger] structure_blocks(kind, x, y0)[n];
        &&& !bl.collidable
        &&& is_structure_kind(bl.kind)
        &&& x - 2 <= bl.x <= x + 2
        &&& y0 <= bl.y <= y0 + 7
    } by {
        if kind == TreeKind::Oak && 6 <= n < 22 {
            let m = n - 6;
            lemma_fundamental_div_mod_converse(m, 4, m / 4, m % 4);
            assert(0 <= m / 4 <= 3 && 0 <= m % 4 <= 3) by (nonlinear_arith)
                requires
                    0 <= m < 16,
            {
            }
        }
    }
}

/// Builds the candidate block list of one structure.
pub fn structure_candidates(kind: TreeKind, x: i64, y0: i64) -> (v: Vec<Block>)
    requires
        -X_LIMIT <= x <= X_LIMIT,
        0 <= y0 <= Y_LIMIT,
    ensures
        v@ == structure_blocks(kind, x, y0),
{
    let mut v: Vec<Block> = Vec::new();
    match kind {
        TreeKind::Oak => {
            let mut i: i64 = 0;
            while i <= 5
                invariant
                    -X_LIMIT <= x <= X_LIMIT,
                    0 <= y0 <= Y_LIMIT,
                    0 <= i <= 6,
                    v@.len() == i,
                    forall|n: int| 0 <= n < i ==> v@[n] == oak_block(x, y0, n),
                decreases 6 - i,
            {
                let trunk_kind = if i >= 3 {
                    BlockKind::LeafedOakLog
                } else {
                    BlockKind::OakLog
                };
                v.push(Block { kind: trunk_kind, x, y: y0 + i, collidable: false });
                i = i + 1;
            }
            let mut q: i64 = 0;
            while q < 4
                invariant
                    -X_LIMIT <= x <= X_LIMIT,
                    0 <= y0 <= Y_LIMIT,
                    0 <= q <= 4,
                    v@.len() == 6 + 4 * q,
                    forall|n: int| 0 <= n < v@.len() ==> v@[n] == oak_block(x, y0, n),
                decreases 4 - q,
            {
                let dx: i64 = if q < 2 {
                    q - 2
                } else {
                    q - 1
                };
                let mut j: i64 = 0;
                while j < 4
                    invariant
                        -X_LIMIT <= x <= X_LIMIT,
                        0 <= y0 <= Y_LIMIT,
                        0 <= q < 4,
                        0 <= j <= 4,
                        dx == if q < 2 {
                            q - 2
                        } else {
                            q - 1
                        },
                        v@.len() == 6 + 4 * q + j,
                        forall|n: int| 0 <= n < v@.len() ==> v@[n] == oak_block(x, y0, n),
                    decreases 4 - j,
                {
                    v.push(
                        Block { kind: BlockKind::Leaves, x: x + dx, y: y0 + 2 + j, collidable: false },
                    );
                    proof {
                        let m = 4 * q + j;
                        lemma_fundamental_div_mod_converse(m, 4, q as int, j as int);
                    }
                    j = j + 1;
                }
                q = q + 1;
            }
            let mut t: i64 = 0;
            while t < 3
                invariant
                    -X_LIMIT <= x <= X_LIMIT,
                    0 <= y0 <= Y_LIMIT,
                    0 <= t <= 3,
                    v@.len() == 22 + t,
                    forall|n: int| 0 <= n < v@.len() ==> v@[n] == oak_block(x, y0, n),
                decreases 3 - t,
            {
                v.push(
                    Block { kind: BlockKind::Leaves, x: x + t - 1, y: y0 + 6, collidable: false },
                );
                t = t + 1;
            }
            proof {
                assert(v@ =~= structure_blocks(kind, x, y0));
            }
        },
        TreeKind::Cactus => {
            let mut i: i64 = 0;
            while i < 3
                invariant
                    -X_LIMIT <= x <= X_LIMIT,
                    0 <= y0 <= Y_LIMIT,
                    0 <= i <= 3,
                    v@.len() == i,
                    forall|n: int|
                        0 <= n < i ==> v@[n] == (Block {
                            kind: BlockKind::Cactus,
                            x,
                            y: (y0 + n) as i64,
                            collidable: false,
                        }),
                decreases 3 - i,
            {
                v.push(Block { kind: BlockKind::Cactus, x, y: y0 + i, collidable: false });
                i = i + 1;
            }
            proof {
                assert(v@ =~= structure_blocks(kind, x, y0));
            }
        },
    }
    v
}

/// Placing a candidate list: each candidate in order is emitted and its
/// coordinate claimed unless the coordinate was already claimed, in
/// which case that one block is silently omitted and placement goes on.
pub open spec fn place_blocks_spec(
    cands: Seq<Block>,
    claimed: Seq<(i64, i64)>,
    out: Seq<Block>,
) -> (Seq<(i64, i64)>, Seq<Block>)
    decreases cands.len(),
{
    if cands.len() == 0 {
        (claimed, out)
    } else {
        let c = cands[0];
        if claimed.contains((c.x, c.y)) {
            place_blocks_spec(cands.drop_first(), claimed, out)
        } else {
            place_blocks_spec(cands.drop_first(), claimed.push((c.x, c.y)), out.push(c))
        }
    }
}

/// Decides whether `(x, y)` was already claimed.
pub fn claimed_contains(claimed: &Vec<(i64, i64)>, x: i64, y: i64) -> (r: bool)
    ensures
        r == claimed@.contains((x, y)),
{
    let mut i: usize = 0;
    while i < claimed.len()
        invariant
            0 <= i <= claimed@.len(),
            forall|j: int| 0 <= j < i ==> claimed@[j] != (x, y),
        decreases claimed@.len() - i,
    {
        let (cx, cy): (i64, i64) = claimed[i];
        if cx == x && cy == y {
            assert(claimed@[i as int] == (x, y));
            return true;
        }
        i = i + 1;
    }
    assert(!claimed@.contains((x, y)));
    false
}

/// Drops one structure rooted at `(x, y0)`: every candidate block whose
/// coordinate is still free is emitted and claimed; colliding blocks
/// are omitted one by one, never aborting the rest of the structure.
pub fn place_structure(
    kind: TreeKind,
    x: i64,
    y0: i64,
    claimed: &mut Vec<(i64, i64)>,
    out: &mut Vec<Block>,
)
    requires
        -X_LIMIT <= x <= X_LIMIT,
        0 <= y0 <= Y_LIMIT,
    ensures
        ({
            let st = place_blocks_spec(structure_blocks(kind, x, y0), old(claimed)@, old(out)@);
            final(claimed)@ == st.0 && final(out)@ == st.1
        }),
{
    let cands = structure_candidates(kind, x, y0);
    proof {
        assert(cands@.skip(0) =~= cands@);
    }
    let mut i: usize = 0;
    while i < cands.len()
        invariant
            cands@ == structure_blocks(kind, x, y0),
            0 <= i <= cands@.len(),
            place_blocks_spec(cands@.skip(i as int), claimed@, out@) == place_blocks_spec(
                cands@,
                old(claimed)@,
                old(out)@,
            ),
        decreases cands@.len() - i,
    {
        let c = cands[i];
        proof {
            assert(cands@.skip(i as int)[0] == cands@[i as int]);
            assert(cands@.skip(i as int).drop_first() =~= cands@.skip(i as int + 1));
        }
        if !claimed_contains(claimed, c.x, c.y) {
            out.push(c);
            claimed.push((c.x, c.y));
        }
        i = i + 1;
    }
    proof {
        assert(cands@.skip(cands@.len() as int) =~= Seq::<Block>::empty());
    }
}

} // verus!
