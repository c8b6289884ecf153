use crate::block::Block;
use crate::gen::{chunk_blocks_spec, generate_chunk, CHUNK_COORD_LIMIT, CHUNK_SIZE};
use crate::samples::{wf_chunk, ChunkSamples};
use crate::settings::{valid_world, ConfigError, WorldSettings};
use crate::utils::{round_div, rounded_div};
use vstd::prelude::*;

verus! {

broadcast use vstd::seq_lib::lemma_seq_contains_after_push;

/// Observer chunk coordinates stay inside this bound, so that the
/// whole window fits inside `CHUNK_COORD_LIMIT`.
pub const OBSERVER_LIMIT: i64 = 999_000_000;

/// Render distances stay inside this bound.
pub const RENDER_DISTANCE_LIMIT: i64 = 1_000_000;

/// One loaded chunk: its coordinate and the blocks it owns, created
/// whole at assembly and destroyed whole at eviction.
#[derive(Debug)]
pub struct Chunk {
    pub position: i64,
    pub blocks: Vec<Block>,
}

/// The streaming state: the world settings, the render distance, the
/// observer's chunk coordinate as of the last pass, and the loaded
/// chunks.
#[derive(Debug)]
pub struct World {
    pub settings: WorldSettings,
    pub render_distance: i64,
    pub observer: Option<i64>,
    pub chunks: Vec<Chunk>,
}

/// Whether some chunk of the sequence sits at coordinate `p`.
pub open spec fn seq_loaded(cs: Seq<Chunk>, p: int) -> bool {
    exists|i: int| 0 <= i < cs.len() && (#[trigger] cs[i]).position == p
}

/// Whether coordinate `p` lies inside the streaming window around
/// `observer`.
pub open spec fn window_contains(observer: i64, render_distance: i64, p: int) -> bool {
    observer - render_distance <= p <= observer + render_distance
}

impl World {
    /// Whether some loaded chunk sits at coordinate `p`.
    pub open spec fn loaded(self, p: int) -> bool {
        seq_loaded(self.chunks@, p)
    }

    /// The streaming invariant: the settings are valid, the bounds
    /// hold, chunk coordinates are pairwise distinct, before the first
    /// pass nothing is loaded, and after a pass every loaded chunk lies
    /// inside the window of the pass's observer.
    pub open spec fn wf(self) -> bool {
        &&& valid_world(self.settings)
        &&& 0 <= self.render_distance <= RENDER_DISTANCE_LIMIT
        &&& (self.observer matches Some(o) ==> -OBSERVER_LIMIT <= o <= OBSERVER_LIMIT)
        &&& (self.observer is None ==> self.chunks@.len() == 0)
        &&& (forall|i: int, j: int|
            0 <= i < j < self.chunks@.len() ==> (#[trigger] self.chunks@[i]).position
                != (#[trigger] self.chunks@[j]).position)
        &&& (forall|i: int|
            0 <= i < self.chunks@.len() ==> (self.observer matches Some(o)
                && window_contains(o, self.render_distance, (#[trigger] self.chunks@[i]).position as int)))
        &&& (forall|i: int|
            0 <= i < self.chunks@.len() ==> -CHUNK_COORD_LIMIT
                <= (#[trigger] self.chunks@[i]).position <= CHUNK_COORD_LIMIT)
    }

    /// Builds an empty world after validating the configuration: every
    /// configuration error is rejected here, before any generation.
    pub fn new(settings: WorldSettings, render_distance: i64) -> (r: Result<World, ConfigError>)
        ensures
            r is Ok <==> (valid_world(settings) && 0 <= render_distance
                <= RENDER_DISTANCE_LIMIT),
            (r matches Ok(w) ==> w.wf() && w.settings == settings && w.render_distance
                == render_distance && w.observer is None && w.chunks@.len() == 0),
            !(valid_world(settings)) ==> r is Err,
            (valid_world(settings) && !(0 <= render_distance <= RENDER_DISTANCE_LIMIT)) ==> r
                == Err::<World, ConfigError>(ConfigError::RenderDistanceOutOfRange),
    {
        match settings.validate() {
            Err(e) => Err(e),
            Ok(()) => {
                if !(0 <= render_distance && render_distance <= RENDER_DISTANCE_LIMIT) {
                    Err(ConfigError::RenderDistanceOutOfRange)
                } else {
                    Ok(
                        World {
                            settings,
                            render_distance,
                            observer: None,
                            chunks: Vec::new(),
                        },
                    )
                }
            },
        }
    }

    /// Whether a pass for `observer` would do any work: streaming is
    /// triggered only by a change of the observer's chunk coordinate.
    pub fn needs_refresh(&self, observer: i64) -> (r: bool)
        ensures
            r == (self.observer != Some(observer)),
    {
        match self.observer {
            Some(o) => o != observer,
            None => true,
        }
    }

    /// Whether the chunk at coordinate `p` is loaded.
    pub fn is_loaded(&self, p: i64) -> (r: bool)
        ensures
            r == self.loaded(p as int),
    {
        let mut i: usize = 0;
        while i < self.chunks.len()
            invariant
                0 <= i <= self.chunks@.len(),
                forall|j: int| 0 <= j < i ==> (#[trigger] self.chunks@[j]).position != p,
            decreases self.chunks@.len() - i,
        {
            if self.chunks[i].position == p {
                assert(self.chunks@[i as int].position == p);
                return true;
            }
            i = i + 1;
        }
        false
    }

    /// Begins a streaming pass: records the observer, destroys every
    /// loaded chunk outside the new window, and returns the window
    /// coordinates not yet loaded, in ascending order. The pass is
    /// complete once each returned coordinate has been installed.
    pub fn refresh(&mut self, observer: i64) -> (missing: Vec<i64>)
        requires
            old(self).wf(),
            -OBSERVER_LIMIT <= observer <= OBSERVER_LIMIT,
        ensures
            final(self).wf(),
            final(self).settings == old(self).settings,
            final(self).render_distance == old(self).render_distance,
            final(self).observer == Some(observer),
            forall|p: int|
                final(self).loaded(p) <==> (old(self).loaded(p) && window_contains(
                    observer,
                    old(self).render_distance,
                    p,
                )),
            forall|i: int|
                0 <= i < final(self).chunks@.len() ==> old(self).chunks@.contains(
                    #[trigger] final(self).chunks@[i],
                ),
            forall|p: i64|
                missing@.contains(p) <==> (window_contains(
                    observer,
                    old(self).render_distance,
                    p as int,
                ) && !final(self).loaded(p as int)),
            forall|i: int, j: int| 0 <= i < j < missing@.len() ==> missing@[i] < missing@[j],
    {
        let ghost orig: Seq<Chunk> = self.chunks@;
        let rd: i64 = self.render_distance;
        let lo: i64 = observer - rd;
        let hi: i64 = observer + rd;
        self.observer = Some(observer);
        let mut kept: Vec<Chunk> = Vec::new();
        while self.chunks.len() > 0
            invariant
                lo == observer - rd,
                hi == observer + rd,
                rd == old(self).render_distance,
                self.settings == old(self).settings,
                self.render_distance == old(self).render_distance,
                self.observer == Some(observer),
                valid_world(self.settings),
                0 <= rd <= RENDER_DISTANCE_LIMIT,
                -OBSERVER_LIMIT <= observer <= OBSERVER_LIMIT,
                self.chunks@ == orig.subrange(0, self.chunks@.len() as int),
                self.chunks@.len() <= orig.len(),
                forall|i: int|
                    0 <= i < orig.len() ==> -CHUNK_COORD_LIMIT <= (#[trigger] orig[i]).position
                        <= CHUNK_COORD_LIMIT,
                forall|i: int, j: int|
                    0 <= i < j < orig.len() ==> (#[trigger] orig[i]).position
                        != (#[trigger] orig[j]).position,
                forall|i: int|
                    0 <= i < kept@.len() ==> window_contains(
                        observer,
                        rd,
                        (#[trigger] kept@[i]).position as int,
                    ) && orig.contains(kept@[i]),
                forall|i: int, j: int|
                    0 <= i < j < kept@.len() ==> (#[trigger] kept@[i]).position
                        != (#[trigger] kept@[j]).position,
                forall|p: int|
                    #![trigger window_contains(observer, rd, p)]
                    seq_loaded(orig, p) && window_contains(observer, rd, p) ==> (seq_loaded(
                        self.chunks@,
                        p,
                    ) || seq_loaded(kept@, p)),
                forall|p: int| !(seq_loaded(self.chunks@, p) && seq_loaded(kept@, p)),
            decreases self.chunks@.len(),
        {
            let ghost pre: Seq<Chunk> = self.chunks@;
            let ch = self.chunks.pop().unwrap();
            proof {
                assert(ch == orig[pre.len() - 1]);
                assert(self.chunks@ =~= orig.subrange(0, self.chunks@.len() as int));
            }
            if lo <= ch.position && ch.position <= hi {
                let ghost kept_pre: Seq<Chunk> = kept@;
                kept.push(ch);
                proof {
                    assert(orig.contains(ch)) by {
                        assert(orig[pre.len() - 1] == ch);
                    }
                    assert(seq_loaded(pre, ch.position as int)) by {
                        assert(pre[pre.len() - 1].position == ch.position);
                    }
                    assert(!seq_loaded(kept_pre, ch.position as int));
                    assert forall|i: int, j: int| 0 <= i < j < kept@.len() implies (
                    #[trigger] kept@[i]).position != (#[trigger] kept@[j]).position by {
                        if j == kept_pre.len() {
                            if kept@[i].position == kept@[j].position {
                                assert(seq_loaded(kept_pre, ch.position as int)) by {
                                    assert(kept_pre[i].position == ch.position);
                                }
                            }
                        }
                    }
                    assert forall|p: int|
                        #![trigger window_contains(observer, rd, p)]
                        seq_loaded(orig, p) && window_contains(observer, rd, p) implies (
                    seq_loaded(self.chunks@, p) || seq_loaded(kept@, p)) by {
                        if !seq_loaded(self.chunks@, p) && !seq_loaded(kept_pre, p) {
                            let w = choose|w: int|
                                0 <= w < pre.len() && #[trigger] pre[w].position == p;
                            assert(pre[pre.len() - 1].position == p);
                            assert(kept@[kept_pre.len() as int].position == p);
                        } else if seq_loaded(kept_pre, p) {
                            let w = choose|w: int|
                                0 <= w < kept_pre.len() && #[trigger] kept_pre[w].position == p;
                            assert(kept@[w].position == p);
                        }
                    }
                    assert forall|p: int| !(seq_loaded(self.chunks@, p) && seq_loaded(
                        kept@,
                        p,
                    )) by {
                        if seq_loaded(self.chunks@, p) && seq_loaded(kept@, p) {
                            let w1 = choose|w: int|
                                0 <= w < self.chunks@.len() && #[trigger] self.chunks@[w].position
                                    == p;
                            let w2 = choose|w: int|
                                0 <= w < kept@.len() && #[trigger] kept@[w].position == p;
                            if w2 < kept_pre.len() {
                                assert(seq_loaded(kept_pre, p)) by {
                                    assert(kept_pre[w2].position == p);
                                }
                                assert(seq_loaded(pre, p)) by {
                                    assert(pre[w1].position == p);
                                }
                            } else {
                                assert(orig[w1].position == orig[pre.len() - 1].position);
                            }
                        }
                    }
                }
            } else {
                proof {
                    assert forall|p: int|
                        #![trigger window_contains(observer, rd, p)]
                        seq_loaded(orig, p) && window_contains(observer, rd, p) implies (
                    seq_loaded(self.chunks@, p) || seq_loaded(kept@, p)) by {
                        if !seq_loaded(self.chunks@, p) && !seq_loaded(kept@, p) {
                            let w = choose|w: int|
                                0 <= w < pre.len() && #[trigger] pre[w].position == p;
                            assert(pre[pre.len() - 1].position == p);
                            assert(!window_contains(observer, rd, ch.position as int));
                        }
                    }
                    assert forall|p: int| !(seq_loaded(self.chunks@, p) && seq_loaded(
                        kept@,
                        p,
                    )) by {
                        if seq_loaded(self.chunks@, p) && seq_loaded(kept@, p) {
                            let w1 = choose|w: int|
                                0 <= w < self.chunks@.len() && #[trigger] self.chunks@[w].position
                                    == p;
                            assert(seq_loaded(pre, p)) by {
                                assert(pre[w1].position == p);
                            }
                        }
                    }
                }
            }
        }
        self.chunks = kept;
        proof {
            assert forall|p: int|
                self.loaded(p) implies (seq_loaded(orig, p) && window_contains(
                observer,
                rd,
                p,
            )) by {
                if seq_loaded(self.chunks@, p) {
                    let w = choose|w: int|
                        0 <= w < self.chunks@.len() && #[trigger] self.chunks@[w].position == p;
                    let wo = choose|wo: int|
                        0 <= wo < orig.len() && orig[wo] == self.chunks@[w];
                    assert(orig[wo].position == p);
                }
            }
        }
        let ghost snap: World = *self;
        let mut missing: Vec<i64> = Vec::new();
        let mut c: i64 = lo;
        while c <= hi
            invariant
                lo == observer - rd,
                hi == observer + rd,
                0 <= rd <= RENDER_DISTANCE_LIMIT,
                -OBSERVER_LIMIT <= observer <= OBSERVER_LIMIT,
                lo <= c <= hi + 1,
                *self == snap,
                forall|p: i64|
                    missing@.contains(p) <==> (lo <= p < c && !seq_loaded(
                        self.chunks@,
                        p as int,
                    )),
                forall|i: int| 0 <= i < missing@.len() ==> #[trigger] missing@[i] < c,
                forall|i: int, j: int| 0 <= i < j < missing@.len() ==> missing@[i] < missing@[j],
            decreases hi + 1 - c,
        {
            if !self.is_loaded(c) {
                missing.push(c);
            }
            c = c + 1;
        }
        missing
    }

    /// Installs the chunk at `position` into the current window from
    /// its noise samples, generating its blocks; the chunk must not be
    /// loaded yet.
    pub fn install_chunk(&mut self, position: i64, samples: &ChunkSamples)
        requires
            old(self).wf(),
            old(self).observer matches Some(o) && window_contains(
                o,
                old(self).render_distance,
                position as int,
            ),
            !old(self).loaded(position as int),
            wf_chunk(*samples, old(self).settings.plain),
        ensures
            final(self).wf(),
            final(self).settings == old(self).settings,
            final(self).render_distance == old(self).render_distance,
            final(self).observer == old(self).observer,
            forall|p: int|
                final(self).loaded(p) <==> (old(self).loaded(p) || p == position as int),
            final(self).chunks@.len() == old(self).chunks@.len() + 1,
            forall|i: int|
                0 <= i < old(self).chunks@.len() ==> final(self).chunks@[i] == old(
                    self,
                ).chunks@[i],
            final(self).chunks@.last().position == position,
            final(self).chunks@.last().blocks@ == chunk_blocks_spec(
                old(self).settings.plain,
                old(self).settings.seed,
                position,
                *samples,
            ),
    {
        let blocks = generate_chunk(self.settings.seed, &self.settings.plain, position, samples);
        let ghost pre: Seq<Chunk> = self.chunks@;
        self.chunks.push(Chunk { position, blocks });
        proof {
            assert forall|p: int| self.loaded(p) implies (seq_loaded(pre, p) || p
                == position as int) by {
                let w = choose|w: int|
                    0 <= w < self.chunks@.len() && #[trigger] self.chunks@[w].position == p;
                if w < pre.len() {
                    assert(pre[w].position == p);
                }
            }
            assert forall|p: int| seq_loaded(pre, p) implies self.loaded(p) by {
                let w = choose|w: int| 0 <= w < pre.len() && #[trigger] pre[w].position == p;
                assert(self.chunks@[w].position == p);
            }
            assert(self.chunks@[pre.len() as int].position == position);
        }
    }

    /// Runs one whole streaming pass: evicts every chunk that left the
    /// window and generates every one that entered it, taking one
    /// `ChunkSamples` per window coordinate, left to right. Afterwards
    /// the loaded coordinates are exactly the window around `observer`:
    /// no gaps, no stragglers.
    pub fn pass(&mut self, observer: i64, samples_list: &Vec<ChunkSamples>)
        requires
            old(self).wf(),
            -OBSERVER_LIMIT <= observer <= OBSERVER_LIMIT,
            samples_list@.len() == 2 * old(self).render_distance + 1,
            forall|i: int|
                0 <= i < samples_list@.len() ==> wf_chunk(
                    #[trigger] samples_list@[i],
                    old(self).settings.plain,
                ),
        ensures
            final(self).wf(),
            final(self).settings == old(self).settings,
            final(self).render_distance == old(self).render_distance,
            final(self).observer == Some(observer),
            forall|p: int|
                final(self).loaded(p) <==> window_contains(
                    observer,
                    old(self).render_distance,
                    p,
                ),
            forall|i: int|
                0 <= i < final(self).chunks@.len() ==> (old(self).chunks@.contains(
                    #[trigger] final(self).chunks@[i],
                ) || final(self).chunks@[i].blocks@ == chunk_blocks_spec(
                    old(self).settings.plain,
                    old(self).settings.seed,
                    final(self).chunks@[i].position,
                    samples_list@[final(self).chunks@[i].position - (observer - old(
                        self,
                    ).render_distance)],
                )),
    {
        let rd: i64 = self.render_distance;
        let lo: i64 = observer - rd;
        let missing = self.refresh(observer);
        let ghost base: Seq<Chunk> = self.chunks@;
        let mut i: usize = 0;
        while i < missing.len()
            invariant
                0 <= i <= missing@.len(),
                lo == observer - rd,
                0 <= rd <= RENDER_DISTANCE_LIMIT,
                -OBSERVER_LIMIT <= observer <= OBSERVER_LIMIT,
                self.wf(),
                self.settings == old(self).settings,
                self.render_distance == rd,
                self.observer == Some(observer),
                samples_list@.len() == 2 * rd + 1,
                forall|k: int|
                    0 <= k < samples_list@.len() ==> wf_chunk(
                        #[trigger] samples_list@[k],
                        old(self).settings.plain,
                    ),
                forall|k: int, j: int| 0 <= k < j < missing@.len() ==> missing@[k] < missing@[j],
                forall|p: i64|
                    #[trigger] missing@.contains(p) <==> (window_contains(
                        observer,
                        rd,
                        p as int,
                    ) && !seq_loaded(base, p as int)),
                forall|p: int| seq_loaded(base, p) ==> window_contains(observer, rd, p),
                forall|p: int|
                    self.loaded(p) <==> (seq_loaded(base, p) || exists|k: int|
                        0 <= k < i && missing@[k] == p),
                forall|j: int|
                    0 <= j < self.chunks@.len() ==> (old(self).chunks@.contains(
                        #[trigger] self.chunks@[j],
                    ) || self.chunks@[j].blocks@ == chunk_blocks_spec(
                        old(self).settings.plain,
                        old(self).settings.seed,
                        self.chunks@[j].position,
                        samples_list@[self.chunks@[j].position - lo],
                    )),
            decreases missing@.len() - i,
        {
            let ghost prev: World = *self;
            let m: i64 = missing[i];
            proof {
                assert(missing@.contains(m)) by {
                    assert(missing@[i as int] == m);
                }
                assert(!self.loaded(m as int)) by {
                    if seq_loaded(base, m as int) {
                    } else if exists|k: int| 0 <= k < i && missing@[k] == m as int {
                        let k = choose|k: int| 0 <= k < i && missing@[k] == m as int;
                        assert(missing@[k] < missing@[i as int]);
                    }
                }
            }
            let idx_i64: i64 = m - lo;
            let idx: usize = idx_i64 as usize;
            assert(samples_list@[m - lo] == samples_list@[idx as int]);
            self.install_chunk(m, &samples_list[idx]);
            proof {
                assert forall|j: int| 0 <= j < self.chunks@.len() implies (old(
                    self,
                ).chunks@.contains(#[trigger] self.chunks@[j]) || self.chunks@[j].blocks@
                    == chunk_blocks_spec(
                    old(self).settings.plain,
                    old(self).settings.seed,
                    self.chunks@[j].position,
                    samples_list@[self.chunks@[j].position - lo],
                )) by {
                    if j < self.chunks@.len() - 1 {
                        assert(self.chunks@[j] == prev.chunks@[j]);
                    } else {
                        assert(self.chunks@[j].position == m);
                        assert(self.chunks@[j].blocks@ == chunk_blocks_spec(
                            prev.settings.plain,
                            prev.settings.seed,
                            m,
                            samples_list@[idx as int],
                        ));
                    }
                }
            }
            let ghost i_prev: int = i as int;
            i = i + 1;
            proof {
                assert forall|p: int|
                    self.loaded(p) <==> (seq_loaded(base, p) || exists|k: int|
                        0 <= k < i && missing@[k] == p) by {
                    if self.loaded(p) {
                        if p == m as int {
                            assert(0 <= i_prev < i && missing@[i_prev] == p);
                        } else {
                            assert(prev.loaded(p));
                            if !seq_loaded(base, p) {
                                let k = choose|k: int| 0 <= k < i_prev && missing@[k] == p;
                                assert(0 <= k < i && missing@[k] == p);
                            }
                        }
                    }
                    if seq_loaded(base, p) {
                        assert(prev.loaded(p));
                        assert(self.loaded(p));
                    }
                    if exists|k: int| 0 <= k < i && missing@[k] == p {
                        let k = choose|k: int| 0 <= k < i && missing@[k] == p;
                        if k < i_prev {
                            assert(prev.loaded(p));
                            assert(self.loaded(p));
                        } else {
                            assert(missing@[i_prev] == m);
                            assert(p == m as int);
                            assert(self.loaded(p));
                        }
                    }
                }
            }
        }
        proof {
            assert forall|p: int|
                self.loaded(p) <==> window_contains(observer, rd, p) by {
                if window_contains(observer, rd, p) && !seq_loaded(base, p) {
                    let pi: i64 = p as i64;
                    assert(missing@.contains(pi));
                    let k = choose|k: int|
                        0 <= k < missing@.len() && #[trigger] missing@[k] == pi;
                    assert(self.loaded(p));
                }
                if self.loaded(p) && !seq_loaded(base, p) {
                    let k = choose|k: int|
                        0 <= k < missing@.len() && #[trigger] missing@[k] == p;
                    assert(missing@.contains(missing@[k]));
                }
            }
        }
    }
}

/// The observer's chunk coordinate: the world-space position divided by
/// the width of a chunk in world units, rounded to the nearest chunk.
pub fn observer_chunk_position(world_x: i64, block_size: i64) -> (r: i64)
    requires
        1 <= block_size <= 1_000_000_000,
        -1_000_000_000_000_000 <= world_x <= 1_000_000_000_000_000,
    ensures
        r == round_div(world_x as int, CHUNK_SIZE * block_size),
{
    rounded_div(world_x, CHUNK_SIZE * block_size)
}

} // verus!
