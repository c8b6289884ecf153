use crate::block::{is_ore_kind, BlockKind};
use vstd::prelude::*;

verus! {

/// Noise samples and the thresholds they are compared against are
/// fixed-point integers: one unit of coherent noise is this many steps.
pub const NOISE_SCALE: i64 = 1_000_000;

/// The structures a biome may drop onto a surface block.
#[derive(Clone, Copy, Debug, PartialEq, Eq, Structural)]
pub enum TreeKind {
    Oak,
    Cactus,
}

/// Per-ore generation parameters. `rarity` is the noise frequency of the
/// ore's channel (in `NOISE_SCALE` steps per unit), `size` the vein
/// threshold a sample must fall below, `divider` the coordinate divider
/// of the channel, and `below`/`above` optional absolute row bounds: the
/// ore is placed only at rows `y <= below` and `y >= above`.
#[derive(Clone, Copy, Debug)]
pub struct OreSettings {
    pub kind: BlockKind,
    pub rarity: i64,
    pub size: i64,
    pub divider: i64,
    pub below: Option<i64>,
    pub above: Option<i64>,
}

/// All tunable parameters of one biome. Frequencies and thresholds are
/// fixed-point (`NOISE_SCALE`); dividers, heights and depths are plain
/// block counts. `ores` is ordered by priority: the first ore whose
/// noise channel and depth bounds match wins.
#[derive(Clone, Debug)]
pub struct BiomeSettings {
    /// Biome-selection threshold on the low-frequency biome noise.
    pub v: i64,
    pub terrain_frequency: i64,
    pub terrain_divider: i64,
    pub cave_frequency: i64,
    pub cave_divider: i64,
    pub height_multiplier: i64,
    pub height_addition: i64,
    /// A cave sample must exceed this threshold for the block to exist.
    pub air_probability: i64,
    pub exposed_block_top_layer_height: i64,
    pub exposed_block_layer_height: i64,
    pub tree_kind: TreeKind,
    /// A surface block hosts a structure with chance one in `tree_chance`.
    pub tree_chance: i64,
    pub exposed_block_top: BlockKind,
    pub exposed_block: BlockKind,
    /// Decorrelation offset between the ore noise channels.
    pub ores_map_step: i64,
    pub ores: Vec<OreSettings>,
}

/// World-level parameters: the seed, the shared fractal-noise shape, and
/// the biome table (a single active biome, selected by `biome_frequency`
/// noise thresholded against each biome's `v`).
#[derive(Clone, Debug)]
pub struct WorldSettings {
    pub seed: u64,
    pub octaves: i64,
    pub lacunarity: i64,
    pub biome_frequency: i64,
    pub biome_divider: i64,
    pub plain: BiomeSettings,
}

/// Why a configuration was rejected before any generation ran.
#[derive(Clone, Copy, Debug, PartialEq, Eq, Structural)]
pub enum ConfigError {
    NonPositiveDivider,
    NonPositiveFrequency,
    OctavesOutOfRange,
    LacunarityOutOfRange,
    HeightRangeInvalid,
    LayerDepthOutOfRange,
    TreeChanceOutOfRange,
    ExposedKindIsOre,
    OreStepOutOfRange,
    OreListSizeInvalid,
    OreKindInvalid,
    DuplicateOreKind,
    RenderDistanceOutOfRange,
}

pub open spec fn valid_ore(o: OreSettings) -> bool {
    &&& is_ore_kind(o.kind)
    &&& 1 <= o.divider <= 1_000_000_000
    &&& 1 <= o.rarity <= 1_000_000_000
}

/// The verdict on one ore entry: the first broken rule, in the order
/// the rules are checked, or success.
pub open spec fn ore_config_verdict(o: OreSettings) -> Result<(), ConfigError> {
    if !is_ore_kind(o.kind) {
        Err(ConfigError::OreKindInvalid)
    } else if !(1 <= o.divider <= 1_000_000_000) {
        Err(ConfigError::NonPositiveDivider)
    } else if !(1 <= o.rarity <= 1_000_000_000) {
        Err(ConfigError::NonPositiveFrequency)
    } else {
        Ok(())
    }
}

/// The verdict on the ore list: the first entry's verdict that is an
/// error, else success.
pub open spec fn ores_config_verdict(ores: Seq<OreSettings>, k: int) -> Result<(), ConfigError>
    decreases ores.len() - k,
{
    if k < 0 || k >= ores.len() {
        Ok(())
    } else if ore_config_verdict(ores[k]) is Err {
        ore_config_verdict(ores[k])
    } else {
        ores_config_verdict(ores, k + 1)
    }
}

/// The biome rules that precede the ore checks, as one conjunction.
pub open spec fn biome_scalar_rules(b: BiomeSettings) -> bool {
    &&& 1 <= b.terrain_divider <= 1_000_000_000
    &&& 1 <= b.cave_divider <= 1_000_000_000
    &&& 1 <= b.terrain_frequency <= 1_000_000_000
    &&& 1 <= b.cave_frequency <= 1_000_000_000
    &&& 0 <= b.height_multiplier <= b.height_addition <= 1_000_000
    &&& 0 <= b.exposed_block_top_layer_height <= 1_000_000
    &&& 0 <= b.exposed_block_layer_height <= 1_000_000
    &&& 1 <= b.tree_chance <= 1_000_000_000
    &&& !is_ore_kind(b.exposed_block_top)
    &&& !is_ore_kind(b.exposed_block)
    &&& 0 <= b.ores_map_step <= 1_000_000
    &&& 1 <= b.ores@.len() <= 16
}

/// The verdict on a biome: the first broken rule, in the order the
/// rules are checked, or success.
pub open spec fn biome_config_verdict(b: BiomeSettings) -> Result<(), ConfigError> {
    if !(1 <= b.terrain_divider <= 1_000_000_000 && 1 <= b.cave_divider <= 1_000_000_000) {
        Err(ConfigError::NonPositiveDivider)
    } else if !(1 <= b.terrain_frequency <= 1_000_000_000 && 1 <= b.cave_frequency
        <= 1_000_000_000) {
        Err(ConfigError::NonPositiveFrequency)
    } else if !(0 <= b.height_multiplier <= b.height_addition <= 1_000_000) {
        Err(ConfigError::HeightRangeInvalid)
    } else if !(0 <= b.exposed_block_top_layer_height <= 1_000_000 && 0
        <= b.exposed_block_layer_height <= 1_000_000) {
        Err(ConfigError::LayerDepthOutOfRange)
    } else if !(1 <= b.tree_chance <= 1_000_000_000) {
        Err(ConfigError::TreeChanceOutOfRange)
    } else if is_ore_kind(b.exposed_block_top) || is_ore_kind(b.exposed_block) {
        Err(ConfigError::ExposedKindIsOre)
    } else if !(0 <= b.ores_map_step <= 1_000_000) {
        Err(ConfigError::OreStepOutOfRange)
    } else if !(1 <= b.ores@.len() <= 16) {
        Err(ConfigError::OreListSizeInvalid)
    } else if ores_config_verdict(b.ores@, 0) is Err {
        ores_config_verdict(b.ores@, 0)
    } else if exists|i: int, j: int|
        0 <= i < j < b.ores@.len() && #[trigger] b.ores@[i].kind == #[trigger] b.ores@[j].kind {
        Err(ConfigError::DuplicateOreKind)
    } else {
        Ok(())
    }
}

/// The verdict on the world settings: the first broken world-level
/// rule, else the biome's verdict.
pub open spec fn world_config_verdict(w: WorldSettings) -> Result<(), ConfigError> {
    if !(1 <= w.octaves <= 100) {
        Err(ConfigError::OctavesOutOfRange)
    } else if !(0 <= w.lacunarity <= 1_000_000_000) {
        Err(ConfigError::LacunarityOutOfRange)
    } else if !(1 <= w.biome_frequency <= 1_000_000_000) {
        Err(ConfigError::NonPositiveFrequency)
    } else if !(1 <= w.biome_divider <= 1_000_000_000) {
        Err(ConfigError::NonPositiveDivider)
    } else {
        biome_config_verdict(w.plain)
    }
}

pub open spec fn valid_biome(b: BiomeSettings) -> bool {
    &&& 1 <= b.terrain_divider <= 1_000_000_000
    &&& 1 <= b.cave_divider <= 1_000_000_000
    &&& 1 <= b.terrain_frequency <= 1_000_000_000
    &&& 1 <= b.cave_frequency <= 1_000_000_000
    &&& 0 <= b.height_multiplier <= b.height_addition <= 1_000_000
    &&& 0 <= b.exposed_block_top_layer_height <= 1_000_000
    &&& 0 <= b.exposed_block_layer_height <= 1_000_000
    &&& 1 <= b.tree_chance <= 1_000_000_000
    &&& !is_ore_kind(b.exposed_block_top)
    &&& !is_ore_kind(b.exposed_block)
    &&& 0 <= b.ores_map_step <= 1_000_000
    &&& 1 <= b.ores@.len() <= 16
    &&& (forall|i: int| 0 <= i < b.ores@.len() ==> valid_ore(#[trigger] b.ores@[i]))
    &&& (forall|i: int, j: int|
        0 <= i < j < b.ores@.len() ==> #[trigger] b.ores@[i].kind != #[trigger] b.ores@[j].kind)
}

pub open spec fn valid_world(w: WorldSettings) -> bool {
    &&& 1 <= w.octaves <= 100
    &&& 0 <= w.lacunarity <= 1_000_000_000
    &&& 1 <= w.biome_frequency <= 1_000_000_000
    &&& 1 <= w.biome_divider <= 1_000_000_000
    &&& valid_biome(w.plain)
}

impl OreSettings {
    /// Rejects an ore entry whose kind is not an ore material or whose
    /// divider or channel frequency is not positive.
    pub fn validate(&self) -> (r: Result<(), ConfigError>)
        ensures
            r == ore_config_verdict(*self),
            r is Ok <==> valid_ore(*self),
    {
        if !(matches!(self.kind, BlockKind::CoalOre | BlockKind::CopperOre | BlockKind::IronOre
            | BlockKind::GoldOre | BlockKind::DiamondOre)) {
            Err(ConfigError::OreKindInvalid)
        } else if !(1 <= self.divider && self.divider <= 1_000_000_000) {
            Err(ConfigError::NonPositiveDivider)
        } else if !(1 <= self.rarity && self.rarity <= 1_000_000_000) {
            Err(ConfigError::NonPositiveFrequency)
        } else {
            Ok(())
        }
    }
}

impl BiomeSettings {
    /// Validates every biome parameter eagerly, before any generation
    /// runs: dividers and frequencies must be positive, the height range
    /// must keep every surface row at or above bedrock, layer depths,
    /// tree chance and the ore decorrelation step must lie in range, the
    /// exposed materials may not be ores, and the ore list must be
    /// non-empty with pairwise distinct ore kinds.
    pub fn validate(&self) -> (r: Result<(), ConfigError>)
        ensures
            r == biome_config_verdict(*self),
            r is Ok <==> valid_biome(*self),
    {
        if !(1 <= self.terrain_divider && self.terrain_divider <= 1_000_000_000)
            || !(1 <= self.cave_divider && self.cave_divider <= 1_000_000_000) {
            return Err(ConfigError::NonPositiveDivider);
        }
        if !(1 <= self.terrain_frequency && self.terrain_frequency <= 1_000_000_000)
            || !(1 <= self.cave_frequency && self.cave_frequency <= 1_000_000_000) {
            return Err(ConfigError::NonPositiveFrequency);
        }
        if !(0 <= self.height_multiplier && self.height_multiplier <= self.height_addition
            && self.height_addition <= 1_000_000) {
            return Err(ConfigError::HeightRangeInvalid);
        }
        if !(0 <= self.exposed_block_top_layer_height
            && self.exposed_block_top_layer_height <= 1_000_000)
            || !(0 <= self.exposed_block_layer_height
            && self.exposed_block_layer_height <= 1_000_000) {
            return Err(ConfigError::LayerDepthOutOfRange);
        }
        if !(1 <= self.tree_chance && self.tree_chance <= 1_000_000_000) {
            return Err(ConfigError::TreeChanceOutOfRange);
        }
        if matches!(self.exposed_block_top, BlockKind::CoalOre | BlockKind::CopperOre
            | BlockKind::IronOre | BlockKind::GoldOre | BlockKind::DiamondOre)
            || matches!(self.exposed_block, BlockKind::CoalOre | BlockKind::CopperOre
            | BlockKind::IronOre | BlockKind::GoldOre | BlockKind::DiamondOre) {
            return Err(ConfigError::ExposedKindIsOre);
        }
        if !(0 <= self.ores_map_step && self.ores_map_step <= 1_000_000) {
            return Err(ConfigError::OreStepOutOfRange);
        }
        if self.ores.len() < 1 || self.ores.len() > 16 {
            return Err(ConfigError::OreListSizeInvalid);
        }
        let mut i: usize = 0;
        while i < self.ores.len()
            invariant
                biome_scalar_rules(*self),
                0 <= i <= self.ores@.len(),
                forall|k: int| 0 <= k < i ==> valid_ore(#[trigger] self.ores@[k]),
                ores_config_verdict(self.ores@, 0) == ores_config_verdict(self.ores@, i as int),
            decreases self.ores@.len() - i,
        {
            match self.ores[i].validate() {
                Ok(()) => {
                    assert(ores_config_verdict(self.ores@, i as int) == ores_config_verdict(
                        self.ores@,
                        i as int + 1,
                    ));
                },
                Err(e) => {
                    assert(ores_config_verdict(self.ores@, i as int) == Err::<(), ConfigError>(e));
                    return Err(e);
                },
            }
            i = i + 1;
        }
        assert(ores_config_verdict(self.ores@, 0) is Ok);
        let mut a: usize = 0;
        while a < self.ores.len()
            invariant
                biome_scalar_rules(*self),
                forall|k: int| 0 <= k < self.ores@.len() ==> valid_ore(#[trigger] self.ores@[k]),
                ores_config_verdict(self.ores@, 0) is Ok,
                0 <= a <= self.ores@.len(),
                forall|i: int, j: int|
                    0 <= i < j < self.ores@.len() && i < a
                        ==> #[trigger] self.ores@[i].kind != #[trigger] self.ores@[j].kind,
            decreases self.ores@.len() - a,
        {
            let mut c: usize = a + 1;
            while c < self.ores.len()
                invariant
                    biome_scalar_rules(*self),
                    forall|k: int|
                        0 <= k < self.ores@.len() ==> valid_ore(#[trigger] self.ores@[k]),
                    ores_config_verdict(self.ores@, 0) is Ok,
                    forall|i: int, j: int|
                        0 <= i < j < self.ores@.len() && i < a
                            ==> #[trigger] self.ores@[i].kind != #[trigger] self.ores@[j].kind,
                    0 <= a < c <= self.ores@.len(),
                    forall|j: int| a < j < c ==> self.ores@[a as int].kind != #[trigger] self.ores@[j].kind,
                decreases self.ores@.len() - c,
            {
                if self.ores[a].kind == self.ores[c].kind {
                    assert(self.ores@[a as int].kind == self.ores@[c as int].kind);
                    return Err(ConfigError::DuplicateOreKind);
                }
                c = c + 1;
            }
            a = a + 1;
        }
        Ok(())
    }
}

impl WorldSettings {
    /// Validates the world-level noise shape and the active biome.
    pub fn validate(&self) -> (r: Result<(), ConfigError>)
        ensures
            r == world_config_verdict(*self),
            r is Ok <==> valid_world(*self),
    {
        if !(1 <= self.octaves && self.octaves <= 100) {
            return Err(ConfigError::OctavesOutOfRange);
        }
        if !(0 <= self.lacunarity && self.lacunarity <= 1_000_000_000) {
            return Err(ConfigError::LacunarityOutOfRange);
        }
        if !(1 <= self.biome_frequency && self.biome_frequency <= 1_000_000_000) {
            return Err(ConfigError::NonPositiveFrequency);
        }
        if !(1 <= self.biome_divider && self.biome_divider <= 1_000_000_000) {
            return Err(ConfigError::NonPositiveDivider);
        }
        self.plain.validate()
    }

    /// The shipped plains configuration: the seed is zero, the terrain
    /// rolls gently around row 90, caves open below a slightly negative
    /// air threshold, grass over dirt covers the crust, oaks appear on
    /// one surface block in six, and five ores are probed rarest first.
    pub fn plains_default() -> (r: WorldSettings)
        ensures
            valid_world(r),
            r.seed == 0,
            r.octaves == 2,
            r.lacunarity == 5_000_000,
            r.biome_frequency == 800_000,
            r.biome_divider == 100,
            r.plain.v == 0,
            r.plain.terrain_frequency == 1_000_000,
            r.plain.terrain_divider == 200,
            r.plain.cave_frequency == 13_000_000,
            r.plain.cave_divider == 200,
            r.plain.height_multiplier == 40,
            r.plain.height_addition == 90,
            r.plain.air_probability == -130_000,
            r.plain.exposed_block_top_layer_height == 1,
            r.plain.exposed_block_layer_height == 3,
            r.plain.tree_kind == TreeKind::Oak,
            r.plain.tree_chance == 6,
            r.plain.exposed_block_top == BlockKind::Grass,
            r.plain.exposed_block == BlockKind::Dirt,
            r.plain.ores_map_step == 10,
            r.plain.ores@.len() == 5,
            r.plain.ores@[0] == (OreSettings {
                kind: BlockKind::DiamondOre,
                rarity: 3_500_000,
                size: -250_000i64,
                divider: 7,
                below: Some(15),
                above: None,
            }),
            r.plain.ores@[1] == (OreSettings {
                kind: BlockKind::GoldOre,
                rarity: 4_500_000,
                size: -250_000i64,
                divider: 8,
                below: Some(30),
                above: Some(5),
            }),
            r.plain.ores@[2] == (OreSettings {
                kind: BlockKind::IronOre,
                rarity: 3_500_000,
                size: -180_000i64,
                divider: 10,
                below: None,
                above: None,
            }),
            r.plain.ores@[3] == (OreSettings {
                kind: BlockKind::CopperOre,
                rarity: 1_000_000,
                size: -180_000i64,
                divider: 4,
                below: None,
                above: Some(20),
            }),
            r.plain.ores@[4] == (OreSettings {
                kind: BlockKind::CoalOre,
                rarity: 500_000,
                size: -180_000i64,
                divider: 3,
                below: None,
                above: Some(20),
            }),
    {
        let ores: Vec<OreSettings> = vec![
            OreSettings {
                kind: BlockKind::DiamondOre,
                rarity: 3_500_000,
                size: -250_000i64,
                divider: 7,
                below: Some(15),
                above: None,
            },
            OreSettings {
                kind: BlockKind::GoldOre,
                rarity: 4_500_000,
                size: -250_000i64,
                divider: 8,
                below: Some(30),
                above: Some(5),
            },
            OreSettings {
                kind: BlockKind::IronOre,
                rarity: 3_500_000,
                size: -180_000i64,
                divider: 10,
                below: None,
                above: None,
            },
            OreSettings {
                kind: BlockKind::CopperOre,
                rarity: 1_000_000,
                size: -180_000i64,
                divider: 4,
                below: None,
                above: Some(20),
            },
            OreSettings {
                kind: BlockKind::CoalOre,
                rarity: 500_000,
                size: -180_000i64,
                divider: 3,
                below: None,
                above: Some(20),
            },
        ];
        let plain = BiomeSettings {
            v: 0,
            terrain_frequency: 1_000_000,
            terrain_divider: 200,
            cave_frequency: 13_000_000,
            cave_divider: 200,
            height_multiplier: 40,
            height_addition: 90,
            air_probability: -130_000,
            exposed_block_top_layer_height: 1,
            exposed_block_layer_height: 3,
            tree_kind: TreeKind::Oak,
            tree_chance: 6,
            exposed_block_top: BlockKind::Grass,
            exposed_block: BlockKind::Dirt,
            ores_map_step: 10,
            ores,
        };
        WorldSettings {
            seed: 0,
            octaves: 2,
            lacunarity: 5_000_000,
            biome_frequency: 800_000,
            biome_divider: 100,
            plain,
        }
    }
}

/// Picks the biome for a column from its low-frequency biome noise
/// sample: the first candidate, in order, whose threshold the sample
/// does not exceed, or none when the sample exceeds every threshold.
pub fn select_biome(sample: i64, thresholds: &Vec<i64>) -> (r: Option<usize>)
    ensures
        (r matches Some(i) ==> i < thresholds@.len() && sample <= thresholds@[i as int]
            && (forall|j: int| 0 <= j < i ==> sample > #[trigger] thresholds@[j])),
        (r is None ==> forall|j: int|
            0 <= j < thresholds@.len() ==> sample > #[trigger] thresholds@[j]),
{
    let mut i: usize = 0;
    while i < thresholds.len()
        invariant
            0 <= i <= thresholds@.len(),
            forall|j: int| 0 <= j < i ==> sample > #[trigger] thresholds@[j],
        decreases thresholds@.len() - i,
    {
        if sample <= thresholds[i] {
            return Some(i);
        }
        i = i + 1;
    }
    None
}

} // verus!
