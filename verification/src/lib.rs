//! Deterministic block-world generation and chunk streaming.
//!
//! A numeric seed plus biome parameters turn into an unbounded,
//! horizontally scrolling 2D block grid. Noise samples enter as
//! fixed-point integers; every decision taken on them — surface height,
//! cave carving, ore selection, surface-layer overrides, structure
//! placement with collision avoidance, and the streaming window that
//! loads chunks near the observer and evicts the rest — is verified.

pub mod block;
pub mod gen;
pub mod rng;
pub mod samples;
pub mod settings;
pub mod stream;
pub mod structure;
pub mod terrain;
pub mod utils;
