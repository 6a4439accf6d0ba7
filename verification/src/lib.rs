//! A tiered spatial storage engine for a tile-based world.
//!
//! Positions are packed 64-bit coordinates; terrain is stored in
//! palette-compressed 16x16 chunks grouped into 32x32 regions (the static
//! layer), overlaid by sparse per-chunk edit sets grouped into shards (the
//! dynamic layer). A `WorldMap` merges the two layers into one read/write
//! interface, always preferring an explicit dynamic edit over static data.
use vstd::prelude::*;

pub mod bitmask;
pub mod chunk;
pub mod components;
pub mod geo;
pub mod grid;
pub mod guid;
pub mod input;
pub mod protocol;
pub mod region;
pub mod shard;
pub mod spatial;
pub mod sparse;
pub mod tile;
pub mod world;

verus! {

/// Side length of a chunk, in tiles.
pub const CHUNK_SIZE: usize = 16;

/// Number of tiles in a chunk (16 x 16).
pub const CHUNK_AREA: usize = 256;

/// Side length of a region, in chunks.
pub const REGION_SIZE: usize = 32;

/// Number of chunk slots in a region (32 x 32).
pub const REGION_AREA: usize = 1024;

/// Number of independent dynamic-layer shards.
pub const SHARD_COUNT: usize = 64;

} // verus!
