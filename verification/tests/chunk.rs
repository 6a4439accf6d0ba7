//! Bit masks, chunk palettes, mask maintenance and the bulk builder.
use tileworld::bitmask::BitMask256;
use tileworld::chunk::{Chunk, ChunkBuilder};
use tileworld::tile::{Tile, TileFlags};

#[test]
fn test_bitmask_operations() {
    let mut mask = BitMask256::default();

    mask.set(0, true);
    mask.set(63, true);
    mask.set(64, true);
    mask.set(255, true);

    assert!(mask.get(0));
    assert!(mask.get(63));
    assert!(mask.get(64));
    assert!(mask.get(255));

    assert!(!mask.get(1));

    mask.set(0, false);
    assert!(!mask.get(0));
}

#[test]
fn test_bitmask_merge() {
    let mut a = BitMask256::new();
    let mut b = BitMask256::new();
    a.set(3, true);
    b.set(200, true);
    a.merge(&b);
    assert!(a.get(3));
    assert!(a.get(200));
    assert!(!a.get(4));
}

#[test]
fn test_chunk_palette_logic() {
    let mut chunk = Chunk::new();

    let t1 = Tile { material: 1, flags: TileFlags::solid(), variant: 0 };
    let t2 = Tile { material: 2, flags: TileFlags::none(), variant: 0 };

    chunk.set_tile(0, 0, t1);
    assert_eq!(chunk.get_tile(0, 0), t1);
    assert_eq!(chunk.palette.len(), 2);

    chunk.set_tile(1, 1, t1);
    assert_eq!(chunk.palette.len(), 2);

    chunk.set_tile(2, 2, t2);
    assert_eq!(chunk.palette.len(), 3);
}

#[test]
fn test_chunk_masks_auto_update() {
    let mut chunk = Chunk::new();
    let solid = Tile { material: 1, flags: TileFlags::solid(), variant: 0 };

    assert!(!chunk.is_solid_local(5, 5));

    chunk.set_tile(5, 5, solid);

    assert!(chunk.is_solid_local(5, 5));
}

#[test]
fn test_chunk_masks_track_both_flags_per_cell() {
    let mut chunk = Chunk::new();
    let wall = Tile {
        material: 9,
        flags: TileFlags::solid().union(TileFlags::opaque()),
        variant: 0,
    };
    chunk.set_tile(3, 4, wall);
    assert!(chunk.is_solid_local(3, 4));
    assert!(chunk.is_opaque_local(3, 4));
    // untouched neighbours stay clear
    assert!(!chunk.is_solid_local(2, 4));
    assert!(!chunk.is_opaque_local(3, 5));

    // overwriting with a non-solid tile clears the cached bits
    let floor = Tile { material: 2, flags: TileFlags::walkable(), variant: 0 };
    chunk.set_tile(3, 4, floor);
    assert!(!chunk.is_solid_local(3, 4));
    assert!(!chunk.is_opaque_local(3, 4));
}

#[test]
fn test_chunk_out_of_range_access() {
    let mut chunk = Chunk::new();
    let t = Tile { material: 5, flags: TileFlags::none(), variant: 0 };
    assert!(!chunk.set_tile(16, 0, t));
    assert!(!chunk.set_tile(0, 16, t));
    assert_eq!(chunk.palette.len(), 1);
    assert_eq!(chunk.get_tile(16, 0), Tile::default());
    assert!(!chunk.is_solid_local(16, 0));
}

#[test]
fn test_chunk_palette_exhaustion() {
    let mut chunk = Chunk::new();
    // fill the palette: 255 distinct materials beside the reserved void
    for m in 1..=255u16 {
        let lx = ((m - 1) % 16) as usize;
        let ly = ((m - 1) / 16) as usize;
        assert!(chunk.set_tile(lx, ly, Tile { material: m, flags: TileFlags::none(), variant: 0 }));
    }
    assert_eq!(chunk.palette.len(), 256);
    // a 257th distinct tile is rejected and changes nothing
    let overflow = Tile { material: 300, flags: TileFlags::none(), variant: 0 };
    assert!(!chunk.set_tile(15, 15, overflow));
    assert_eq!(chunk.palette.len(), 256);
    // a tile already in the palette is still accepted
    assert!(chunk.set_tile(15, 15, Tile { material: 7, flags: TileFlags::none(), variant: 0 }));
    assert_eq!(chunk.get_tile(15, 15).material, 7);
}

#[test]
fn test_chunk_builder_matches_direct_writes() {
    let mut builder = ChunkBuilder::new();
    let wall = Tile { material: 4, flags: TileFlags::solid(), variant: 1 };
    let water = Tile { material: 6, flags: TileFlags::liquid(), variant: 0 };
    builder.set_tile(0, 0, wall);
    builder.set_tile(9, 9, water);
    builder.set_tile(1, 0, wall);
    let built = builder.build();

    assert_eq!(built.palette.len(), 3);
    assert_eq!(built.get_tile(0, 0), wall);
    assert_eq!(built.get_tile(1, 0), wall);
    assert_eq!(built.get_tile(9, 9), water);
    assert!(built.is_solid_local(0, 0));
    assert!(!built.is_solid_local(9, 9));
}

#[test]
fn test_rebuild_masks_recomputes_from_palette() {
    let mut chunk = Chunk::new();
    let wall = Tile {
        material: 3,
        flags: TileFlags::solid().union(TileFlags::opaque()),
        variant: 0,
    };
    chunk.set_tile(7, 2, wall);
    chunk.rebuild_masks();
    assert!(chunk.is_solid_local(7, 2));
    assert!(chunk.is_opaque_local(7, 2));
    assert!(!chunk.is_solid_local(0, 0));
}
