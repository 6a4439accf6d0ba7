//! Sparse overlays: hydration and per-cell overrides.
use tileworld::chunk::Chunk;
use tileworld::sparse::SparseChunk;
use tileworld::tile::{Tile, TileFlags};

#[test]
fn test_sparse_masks_hydration() {
    let mut base = Chunk::new();
    let wall = Tile { material: 1, flags: TileFlags::solid(), variant: 0 };
    base.set_tile(0, 0, wall);

    let mut sparse = SparseChunk::new();

    sparse.update_masks(Some(&base));
    assert!(sparse.solid_mask.get(0));

    let floor = Tile { material: 2, flags: TileFlags::none(), variant: 0 };
    sparse.set(0, 0, floor);

    assert!(!sparse.solid_mask.get(0));
}

#[test]
fn test_hydration_preserves_earlier_overrides() {
    // an edit recorded before hydration survives it
    let mut base = Chunk::new();
    let wall = Tile { material: 1, flags: TileFlags::solid(), variant: 0 };
    base.set_tile(0, 0, wall);
    base.set_tile(1, 0, wall);

    let mut sparse = SparseChunk::new();
    let floor = Tile { material: 2, flags: TileFlags::none(), variant: 0 };
    sparse.set(1, 0, floor);

    sparse.update_masks(Some(&base));
    // base's solid cell at index 0 is inherited
    assert!(sparse.solid_mask.get(0));
    // the pre-hydration override at index 1 is re-applied on top
    assert!(!sparse.solid_mask.get(1));
    assert_eq!(sparse.get(1, 0), Some(floor));
}

#[test]
fn test_hydration_without_base_clears_masks() {
    let mut sparse = SparseChunk::new();
    let wall = Tile { material: 3, flags: TileFlags::solid(), variant: 0 };
    sparse.set(2, 1, wall);
    sparse.update_masks(None);
    assert!(sparse.solid_mask.get(16 + 2));
    assert!(!sparse.solid_mask.get(0));
}

#[test]
fn test_sparse_get_absent_defers() {
    let sparse = SparseChunk::new();
    // absence means "defer to the static layer", not "void"
    assert_eq!(sparse.get(4, 4), None);
}
