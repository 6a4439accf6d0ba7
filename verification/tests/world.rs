//! The composed world map and the spatial index.
use tileworld::chunk::Chunk;
use tileworld::geo::WorldPos;
use tileworld::guid::ObjectGuid;
use tileworld::spatial::SpatialGrid;
use tileworld::tile::{Tile, TileFlags};
use tileworld::world::WorldMap;

#[test]
fn test_world_layers_integration() {
    let mut world = WorldMap::new();
    let pos = WorldPos::new(10, 10, 0);

    let t_static = Tile { material: 1, flags: TileFlags::solid(), variant: 0 };
    let t_dynamic = Tile { material: 2, flags: TileFlags::liquid(), variant: 0 };

    let mut chunk = Chunk::new();
    let (lx, ly) = pos.local_coords();
    chunk.set_tile(lx, ly, t_static);
    world.put_chunk(pos.chunk_key(), chunk);

    assert_eq!(world.get_tile(pos).material, t_static.material);
    assert!(world.is_solid_fast(pos));

    world.set_tile(pos, t_dynamic);

    let current = world.get_tile(pos);
    assert_eq!(current.material, t_dynamic.material);

    assert!(!world.is_solid_fast(pos));
}

#[test]
fn test_empty_world_reads_void() {
    let world = WorldMap::new();
    let pos = WorldPos::new(-3, 99, 7);
    assert_eq!(world.get_tile(pos), Tile::default());
    assert!(!world.is_solid_fast(pos));
    assert!(!world.is_opaque_fast(pos));
}

#[test]
fn test_dynamic_write_hydrates_from_static() {
    // after the first dynamic edit to a chunk, untouched cells still
    // answer flag queries with the static chunk's state
    let mut world = WorldMap::new();
    let wall_pos = WorldPos::new(0, 0, 0);
    let edit_pos = WorldPos::new(1, 0, 0);

    let mut chunk = Chunk::new();
    let wall = Tile { material: 1, flags: TileFlags::solid(), variant: 0 };
    let (wx, wy) = wall_pos.local_coords();
    chunk.set_tile(wx, wy, wall);
    world.put_chunk(wall_pos.chunk_key(), chunk);

    let floor = Tile { material: 2, flags: TileFlags::walkable(), variant: 0 };
    world.set_tile(edit_pos, floor);

    assert!(world.is_solid_fast(wall_pos));
    assert!(!world.is_solid_fast(edit_pos));
    assert_eq!(world.get_tile(wall_pos).material, 1);
    assert_eq!(world.get_tile(edit_pos).material, 2);
}

#[test]
fn test_write_without_static_chunk() {
    let mut world = WorldMap::new();
    let pos = WorldPos::new(100, -200, 3);
    let lava = Tile {
        material: 8,
        flags: TileFlags::liquid().union(TileFlags::opaque()),
        variant: 2,
    };
    world.set_tile(pos, lava);
    assert_eq!(world.get_tile(pos), lava);
    assert!(world.is_opaque_fast(pos));
    assert!(!world.is_solid_fast(pos));
    // a neighbour in the same chunk is still void
    let neighbour = WorldPos::new(101, -200, 3);
    assert_eq!(world.get_tile(neighbour), Tile::default());
}

#[test]
fn test_put_chunk_replaces_static_slot() {
    let mut world = WorldMap::new();
    let pos = WorldPos::new(40, 40, 0);
    let (lx, ly) = pos.local_coords();

    let mut first = Chunk::new();
    first.set_tile(lx, ly, Tile { material: 1, flags: TileFlags::solid(), variant: 0 });
    world.put_chunk(pos.chunk_key(), first);
    assert!(world.is_solid_fast(pos));

    let mut second = Chunk::new();
    second.set_tile(lx, ly, Tile { material: 5, flags: TileFlags::walkable(), variant: 0 });
    world.put_chunk(pos.chunk_key(), second);
    assert_eq!(world.get_tile(pos).material, 5);
    assert!(!world.is_solid_fast(pos));
}

#[test]
fn test_spatial_grid_buckets() {
    let mut grid = SpatialGrid::new();
    let a = ObjectGuid::new(1, 1, 1, 1);
    let b = ObjectGuid::new(1, 1, 1, 2);
    let p = WorldPos::new(3, 3, 0);
    let q = WorldPos::new(5, 9, 0);
    let far = WorldPos::new(40, 0, 0);

    grid.insert(a, p);
    grid.insert(b, q);
    // p and q share the cell around the origin
    let bucket = grid.query_bucket(p);
    assert_eq!(bucket, vec![a, b]);
    assert_eq!(grid.query_bucket(far), vec![]);

    grid.move_entity(a, p, far);
    assert_eq!(grid.query_bucket(p), vec![b]);
    assert_eq!(grid.query_bucket(far), vec![a]);

    // a move within one cell changes nothing
    grid.move_entity(b, q, p);
    assert_eq!(grid.query_bucket(p), vec![b]);

    grid.remove(b, p);
    assert_eq!(grid.query_bucket(p), vec![]);
}
