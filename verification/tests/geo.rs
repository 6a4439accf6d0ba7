//! Packed coordinates, derived keys, guids and grid geometry.
use tileworld::geo::WorldPos;
use tileworld::grid::{Direction, GridLogic};
use tileworld::guid::ObjectGuid;

#[test]
fn test_pos_packing_unpacking() {
    let cases = vec![
        (0, 0, 0),
        (10, 20, 5),
        (-1, -1, 0),
        (-100, 500, -5),
        (1024, -1024, 10),
    ];

    for (x, y, z) in cases {
        let p = WorldPos::new(x, y, z);
        assert_eq!(p.x(), x, "X mismatch");
        assert_eq!(p.y(), y, "Y mismatch");
        assert_eq!(p.z(), z, "Z mismatch");
    }
}

#[test]
fn test_chunk_keys() {
    let p = WorldPos::new(17, 0, 5);
    let ck = p.chunk_key();
    assert_eq!(ck.x(), 1);
    assert_eq!(ck.y(), 0);
    assert_eq!(ck.z(), 5);

    let p_neg = WorldPos::new(-17, 0, 0);
    let ck_neg = p_neg.chunk_key();
    assert_eq!(ck_neg.x(), -2);
}

#[test]
fn test_local_coords() {
    let p = WorldPos::new(17, 0, 0);
    let (lx, ly) = p.local_coords();
    assert_eq!(lx, 1);
    assert_eq!(ly, 0);

    let p_neg = WorldPos::new(-1, 0, 0);
    let (lx_neg, _) = p_neg.local_coords();
    assert_eq!(lx_neg, 15);
}

#[test]
fn test_region_key() {
    let chunk_pos = WorldPos::new(33, 0, 0);
    let reg_key = chunk_pos.region_key();
    assert_eq!(reg_key.x(), 1);
    assert_eq!(reg_key.y(), 0);
}

#[test]
fn test_axis_wrapping_at_field_boundary() {
    // one past the top of the x range wraps to the bottom, by design
    let p = WorldPos::new(0x2000000, 0, 0);
    assert_eq!(p.x(), -0x2000000);
    let q = WorldPos::new(-0x2000001, 0, 0);
    assert_eq!(q.x(), 0x1FFFFFF);
    let r = WorldPos::new(0, 0, 2048);
    assert_eq!(r.z(), -2048);
}

#[test]
fn test_shard_index_is_xor_of_low_bits() {
    // chunk (3, 5): 3 xor 5 == 6
    let ck = WorldPos::new(3, 5, 0);
    assert_eq!(ck.shard_index(), 6);
    // chunk (-1, 0): low six bits of -1 are 63
    let ck_neg = WorldPos::new(-1, 0, 0);
    assert_eq!(ck_neg.shard_index(), 63);
    let same = WorldPos::new(21, 21, 0);
    assert_eq!(same.shard_index(), 0);
}

#[test]
fn test_guid_packing_roundtrip() {
    let g = ObjectGuid::new(7, 3, 515, 70000);
    assert_eq!(g.shard_id(), 7);
    assert_eq!(g.type_id(), 3);
    assert_eq!(g.generation(), 515);
    assert_eq!(g.index(), 70000);
    assert_eq!(
        g.as_u64(),
        (7u64 << 56) | (3u64 << 48) | (515u64 << 32) | 70000u64
    );
    assert!(!g.is_nil());
    assert!(ObjectGuid::nil().is_nil());
}

#[test]
fn test_direction_offsets() {
    assert_eq!(Direction::Stay.offset(), (0, 0, 0));
    assert_eq!(Direction::North.offset(), (0, -1, 0));
    assert_eq!(Direction::SouthEast.offset(), (1, 1, 0));
    assert_eq!(Direction::Down.offset(), (0, 0, -1));
}

#[test]
fn test_grid_logic_geometry() {
    let p = WorldPos::new(10, 10, 0);
    let shifted = p.shift(Direction::East);
    assert_eq!(shifted.xyz(), (11, 10, 0));

    let q = WorldPos::new(13, 14, 0);
    assert_eq!(p.distance_squared(q), 9 + 16);
    assert_eq!(p.manhattan_distance(q), 7);
    assert!(p.is_in_radius(q, 5));
    assert!(!p.is_in_radius(q, 4));
}
