//! Tile flags and packed tile round-trips.
use tileworld::tile::{Tile, TileFlags};

#[test]
fn test_tile_flags() {
    let mut f = TileFlags::none();
    assert!(!f.contains(TileFlags::solid()));

    f.insert(TileFlags::solid());
    assert!(f.contains(TileFlags::solid()));

    f.remove(TileFlags::solid());
    assert!(!f.contains(TileFlags::solid()));
}

#[test]
fn test_tile_packing() {
    let original = Tile {
        material: 123,
        flags: TileFlags::solid().union(TileFlags::opaque()),
        variant: 42,
    };

    let packed = original.pack();

    let expected = (42 << 24) | (3 << 16) | 123;
    assert_eq!(packed, expected);

    let unpacked = Tile::unpack(packed);
    assert_eq!(original, unpacked);
}

#[test]
fn test_unpack_truncates_undefined_flag_bits() {
    // an undefined flag bit (0x80) in the packed word is dropped
    let packed = (1u32 << 24) | (0x83u32 << 16) | 7u32;
    let t = Tile::unpack(packed);
    assert_eq!(t.material, 7);
    assert_eq!(t.variant, 1);
    assert_eq!(
        t.flags,
        TileFlags::solid().union(TileFlags::opaque())
    );
}

#[test]
fn test_void_tile_default() {
    let t = Tile::default();
    assert!(t.is_empty());
    assert_eq!(t.pack(), 0);
    assert_eq!(Tile::unpack(0), t);
    assert_eq!(t.flags, TileFlags::none());
}

#[test]
fn test_flag_constants_are_independent() {
    let all = TileFlags::solid()
        .union(TileFlags::opaque())
        .union(TileFlags::liquid())
        .union(TileFlags::walkable());
    assert!(all.contains(TileFlags::solid()));
    assert!(all.contains(TileFlags::opaque()));
    assert!(all.contains(TileFlags::liquid()));
    assert!(all.contains(TileFlags::walkable()));
    assert_eq!(TileFlags::from_bits_truncate(0xFF), all);
    assert_eq!(TileFlags::from_bits_truncate(0xF0), TileFlags::none());
}
