//! Tiles and their property flags.
//!
//! A tile is a 4-byte value object: a 16-bit material id, an 8-bit flag set
//! (of which only four bits are defined) and an 8-bit cosmetic variant. It
//! packs losslessly into a `u32` for compact, comparable palette storage.
use vstd::prelude::*;

verus! {

/// Flag bit marking a tile as solid (blocks movement).
pub const FLAG_SOLID: u8 = 1;

/// Flag bit marking a tile as opaque (blocks light).
pub const FLAG_OPAQUE: u8 = 2;

/// Flag bit marking a tile as liquid.
pub const FLAG_LIQUID: u8 = 4;

/// Flag bit marking a tile as walkable floor.
pub const FLAG_WALKABLE: u8 = 8;

/// A set of tile property flags. Only the low four bits are defined;
/// every constructor and operation keeps the high four bits clear.
#[derive(Clone, Copy, Debug, PartialEq, Eq, Structural, Hash)]
pub struct TileFlags {
    pub bits: u8,
}

impl TileFlags {
    /// Only the four defined flag bits may be set.
    pub open spec fn wf(self) -> bool {
        self.bits < 16
    }

    /// Whether the solid flag is set.
    pub open spec fn spec_solid(self) -> bool {
        self.bits & FLAG_SOLID == FLAG_SOLID
    }

    /// Whether the opaque flag is set.
    pub open spec fn spec_opaque(self) -> bool {
        self.bits & FLAG_OPAQUE == FLAG_OPAQUE
    }

    /// The empty flag set.
    pub fn none() -> (r: TileFlags)
        ensures
            r.bits == 0,
    {
        TileFlags { bits: 0 }
    }

    /// The flag set holding only the solid flag.
    pub fn solid() -> (r: TileFlags)
        ensures
            r.bits == FLAG_SOLID,
    {
        TileFlags { bits: FLAG_SOLID }
    }

    /// The flag set holding only the opaque flag.
    pub fn opaque() -> (r: TileFlags)
        ensures
            r.bits == FLAG_OPAQUE,
    {
        TileFlags { bits: FLAG_OPAQUE }
    }

    /// The flag set holding only the liquid flag.
    pub fn liquid() -> (r: TileFlags)
        ensures
            r.bits == FLAG_LIQUID,
    {
        TileFlags { bits: FLAG_LIQUID }
    }

    /// The flag set holding only the walkable flag.
    pub fn walkable() -> (r: TileFlags)
        ensures
            r.bits == FLAG_WALKABLE,
    {
        TileFlags { bits: FLAG_WALKABLE }
    }

    /// Keeps the defined bits of `bits` and drops the rest.
    pub fn from_bits_truncate(bits: u8) -> (r: TileFlags)
        ensures
            r.bits == bits & 0xF,
            r.wf(),
    {
        proof {
            assert(bits & 0xF < 16) by (bit_vector);
        }
        TileFlags { bits: bits & 0xF }
    }

    /// Whether every flag of `other` is also set in `self`.
    pub fn contains(&self, other: TileFlags) -> (r: bool)
        ensures
            r == (self.bits & other.bits == other.bits),
    {
        self.bits & other.bits == other.bits
    }

    /// Adds the flags of `other`.
    pub fn insert(&mut self, other: TileFlags)
        ensures
            final(self).bits == old(self).bits | other.bits,
    {
        self.bits = self.bits | other.bits;
    }

    /// Removes the flags of `other`.
    pub fn remove(&mut self, other: TileFlags)
        ensures
            final(self).bits == old(self).bits & !other.bits,
    {
        self.bits = self.bits & !other.bits;
    }

    /// The union of the two flag sets.
    pub fn union(self, other: TileFlags) -> (r: TileFlags)
        ensures
            r.bits == self.bits | other.bits,
    {
        TileFlags { bits: self.bits | other.bits }
    }
}

impl Default for TileFlags {
    /// The empty flag set.
    fn default() -> (r: TileFlags)
        ensures
            r.bits == 0,
    {
        TileFlags { bits: 0 }
    }
}

/// The basic unit of the map: material, flags and a cosmetic variant.
/// The default ("void") tile has material 0 and no flags; it is the
/// implicit value of every location never written to.
#[derive(Clone, Copy, Debug, PartialEq, Eq, Structural, Hash)]
pub struct Tile {
    pub material: u16,
    pub flags: TileFlags,
    pub variant: u8,
}

impl Tile {
    /// The void tile: material 0, no flags, variant 0.
    pub open spec fn spec_void() -> Tile {
        Tile { material: 0, flags: TileFlags { bits: 0 }, variant: 0 }
    }

    /// The packed form: `variant << 24 | flags << 16 | material`.
    pub open spec fn spec_pack(self) -> u32 {
        ((self.variant as u32) << 24) | ((self.flags.bits as u32) << 16) | (self.material as u32)
    }

    /// The tile a packed word denotes; undefined flag bits are dropped.
    pub open spec fn spec_unpack(packed: u32) -> Tile {
        Tile {
            material: (packed & 0xFFFF) as u16,
            flags: TileFlags { bits: ((packed >> 16) as u8) & 0xF },
            variant: ((packed >> 24) & 0xFF) as u8,
        }
    }

    /// Whether the tile is the void material.
    pub fn is_empty(&self) -> (r: bool)
        ensures
            r == (self.material == 0),
    {
        self.material == 0
    }

    /// Packs the tile into one `u32` for palette storage.
    pub fn pack(self) -> (r: u32)
        ensures
            r == self.spec_pack(),
    {
        ((self.variant as u32) << 24) | ((self.flags.bits as u32) << 16) | (self.material as u32)
    }

    /// Unpacks a palette word back into a tile, truncating undefined
    /// flag bits.
    pub fn unpack(packed: u32) -> (r: Tile)
        ensures
            r == Tile::spec_unpack(packed),
            r.flags.wf(),
    {
        let flag_byte: u8 = ((packed >> 16) & 0xFF) as u8;
        proof {
            assert((((packed >> 16) & 0xFF) as u8) & 0xF == ((packed >> 16) as u8) & 0xF)
                by (bit_vector);
        }
        Tile {
            material: (packed & 0xFFFF) as u16,
            flags: TileFlags::from_bits_truncate(flag_byte),
            variant: ((packed >> 24) & 0xFF) as u8,
        }
    }
}

impl Default for Tile {
    /// The void tile.
    fn default() -> (r: Tile)
        ensures
            r == Tile::spec_void(),
    {
        Tile { material: 0, flags: TileFlags { bits: 0 }, variant: 0 }
    }
}

/// Whether a packed tile word has the solid flag set.
pub open spec fn packed_solid(packed: u32) -> bool {
    packed & 0x10000 != 0
}

/// Whether a packed tile word has the opaque flag set.
pub open spec fn packed_opaque(packed: u32) -> bool {
    packed & 0x20000 != 0
}

/// The zero word is the packed void tile, and carries no flags.
pub proof fn lemma_void_packs_to_zero()
    ensures
        Tile::spec_unpack(0) == Tile::spec_void(),
        Tile::spec_void().spec_pack() == 0,
        !packed_solid(0),
        !packed_opaque(0),
{
    assert((0u32 & 0xFFFF) as u16 == 0 && ((0u32 >> 16) as u8) & 0xF == 0 && ((0u32 >> 24)
        & 0xFF) as u8 == 0 && (((0u8 as u32) << 24) | ((0u8 as u32) << 16) | (0u16 as u32)) == 0
        && 0u32 & 0x10000 == 0 && 0u32 & 0x20000 == 0) by (bit_vector);
}

/// Packing then unpacking restores every tile exactly, for every
/// material, every defined flag combination and every variant.
pub proof fn lemma_tile_pack_roundtrip(t: Tile)
    requires
        t.flags.wf(),
    ensures
        Tile::spec_unpack(t.spec_pack()) == t,
{
    let m = t.material;
    let b = t.flags.bits;
    let v = t.variant;
    let p = ((v as u32) << 24) | ((b as u32) << 16) | (m as u32);
    assert((p & 0xFFFF) as u16 == m) by (bit_vector)
        requires
            p == ((v as u32) << 24) | ((b as u32) << 16) | (m as u32),
    ;
    assert(((p >> 16) as u8) & 0xF == b) by (bit_vector)
        requires
            p == ((v as u32) << 24) | ((b as u32) << 16) | (m as u32),
            b < 16,
    ;
    assert(((p >> 24) & 0xFF) as u8 == v) by (bit_vector)
        requires
            p == ((v as u32) << 24) | ((b as u32) << 16) | (m as u32),
    ;
}

/// The solid and opaque bits of a packed word agree with the flags of
/// the tile it unpacks to.
pub proof fn lemma_packed_flag_bits(packed: u32)
    ensures
        packed_solid(packed) == Tile::spec_unpack(packed).flags.spec_solid(),
        packed_opaque(packed) == Tile::spec_unpack(packed).flags.spec_opaque(),
{
    assert((packed & 0x10000 != 0) == (((packed >> 16) as u8) & 0xF & 1u8 == 1u8) && (packed
        & 0x20000 != 0) == (((packed >> 16) as u8) & 0xF & 2u8 == 2u8)) by (bit_vector);
}

/// Packing preserves the solid and opaque flag bits.
pub proof fn lemma_pack_flag_bits(t: Tile)
    ensures
        packed_solid(t.spec_pack()) == t.flags.spec_solid(),
        packed_opaque(t.spec_pack()) == t.flags.spec_opaque(),
{
    let b = t.flags.bits;
    let v = t.variant;
    let m = t.material;
    let p = ((v as u32) << 24) | ((b as u32) << 16) | (m as u32);
    assert((p & 0x10000 != 0) == (b & 1u8 == 1u8) && (p & 0x20000 != 0) == (b & 2u8 == 2u8))
        by (bit_vector)
        requires
            p == ((v as u32) << 24) | ((b as u32) << 16) | (m as u32),
    ;
}

} // verus!
