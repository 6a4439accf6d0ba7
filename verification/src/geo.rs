//! Packed world coordinates.
//!
//! A position is a signed (x, y, z) triple packed into one 64-bit word with
//! layout `[ z (12 bits) | y (26 bits) | x (26 bits) ]`. Each axis is stored
//! biased by half its field range, so negative values round-trip through
//! plain unsigned masking. Values outside the representable range wrap
//! silently: the encoding masks, it never fails.
//!
//! All derived keys (chunk, region, shard, local offsets) are pure functions
//! of the packed word.
use vstd::prelude::*;
use vstd::arithmetic::div_mod::{lemma_fundamental_div_mod, lemma_fundamental_div_mod_converse};

verus! {

/// Half the range of a 26-bit axis field: the bias added to x and y.
pub const AXIS_BIAS_XY: u64 = 0x2000000;

/// Half the range of the 12-bit z field: the bias added to z.
pub const AXIS_BIAS_Z: u64 = 0x800;

/// A packed (x, y, z) coordinate.
#[derive(Clone, Copy, Debug, PartialEq, Eq, Structural, Hash, PartialOrd, Ord)]
pub struct WorldPos(pub u64);

/// The biased 26-bit field a signed value is stored as on the x or y axis.
pub open spec fn enc26(v: i32) -> u64 {
    ((v as u64 + 0x2000000) as u64) & 0x3FFFFFF
}

/// The biased 12-bit field a signed value is stored as on the z axis.
pub open spec fn enc12(v: i32) -> u64 {
    ((v as u64 + 0x800) as u64) & 0xFFF
}

/// The packed word holding the three biased fields.
pub open spec fn spec_encode(x: i32, y: i32, z: i32) -> u64 {
    (enc12(z) << 52) | (enc26(y) << 26) | enc26(x)
}

/// The value a 26-bit axis wraps to: the representative of `v` modulo
/// 2^26 lying in the field's signed range.
pub open spec fn wrap26i(v: int) -> int {
    (v + 0x2000000) % 0x4000000 - 0x2000000
}

/// The value the 12-bit z axis wraps to.
pub open spec fn wrap12i(v: int) -> int {
    (v + 0x800) % 0x1000 - 0x800
}

impl WorldPos {
    /// The stored (biased) x field.
    pub open spec fn spec_field_x(self) -> u64 {
        self.0 & 0x3FFFFFF
    }

    /// The stored (biased) y field.
    pub open spec fn spec_field_y(self) -> u64 {
        (self.0 >> 26) & 0x3FFFFFF
    }

    /// The stored (biased) z field.
    pub open spec fn spec_field_z(self) -> u64 {
        (self.0 >> 52) & 0xFFF
    }

    /// The signed x coordinate the word denotes.
    pub open spec fn spec_x(self) -> int {
        self.spec_field_x() - 0x2000000
    }

    /// The signed y coordinate the word denotes.
    pub open spec fn spec_y(self) -> int {
        self.spec_field_y() - 0x2000000
    }

    /// The signed z coordinate the word denotes.
    pub open spec fn spec_z(self) -> int {
        self.spec_field_z() - 0x800
    }

    /// Packs a coordinate triple. Out-of-range values wrap by masking;
    /// `lemma_coordinate_roundtrip` shows in-range values are preserved.
    pub fn new(x: i32, y: i32, z: i32) -> (r: WorldPos)
        ensures
            r.0 == spec_encode(x, y, z),
            r.spec_x() == wrap26i(x as int),
            r.spec_y() == wrap26i(y as int),
            r.spec_z() == wrap12i(z as int),
    {
        proof {
            lemma_encode_coords(x, y, z);
        }
        let ux: u64 = (((x as i64) + 0x2000000) as u64) & 0x3FFFFFF;
        let uy: u64 = (((y as i64) + 0x2000000) as u64) & 0x3FFFFFF;
        let uz: u64 = (((z as i64) + 0x800) as u64) & 0xFFF;
        proof {
            assert((((x as i64) + 0x2000000) as u64) & 0x3FFFFFF == ((x as u64 + 0x2000000) as u64)
                & 0x3FFFFFF && (((y as i64) + 0x2000000) as u64) & 0x3FFFFFF == ((y as u64
                + 0x2000000) as u64) & 0x3FFFFFF && (((z as i64) + 0x800) as u64) & 0xFFF == ((
            z as u64 + 0x800) as u64) & 0xFFF) by (bit_vector);
        }
        WorldPos((uz << 52) | (uy << 26) | ux)
    }

    /// The signed x coordinate.
    pub fn x(&self) -> (r: i32)
        ensures
            r == self.spec_x(),
            -0x2000000 <= r < 0x2000000,
    {
        let f: u64 = self.0 & 0x3FFFFFF;
        proof {
            let w = self.0;
            assert(w & 0x3FFFFFF <= 0x3FFFFFF) by (bit_vector);
        }
        (f as i32) - 0x2000000
    }

    /// The signed y coordinate.
    pub fn y(&self) -> (r: i32)
        ensures
            r == self.spec_y(),
            -0x2000000 <= r < 0x2000000,
    {
        let f: u64 = (self.0 >> 26) & 0x3FFFFFF;
        proof {
            let w = self.0;
            assert((w >> 26) & 0x3FFFFFF <= 0x3FFFFFF) by (bit_vector);
        }
        (f as i32) - 0x2000000
    }

    /// The signed z coordinate.
    pub fn z(&self) -> (r: i32)
        ensures
            r == self.spec_z(),
            -0x800 <= r < 0x800,
    {
        let f: u64 = (self.0 >> 52) & 0xFFF;
        proof {
            let w = self.0;
            assert((w >> 52) & 0xFFF <= 0xFFF) by (bit_vector);
        }
        (f as i32) - 0x800
    }

    /// All three coordinates at once.
    pub fn xyz(&self) -> (r: (i32, i32, i32))
        ensures
            r.0 == self.spec_x(),
            r.1 == self.spec_y(),
            r.2 == self.spec_z(),
    {
        (self.x(), self.y(), self.z())
    }

    /// The key of the chunk holding this position: x and y divided by the
    /// chunk side (16) rounding toward negative infinity, z unchanged.
    pub open spec fn spec_chunk_key(self) -> WorldPos {
        WorldPos(
            (((self.0 >> 52) & 0xFFF) << 52) | ((((((self.0 >> 26) & 0x3FFFFFF) >> 4)
                + 0x1E00000) as u64) << 26) | ((((self.0 & 0x3FFFFFF) >> 4) + 0x1E00000) as u64),
        )
    }

    /// The offset of this position inside its chunk, on the x axis.
    pub open spec fn spec_local_x(self) -> int {
        (self.0 & 0xF) as int
    }

    /// The offset of this position inside its chunk, on the y axis.
    pub open spec fn spec_local_y(self) -> int {
        ((self.0 >> 26) & 0xF) as int
    }

    /// The flat cell index of this position inside its chunk.
    pub open spec fn spec_local_index(self) -> int {
        self.spec_local_y() * 16 + self.spec_local_x()
    }

    /// The key of the region holding this chunk key: x and y divided by the
    /// region side (32) rounding toward negative infinity, z forced to 0.
    pub open spec fn spec_region_key(self) -> WorldPos {
        WorldPos(
            (0x800u64 << 52) | (((((((self.0 >> 26) & 0x3FFFFFF) >> 5) + 0x1F00000) as u64)) << 26)
                | ((((self.0 & 0x3FFFFFF) >> 5) + 0x1F00000) as u64),
        )
    }

    /// The chunk slot of this chunk key inside its region.
    pub open spec fn spec_region_slot(self) -> int {
        ((self.0 >> 26) & 0x1F) * 32 + (self.0 & 0x1F)
    }

    /// The shard owning this chunk key: the exclusive-or of the low six
    /// bits of the chunk x and y coordinates.
    pub open spec fn spec_shard_index(self) -> int {
        ((self.0 & 0x3F) ^ ((self.0 >> 26) & 0x3F)) as int
    }

    /// Derives the key of the chunk holding this position.
    pub fn chunk_key(&self) -> (r: WorldPos)
        ensures
            r == self.spec_chunk_key(),
            r.spec_x() == self.spec_x() / 16,
            r.spec_y() == self.spec_y() / 16,
            r.spec_z() == self.spec_z(),
    {
        let fx: u64 = self.0 & 0x3FFFFFF;
        let fy: u64 = (self.0 >> 26) & 0x3FFFFFF;
        let fz: u64 = (self.0 >> 52) & 0xFFF;
        proof {
            let w = self.0;
            assert(w & 0x3FFFFFF <= 0x3FFFFFF && (w >> 26) & 0x3FFFFFF <= 0x3FFFFFF && (w >> 52)
                & 0xFFF <= 0xFFF && (w & 0x3FFFFFF) >> 4 <= 0x3FFFFF && ((w >> 26) & 0x3FFFFFF)
                >> 4 <= 0x3FFFFF) by (bit_vector);
        }
        let cfx: u64 = (fx >> 4) + 0x1E00000;
        let cfy: u64 = (fy >> 4) + 0x1E00000;
        let r = WorldPos((fz << 52) | (cfy << 26) | cfx);
        proof {
            lemma_biased_shift4(self.0, r.0);
        }
        r
    }

    /// Derives the offset of this position inside its chunk.
    pub fn local_coords(&self) -> (r: (usize, usize))
        ensures
            r.0 == self.spec_local_x(),
            r.1 == self.spec_local_y(),
            r.0 == self.spec_x() % 16,
            r.1 == self.spec_y() % 16,
            r.0 < 16,
            r.1 < 16,
    {
        let lx: usize = (self.0 & 0xF) as usize;
        let ly: usize = ((self.0 >> 26) & 0xF) as usize;
        proof {
            let w = self.0;
            assert(w & 0xF <= 0xF && (w >> 26) & 0xF <= 0xF) by (bit_vector);
            lemma_local_is_mod16(self.0);
        }
        (lx, ly)
    }

    /// Derives the key of the region holding this chunk key. Meaningful on
    /// a chunk key; z is not carried over.
    pub fn region_key(&self) -> (r: WorldPos)
        ensures
            r == self.spec_region_key(),
            r.spec_x() == self.spec_x() / 32,
            r.spec_y() == self.spec_y() / 32,
            r.spec_z() == 0,
    {
        let fx: u64 = self.0 & 0x3FFFFFF;
        let fy: u64 = (self.0 >> 26) & 0x3FFFFFF;
        proof {
            let w = self.0;
            assert(w & 0x3FFFFFF <= 0x3FFFFFF && (w >> 26) & 0x3FFFFFF <= 0x3FFFFFF && (w
                & 0x3FFFFFF) >> 5 <= 0x1FFFFF && ((w >> 26) & 0x3FFFFFF) >> 5 <= 0x1FFFFF)
                by (bit_vector);
        }
        let rfx: u64 = (fx >> 5) + 0x1F00000;
        let rfy: u64 = (fy >> 5) + 0x1F00000;
        let r = WorldPos((0x800u64 << 52) | (rfy << 26) | rfx);
        proof {
            lemma_biased_shift5(self.0, r.0);
        }
        r
    }

    /// Derives the index of the shard owning this chunk key.
    pub fn shard_index(&self) -> (r: usize)
        ensures
            r == self.spec_shard_index(),
            r < 64,
    {
        let sx: u64 = self.0 & 0x3F;
        let sy: u64 = (self.0 >> 26) & 0x3F;
        proof {
            let w = self.0;
            assert(((w & 0x3F) ^ ((w >> 26) & 0x3F)) <= 0x3F) by (bit_vector);
        }
        (sx ^ sy) as usize
    }
}

/// The biased x and y fields of `ck` are those of `w` shifted right by 4,
/// re-biased; so the coordinates of `ck` are those of `w` floor-divided
/// by 16, with z carried over.
proof fn lemma_biased_shift4(w: u64, ck: u64)
    requires
        ck == ((((w >> 52) & 0xFFF) << 52) | (((((w >> 26) & 0x3FFFFFF) >> 4) + 0x1E00000) as u64)
            << 26) | ((((w & 0x3FFFFFF) >> 4) + 0x1E00000) as u64),
    ensures
        WorldPos(ck).spec_x() == WorldPos(w).spec_x() / 16,
        WorldPos(ck).spec_y() == WorldPos(w).spec_y() / 16,
        WorldPos(ck).spec_z() == WorldPos(w).spec_z(),
{
    let fx = w & 0x3FFFFFF;
    let fy = (w >> 26) & 0x3FFFFFF;
    assert(ck & 0x3FFFFFF == ((fx >> 4) + 0x1E00000) as u64 && (ck >> 26) & 0x3FFFFFF == ((fy >> 4)
        + 0x1E00000) as u64 && (ck >> 52) & 0xFFF == (w >> 52) & 0xFFF) by (bit_vector)
        requires
            ck == ((((w >> 52) & 0xFFF) << 52) | (((((w >> 26) & 0x3FFFFFF) >> 4)
                + 0x1E00000) as u64) << 26) | ((((w & 0x3FFFFFF) >> 4) + 0x1E00000) as u64),
            fx == w & 0x3FFFFFF,
            fy == (w >> 26) & 0x3FFFFFF,
    ;
    assert(fx <= 0x3FFFFFF && fx == 16 * (fx >> 4) + (fx & 0xF) && (fx & 0xF) < 16 && fy
        <= 0x3FFFFFF && fy == 16 * (fy >> 4) + (fy & 0xF) && (fy & 0xF) < 16) by (bit_vector)
        requires
            fx == w & 0x3FFFFFF,
            fy == (w >> 26) & 0x3FFFFFF,
    ;
    lemma_fundamental_div_mod_converse(
        fx - 0x2000000,
        16,
        (fx >> 4) - 0x200000,
        (fx & 0xF) as int,
    );
    lemma_fundamental_div_mod_converse(
        fy - 0x2000000,
        16,
        (fy >> 4) - 0x200000,
        (fy & 0xF) as int,
    );
}

/// The biased x and y fields of `rk` are those of `w` shifted right by 5,
/// re-biased; so the coordinates of `rk` are those of `w` floor-divided
/// by 32, with z fixed at 0.
proof fn lemma_biased_shift5(w: u64, rk: u64)
    requires
        rk == ((0x800u64 << 52) | (((((w >> 26) & 0x3FFFFFF) >> 5) + 0x1F00000) as u64) << 26) | ((
        ((w & 0x3FFFFFF) >> 5) + 0x1F00000) as u64),
    ensures
        WorldPos(rk).spec_x() == WorldPos(w).spec_x() / 32,
        WorldPos(rk).spec_y() == WorldPos(w).spec_y() / 32,
        WorldPos(rk).spec_z() == 0,
{
    let fx = w & 0x3FFFFFF;
    let fy = (w >> 26) & 0x3FFFFFF;
    assert(rk & 0x3FFFFFF == ((fx >> 5) + 0x1F00000) as u64 && (rk >> 26) & 0x3FFFFFF == ((fy >> 5)
        + 0x1F00000) as u64 && (rk >> 52) & 0xFFF == 0x800) by (bit_vector)
        requires
            rk == ((0x800u64 << 52) | (((((w >> 26) & 0x3FFFFFF) >> 5) + 0x1F00000) as u64) << 26)
                | ((((w & 0x3FFFFFF) >> 5) + 0x1F00000) as u64),
            fx == w & 0x3FFFFFF,
            fy == (w >> 26) & 0x3FFFFFF,
    ;
    assert(fx <= 0x3FFFFFF && fx == 32 * (fx >> 5) + (fx & 0x1F) && (fx & 0x1F) < 32 && fy
        <= 0x3FFFFFF && fy == 32 * (fy >> 5) + (fy & 0x1F) && (fy & 0x1F) < 32) by (bit_vector)
        requires
            fx == w & 0x3FFFFFF,
            fy == (w >> 26) & 0x3FFFFFF,
    ;
    lemma_fundamental_div_mod_converse(
        fx - 0x2000000,
        32,
        (fx >> 5) - 0x100000,
        (fx & 0x1F) as int,
    );
    lemma_fundamental_div_mod_converse(
        fy - 0x2000000,
        32,
        (fy >> 5) - 0x100000,
        (fy & 0x1F) as int,
    );
}

/// The low four bits of the x and y fields are the coordinates' residues
/// modulo the chunk side.
proof fn lemma_local_is_mod16(w: u64)
    ensures
        (w & 0xF) as int == WorldPos(w).spec_x() % 16,
        ((w >> 26) & 0xF) as int == WorldPos(w).spec_y() % 16,
{
    let fx = w & 0x3FFFFFF;
    let fy = (w >> 26) & 0x3FFFFFF;
    assert(fx <= 0x3FFFFFF && fx == 16 * (fx >> 4) + (w & 0xF) && (w & 0xF) < 16 && fy <= 0x3FFFFFF
        && fy == 16 * (fy >> 4) + ((w >> 26) & 0xF) && ((w >> 26) & 0xF) < 16) by (bit_vector)
        requires
            fx == w & 0x3FFFFFF,
            fy == (w >> 26) & 0x3FFFFFF,
    ;
    lemma_fundamental_div_mod_converse(
        fx - 0x2000000,
        16,
        (fx >> 4) - 0x200000,
        (w & 0xF) as int,
    );
    lemma_fundamental_div_mod_converse(
        fy - 0x2000000,
        16,
        (fy >> 4) - 0x200000,
        ((w >> 26) & 0xF) as int,
    );
}

/// The chunk key's coordinates are the position's x and y floor-divided
/// by the chunk side, with z carried over.
pub proof fn lemma_chunk_key_coords(p: WorldPos)
    ensures
        p.spec_chunk_key().spec_x() == p.spec_x() / 16,
        p.spec_chunk_key().spec_y() == p.spec_y() / 16,
        p.spec_chunk_key().spec_z() == p.spec_z(),
{
    lemma_biased_shift4(p.0, p.spec_chunk_key().0);
}

/// The region key's coordinates are the chunk key's x and y
/// floor-divided by the region side, with z fixed at 0.
pub proof fn lemma_region_key_coords(ck: WorldPos)
    ensures
        ck.spec_region_key().spec_x() == ck.spec_x() / 32,
        ck.spec_region_key().spec_y() == ck.spec_y() / 32,
        ck.spec_region_key().spec_z() == 0,
{
    lemma_biased_shift5(ck.0, ck.spec_region_key().0);
}

/// A position decomposes exactly into its chunk key and local offset:
/// each axis is 16 times the chunk coordinate plus the local offset.
pub proof fn lemma_chunk_decomposition(p: WorldPos)
    ensures
        p.spec_x() == 16 * p.spec_chunk_key().spec_x() + p.spec_local_x(),
        p.spec_y() == 16 * p.spec_chunk_key().spec_y() + p.spec_local_y(),
{
    lemma_chunk_key_coords(p);
    lemma_local_is_mod16(p.0);
    lemma_fundamental_div_mod(p.spec_x(), 16);
    lemma_fundamental_div_mod(p.spec_y(), 16);
}

/// Cell identity: the chunk key and the local cell index together name
/// a position uniquely — two positions agreeing on both are equal.
pub proof fn lemma_cell_identity(p: WorldPos, q: WorldPos)
    requires
        p.spec_chunk_key() == q.spec_chunk_key(),
        p.spec_local_index() == q.spec_local_index(),
    ensures
        p == q,
{
    lemma_chunk_key_coords(p);
    lemma_chunk_key_coords(q);
    lemma_local_is_mod16(p.0);
    lemma_local_is_mod16(q.0);
    lemma_derived_key_bounds(p);
    lemma_derived_key_bounds(q);
    lemma_fundamental_div_mod_converse(
        p.spec_local_index(),
        16,
        p.spec_local_y(),
        p.spec_local_x(),
    );
    lemma_fundamental_div_mod_converse(
        q.spec_local_index(),
        16,
        q.spec_local_y(),
        q.spec_local_x(),
    );
    lemma_fundamental_div_mod(p.spec_x(), 16);
    lemma_fundamental_div_mod(q.spec_x(), 16);
    lemma_fundamental_div_mod(p.spec_y(), 16);
    lemma_fundamental_div_mod(q.spec_y(), 16);
    assert(p.spec_x() == q.spec_x() && p.spec_y() == q.spec_y() && p.spec_z() == q.spec_z());
    let a = p.0;
    let b = q.0;
    assert(a == b) by (bit_vector)
        requires
            a & 0x3FFFFFF == b & 0x3FFFFFF,
            (a >> 26) & 0x3FFFFFF == (b >> 26) & 0x3FFFFFF,
            (a >> 52) & 0xFFF == (b >> 52) & 0xFFF,
    ;
}

/// Every derived key stays inside its domain: shard indices below 64,
/// local cell indices below 256, region slots below 1024.
pub proof fn lemma_derived_key_bounds(p: WorldPos)
    ensures
        0 <= p.spec_shard_index() < 64,
        0 <= p.spec_local_x() < 16,
        0 <= p.spec_local_y() < 16,
        0 <= p.spec_local_index() < 256,
        0 <= p.spec_region_slot() < 1024,
{
    let w = p.0;
    assert(((w & 0x3F) ^ ((w >> 26) & 0x3F)) <= 0x3F && (w & 0xF) <= 0xF && ((w >> 26) & 0xF)
        <= 0xF && (w & 0x1F) <= 0x1F && ((w >> 26) & 0x1F) <= 0x1F) by (bit_vector);
}

/// The coordinates a packed word decodes to are the encoded values
/// wrapped into the field ranges.
proof fn lemma_encode_coords(x: i32, y: i32, z: i32)
    ensures
        WorldPos(spec_encode(x, y, z)).spec_x() == wrap26i(x as int),
        WorldPos(spec_encode(x, y, z)).spec_y() == wrap26i(y as int),
        WorldPos(spec_encode(x, y, z)).spec_z() == wrap12i(z as int),
{
    let w = spec_encode(x, y, z);
    assert(w & 0x3FFFFFF == enc26(x) && (w >> 26) & 0x3FFFFFF == enc26(y) && (w >> 52) & 0xFFF
        == enc12(z)) by (bit_vector)
        requires
            w == spec_encode(x, y, z),
    ;
    assert(enc26(x) == (x + 0x2000000) % 0x4000000 && enc26(y) == (y + 0x2000000) % 0x4000000
        && enc12(z) == (z + 0x800) % 0x1000) by (bit_vector);
}

/// Round-trip: every coordinate triple within the representable field
/// ranges is restored exactly by decoding its packed word.
pub proof fn lemma_coordinate_roundtrip(x: i32, y: i32, z: i32)
    requires
        -0x2000000 <= x < 0x2000000,
        -0x2000000 <= y < 0x2000000,
        -0x800 <= z < 0x800,
    ensures
        WorldPos(spec_encode(x, y, z)).spec_x() == x,
        WorldPos(spec_encode(x, y, z)).spec_y() == y,
        WorldPos(spec_encode(x, y, z)).spec_z() == z,
{
    let w = spec_encode(x, y, z);
    assert(w & 0x3FFFFFF == enc26(x) && (w >> 26) & 0x3FFFFFF == enc26(y) && (w >> 52) & 0xFFF
        == enc12(z)) by (bit_vector)
        requires
            w == spec_encode(x, y, z),
    ;
    assert(enc26(x) == x + 0x2000000) by (bit_vector)
        requires
            -0x2000000 <= x < 0x2000000,
    ;
    assert(enc26(y) == y + 0x2000000) by (bit_vector)
        requires
            -0x2000000 <= y < 0x2000000,
    ;
    assert(enc12(z) == z + 0x800) by (bit_vector)
        requires
            -0x800 <= z < 0x800,
    ;
}

} // verus!
