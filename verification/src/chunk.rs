//! Palette-compressed 16x16 chunks.
//!
//! A chunk stores one palette index per cell plus a deduplicated palette of
//! packed tiles; index 0 is reserved for the void tile. Two 256-bit masks
//! cache the solid and opaque flag of every cell and are kept exactly in
//! step with the palette data.
use vstd::prelude::*;
use std::collections::HashMap;
use crate::bitmask::BitMask256;
use crate::tile::{
    Tile, packed_solid, packed_opaque, lemma_pack_flag_bits, lemma_packed_flag_bits,
    lemma_void_packs_to_zero,
};

verus! {

broadcast use vstd::std_specs::hash::group_hash_axioms;

/// The palette after recording one more packed tile: unchanged when the
/// tile is already present, extended by one entry otherwise.
pub open spec fn palette_insert(pal: Seq<u32>, p: u32) -> Seq<u32> {
    if pal.contains(p) {
        pal
    } else {
        pal.push(p)
    }
}

/// A 16x16 tile grid: 256 palette-index bytes, a deduplicated palette of
/// packed tiles, and cached solid/opaque masks.
#[derive(Clone, Debug)]
pub struct Chunk {
    pub indices: Vec<u8>,
    pub palette: Vec<u32>,
    pub solid_mask: BitMask256,
    pub opaque_mask: BitMask256,
}

impl Chunk {
    /// Structural well-formedness: 256 cells, a non-empty palette of at
    /// most 256 distinct entries whose first entry is the void tile, and
    /// every cell index inside the palette.
    pub open spec fn wf_core(self) -> bool {
        &&& self.indices@.len() == 256
        &&& 1 <= self.palette@.len() <= 256
        &&& self.palette@[0] == 0
        &&& forall|i: int| 0 <= i < 256 ==> (self.indices@[i] as int) < self.palette@.len()
        &&& forall|i: int, j: int|
            0 <= i < j < self.palette@.len() ==> self.palette@[i] != self.palette@[j]
        &&& self.solid_mask.wf()
        &&& self.opaque_mask.wf()
    }

    /// The masks mirror the flag bits of the tile each cell resolves to.
    pub open spec fn masks_ok(self) -> bool {
        &&& forall|i: int|
            0 <= i < 256 ==> self.solid_mask.spec_bit(i) == packed_solid(#[trigger] self.spec_packed_at(i))
        &&& forall|i: int|
            0 <= i < 256 ==> self.opaque_mask.spec_bit(i) == packed_opaque(#[trigger] self.spec_packed_at(i))
    }

    /// Full well-formedness.
    pub open spec fn wf(self) -> bool {
        self.wf_core() && self.masks_ok()
    }

    /// The packed tile stored at flat cell index `i`.
    pub open spec fn spec_packed_at(self, i: int) -> u32 {
        self.palette@[self.indices@[i] as int]
    }

    /// The tile stored at local cell (lx, ly).
    pub open spec fn spec_tile_at(self, lx: int, ly: int) -> Tile {
        Tile::spec_unpack(self.spec_packed_at(ly * 16 + lx))
    }

    /// A fresh all-void chunk.
    pub fn new() -> (r: Chunk)
        ensures
            r.wf(),
            r.palette@ =~= seq![0u32],
            forall|i: int| 0 <= i < 256 ==> r.indices@[i] == 0,
            forall|i: int| 0 <= i < 256 ==> #[trigger] r.spec_packed_at(i) == 0,
            forall|i: int| 0 <= i < 256 ==> !r.solid_mask.spec_bit(i),
            forall|i: int| 0 <= i < 256 ==> !r.opaque_mask.spec_bit(i),
    {
        let mut palette: Vec<u32> = Vec::new();
        palette.push(0);
        let r = Chunk {
            indices: vec![0u8; 256],
            palette,
            solid_mask: BitMask256::new(),
            opaque_mask: BitMask256::new(),
        };
        proof {
            lemma_void_packs_to_zero();
            assert(r.palette@ =~= seq![0u32]);
        }
        r
    }

    /// Writes `tile` at local cell (lx, ly) and updates both masks for
    /// that cell. Fails — mutating nothing — when the coordinates are out
    /// of range or the palette is full and the tile is new. The palette is
    /// deduplicating: a packed value already present is reused.
    pub fn set_tile(&mut self, lx: usize, ly: usize, tile: Tile) -> (r: bool)
        requires
            old(self).wf(),
        ensures
            final(self).wf(),
            r == (lx < 16 && ly < 16 && (old(self).palette@.contains(tile.spec_pack())
                || old(self).palette@.len() < 256)),
            !r ==> *final(self) == *old(self),
            r ==> final(self).palette@ == palette_insert(old(self).palette@, tile.spec_pack()),
            r ==> final(self).spec_packed_at(ly * 16 + lx) == tile.spec_pack(),
            r ==> forall|i: int|
                0 <= i < 256 && i != ly * 16 + lx ==> #[trigger] final(self).spec_packed_at(i)
                    == old(self).spec_packed_at(i),
            r ==> final(self).solid_mask.spec_bit(ly * 16 + lx) == tile.flags.spec_solid(),
            r ==> final(self).opaque_mask.spec_bit(ly * 16 + lx) == tile.flags.spec_opaque(),
            r ==> forall|i: int|
                0 <= i < 256 && i != ly * 16 + lx ==> #[trigger] final(self).solid_mask.spec_bit(i)
                    == old(self).solid_mask.spec_bit(i),
            r ==> forall|i: int|
                0 <= i < 256 && i != ly * 16 + lx
                    ==> #[trigger] final(self).opaque_mask.spec_bit(i)
                    == old(self).opaque_mask.spec_bit(i),
    {
        if lx >= 16 || ly >= 16 {
            return false;
        }
        let packed: u32 = tile.pack();
        let flat: usize = ly * 16 + lx;
        let pal_idx: usize = match find_packed(&self.palette, packed) {
            Some(k) => k,
            None => {
                if self.palette.len() >= 256 {
                    return false;
                }
                let k: usize = self.palette.len();
                self.palette.push(packed);
                k
            },
        };
        self.indices[flat] = pal_idx as u8;
        let fs: bool = (packed & 0x10000) != 0;
        let fo: bool = (packed & 0x20000) != 0;
        self.solid_mask.set(flat, fs);
        self.opaque_mask.set(flat, fo);
        proof {
            lemma_pack_flag_bits(tile);
            assert forall|i: int| 0 <= i < 256 && i != flat implies #[trigger] self.spec_packed_at(
                i,
            ) == old(self).spec_packed_at(i) by {
                assert(self.indices@[i] == old(self).indices@[i]);
            }
            assert(self.spec_packed_at(flat as int) == packed);
            assert(final(self).wf());
        }
        true
    }

    /// Reads the tile at local cell (lx, ly); out-of-range coordinates
    /// read as the void tile.
    pub fn get_tile(&self, lx: usize, ly: usize) -> (r: Tile)
        requires
            self.wf(),
        ensures
            lx < 16 && ly < 16 ==> r == self.spec_tile_at(lx as int, ly as int),
            !(lx < 16 && ly < 16) ==> r == Tile::spec_void(),
            r.flags.wf(),
    {
        if lx >= 16 || ly >= 16 {
            return Tile::default();
        }
        let flat: usize = ly * 16 + lx;
        let pal_idx: u8 = self.indices[flat];
        let packed: u32 = self.palette[pal_idx as usize];
        Tile::unpack(packed)
    }

    /// Whether the cell's cached solid bit is set; equivalently, whether
    /// the tile stored there is solid. Out-of-range coordinates read as
    /// not solid.
    pub fn is_solid_local(&self, lx: usize, ly: usize) -> (r: bool)
        requires
            self.wf(),
        ensures
            r == (lx < 16 && ly < 16 && self.solid_mask.spec_bit(ly * 16 + lx)),
            lx < 16 && ly < 16 ==> r == self.spec_tile_at(
                lx as int,
                ly as int,
            ).flags.spec_solid(),
    {
        if lx >= 16 || ly >= 16 {
            return false;
        }
        proof {
            lemma_packed_flag_bits(self.spec_packed_at(ly * 16 + lx));
        }
        self.solid_mask.get(ly * 16 + lx)
    }

    /// Whether the cell's cached opaque bit is set; equivalently, whether
    /// the tile stored there is opaque. Out-of-range coordinates read as
    /// not opaque.
    pub fn is_opaque_local(&self, lx: usize, ly: usize) -> (r: bool)
        requires
            self.wf(),
        ensures
            r == (lx < 16 && ly < 16 && self.opaque_mask.spec_bit(ly * 16 + lx)),
            lx < 16 && ly < 16 ==> r == self.spec_tile_at(
                lx as int,
                ly as int,
            ).flags.spec_opaque(),
    {
        if lx >= 16 || ly >= 16 {
            return false;
        }
        proof {
            lemma_packed_flag_bits(self.spec_packed_at(ly * 16 + lx));
        }
        self.opaque_mask.get(ly * 16 + lx)
    }

    /// Recomputes both masks from the palette data alone, for chunks
    /// whose masks were not maintained during bulk construction.
    pub fn rebuild_masks(&mut self)
        requires
            old(self).wf_core(),
        ensures
            final(self).wf(),
            final(self).indices@ == old(self).indices@,
            final(self).palette@ == old(self).palette@,
    {
        let mut i: usize = 0;
        while i < 256
            invariant
                i <= 256,
                self.wf_core(),
                self.indices@ == old(self).indices@,
                self.palette@ == old(self).palette@,
                forall|j: int|
                    0 <= j < i ==> self.solid_mask.spec_bit(j) == packed_solid(
                        #[trigger] self.spec_packed_at(j),
                    ),
                forall|j: int|
                    0 <= j < i ==> self.opaque_mask.spec_bit(j) == packed_opaque(
                        #[trigger] self.spec_packed_at(j),
                    ),
            decreases 256 - i,
        {
            let ghost pre = *self;
            let pal_idx: u8 = self.indices[i];
            let packed: u32 = self.palette[pal_idx as usize];
            let fs: bool = (packed & 0x10000) != 0;
            let fo: bool = (packed & 0x20000) != 0;
            self.solid_mask.set(i, fs);
            self.opaque_mask.set(i, fo);
            proof {
                assert(self.spec_packed_at(i as int) == packed);
                assert forall|j: int| 0 <= j < i + 1 implies self.solid_mask.spec_bit(j)
                    == packed_solid(#[trigger] self.spec_packed_at(j)) by {
                    assert(self.spec_packed_at(j) == pre.spec_packed_at(j));
                }
                assert forall|j: int| 0 <= j < i + 1 implies self.opaque_mask.spec_bit(j)
                    == packed_opaque(#[trigger] self.spec_packed_at(j)) by {
                    assert(self.spec_packed_at(j) == pre.spec_packed_at(j));
                }
            }
            i = i + 1;
        }
    }
}

impl Default for Chunk {
    /// A fresh all-void chunk.
    fn default() -> (r: Chunk)
        ensures
            r.wf(),
            r.palette@ =~= seq![0u32],
            forall|i: int| 0 <= i < 256 ==> r.indices@[i] == 0,
            forall|i: int| 0 <= i < 256 ==> #[trigger] r.spec_packed_at(i) == 0,
            forall|i: int| 0 <= i < 256 ==> !r.solid_mask.spec_bit(i),
            forall|i: int| 0 <= i < 256 ==> !r.opaque_mask.spec_bit(i),
    {
        Chunk::new()
    }
}

/// The position of `packed` in the palette, if present.
fn find_packed(pal: &Vec<u32>, packed: u32) -> (r: Option<usize>)
    ensures
        r matches Some(k) ==> k < pal@.len() && pal@[k as int] == packed,
        r is None ==> !pal@.contains(packed),
{
    let mut i: usize = 0;
    while i < pal.len()
        invariant
            i <= pal@.len(),
            forall|k: int| 0 <= k < i ==> pal@[k] != packed,
        decreases pal@.len() - i,
    {
        if pal[i] == packed {
            return Some(i);
        }
        i = i + 1;
    }
    proof {
        assert(!pal@.contains(packed));
    }
    None
}

/// A generation-time helper around a chunk: a hash lookup from packed
/// tile to palette index makes bulk generation O(1) per written tile
/// instead of a palette scan per write.
pub struct ChunkBuilder {
    chunk: Chunk,
    lut: HashMap<u32, u8>,
}

impl ChunkBuilder {
    /// The chunk under construction.
    pub closed spec fn view(self) -> Chunk {
        self.chunk
    }

    /// The chunk is well formed and the lookup table indexes exactly the
    /// palette entries.
    pub closed spec fn wf(self) -> bool {
        &&& self.chunk.wf()
        &&& forall|p: u32| #[trigger]
            self.lut@.contains_key(p) <==> self.chunk.palette@.contains(p)
        &&& forall|p: u32| #[trigger]
            self.lut@.contains_key(p) ==> (self.lut@[p] as int) < self.chunk.palette@.len()
                && self.chunk.palette@[self.lut@[p] as int] == p
    }

    /// A builder holding a fresh all-void chunk.
    pub fn new() -> (r: ChunkBuilder)
        ensures
            r.wf(),
            r.view().palette@ =~= seq![0u32],
            forall|i: int| 0 <= i < 256 ==> #[trigger] r.view().spec_packed_at(i) == 0,
            forall|i: int| 0 <= i < 256 ==> !r.view().solid_mask.spec_bit(i),
            forall|i: int| 0 <= i < 256 ==> !r.view().opaque_mask.spec_bit(i),
    {
        let chunk = Chunk::new();
        let mut lut: HashMap<u32, u8> = HashMap::new();
        lut.insert(0, 0);
        let r = ChunkBuilder { chunk, lut };
        proof {
            assert forall|p: u32| #[trigger]
                r.lut@.contains_key(p) <==> r.chunk.palette@.contains(p) by {
                if r.chunk.palette@.contains(p) {
                    let w = choose|w: int| 0 <= w < r.chunk.palette@.len() && r.chunk.palette@[w]
                        == p;
                    assert(w == 0);
                }
                if p == 0 {
                    assert(r.chunk.palette@[0] == 0);
                    assert(r.chunk.palette@.contains(p));
                }
            }
        }
        r
    }

    /// Writes `tile` at local cell (lx, ly), exactly as `Chunk::set_tile`
    /// does, but finding the palette index through the hash lookup. Out of
    /// range coordinates, or a new tile against a full palette, change
    /// nothing.
    pub fn set_tile(&mut self, lx: usize, ly: usize, tile: Tile)
        requires
            old(self).wf(),
        ensures
            final(self).wf(),
            !(lx < 16 && ly < 16 && (old(self).view().palette@.contains(tile.spec_pack()) || old(self).view().palette@.len() < 256)) ==> final(self).view() == old(self).view(),
            lx < 16 && ly < 16 && (old(self).view().palette@.contains(tile.spec_pack()) || old(self).view().palette@.len() < 256) ==> {
                &&& final(self).view().palette@ == palette_insert(
                    old(self).view().palette@,
                    tile.spec_pack(),
                )
                &&& final(self).view().spec_packed_at(ly * 16 + lx) == tile.spec_pack()
                &&& (forall|i: int|
                    0 <= i < 256 && i != ly * 16 + lx ==> #[trigger] final(self).view().spec_packed_at(i) == old(self).view().spec_packed_at(i))
                &&& final(self).view().solid_mask.spec_bit(ly * 16 + lx)
                    == tile.flags.spec_solid()
                &&& final(self).view().opaque_mask.spec_bit(ly * 16 + lx)
                    == tile.flags.spec_opaque()
                &&& (forall|i: int|
                    0 <= i < 256 && i != ly * 16 + lx ==> #[trigger] final(self).view().solid_mask.spec_bit(i) == old(self).view().solid_mask.spec_bit(i))
                &&& (forall|i: int|
                    0 <= i < 256 && i != ly * 16 + lx ==> #[trigger] final(self).view().opaque_mask.spec_bit(i) == old(self).view().opaque_mask.spec_bit(i))
            },
    {
        if lx >= 16 || ly >= 16 {
            return ;
        }
        let packed: u32 = tile.pack();
        let flat: usize = ly * 16 + lx;
        let pal_idx: u8 = match self.lut.get(&packed) {
            Some(k) => *k,
            None => {
                if self.chunk.palette.len() >= 256 {
                    return ;
                }
                let len: usize = self.chunk.palette.len();
                self.chunk.palette.push(packed);
                self.lut.insert(packed, len as u8);
                proof {
                    broadcast use vstd::seq_lib::lemma_seq_contains_after_push;

                    assert(self.chunk.palette@[len as int] == packed);
                    assert forall|p: u32| #[trigger]
                        self.lut@.contains_key(p) <==> self.chunk.palette@.contains(p) by {
                        if p != packed && self.chunk.palette@.contains(p) {
                            assert(old(self).chunk.palette@.contains(p));
                        }
                    }
                }
                len as u8
            },
        };
        self.chunk.indices[flat] = pal_idx;
        let fs: bool = (packed & 0x10000) != 0;
        let fo: bool = (packed & 0x20000) != 0;
        self.chunk.solid_mask.set(flat, fs);
        self.chunk.opaque_mask.set(flat, fo);
        proof {
            lemma_pack_flag_bits(tile);
            assert forall|i: int| 0 <= i < 256 && i != flat implies #[trigger] self.chunk.spec_packed_at(
                i,
            ) == old(self).chunk.spec_packed_at(i) by {
                assert(self.chunk.indices@[i] == old(self).chunk.indices@[i]);
            }
            assert(self.chunk.spec_packed_at(flat as int) == packed);
        }
    }

    /// Finishes the chunk, rebuilding both masks once more from the
    /// palette data as a final guarantee.
    pub fn build(self) -> (r: Chunk)
        requires
            self.wf(),
        ensures
            r.wf(),
            r.indices@ == self.view().indices@,
            r.palette@ == self.view().palette@,
    {
        let ChunkBuilder { chunk: mut chunk, lut: _ } = self;
        chunk.rebuild_masks();
        chunk
    }
}

/// Palette deduplication: recording a packed tile a second time never
/// grows the palette; recording a tile already present leaves it
/// unchanged; recording a genuinely new tile grows it by exactly one.
pub proof fn lemma_palette_dedup(pal: Seq<u32>, p: u32, q: u32)
    ensures
        palette_insert(palette_insert(pal, p), p) == palette_insert(pal, p),
        pal.contains(p) ==> palette_insert(pal, p) == pal,
        !pal.contains(p) ==> palette_insert(pal, p).len() == pal.len() + 1,
        q != p && !pal.contains(q) ==> palette_insert(palette_insert(pal, p), q).len()
            == palette_insert(pal, p).len() + 1,
{
    let pal1 = palette_insert(pal, p);
    if pal.contains(p) {
        assert(pal1 == pal);
    } else {
        assert(pal1 == pal.push(p));
        assert(pal1[pal.len() as int] == p);
        assert(pal1.contains(p));
    }
    assert(palette_insert(pal1, p) == pal1);
    if q != p && !pal.contains(q) {
        if pal1.contains(q) {
            let w = choose|w: int| 0 <= w < pal1.len() && pal1[w] == q;
            assert(w < pal.len() ==> pal[w] == q);
            assert(false);
        }
        assert(palette_insert(pal1, q) == pal1.push(q));
    }
}

} // verus!
