//! The world map: static regions composed with sharded dynamic overlays.
//!
//! Reads consult the dynamic layer first and fall back to the static
//! layer, then to the void tile; writes always land in the dynamic layer,
//! hydrating a fresh overlay from the static chunk it shadows. An explicit
//! dynamic edit is therefore always authoritative over static data.
//!
//! The static layer is two-dimensional: a chunk key's z coordinate plays
//! no part in region keys or region slots, while the dynamic layer keys
//! overlays by the full packed chunk key.
use vstd::prelude::*;
use std::collections::HashMap;
use crate::chunk::Chunk;
use crate::geo::{WorldPos, lemma_derived_key_bounds};
use crate::region::Region;
use crate::shard::Shard;
use crate::sparse::SparseChunk;
use crate::tile::Tile;

verus! {

broadcast use vstd::std_specs::hash::group_hash_axioms;

/// The facade over both storage tiers.
pub struct WorldMap {
    pub regions: HashMap<u64, Region>,
    pub shards: Vec<Shard>,
    pub default_tile: Tile,
}

impl WorldMap {
    /// 64 well-formed shards, well-formed regions, and the void tile as
    /// the global default.
    pub open spec fn wf(self) -> bool {
        &&& self.shards@.len() == 64
        &&& forall|s: int| 0 <= s < 64 ==> (#[trigger] self.shards@[s]).wf()
        &&& forall|k: u64| #[trigger] self.regions@.contains_key(k) ==> self.regions@[k].wf()
        &&& self.default_tile == Tile::spec_void()
    }

    /// The static-layer chunk stored for chunk key `ckp`, if its region
    /// exists and the slot is marked present.
    pub open spec fn spec_static_chunk(self, ckp: WorldPos) -> Option<Chunk> {
        let rk = ckp.spec_region_key().0;
        if self.regions@.contains_key(rk) && self.regions@[rk].spec_present(
            ckp.spec_region_slot(),
        ) {
            Some(self.regions@[rk].chunks@[ckp.spec_region_slot()])
        } else {
            None
        }
    }

    /// The dynamic-layer overlay stored for chunk key `ckp`, if any.
    pub open spec fn spec_delta(self, ckp: WorldPos) -> Option<SparseChunk> {
        let sh = self.shards@[ckp.spec_shard_index()];
        if sh.deltas@.contains_key(ckp.0) {
            Some(sh.deltas@[ckp.0])
        } else {
            None
        }
    }

    /// The tile the static layer holds at `pos`: the stored chunk's cell,
    /// or the void tile where no chunk is present.
    pub open spec fn spec_static_tile(self, pos: WorldPos) -> Tile {
        match self.spec_static_chunk(pos.spec_chunk_key()) {
            Some(c) => Tile::spec_unpack(c.spec_packed_at(pos.spec_local_index())),
            None => Tile::spec_void(),
        }
    }

    /// The tile the merged map holds at `pos`: an explicit dynamic
    /// override if one exists, else the static layer's value.
    pub open spec fn spec_tile(self, pos: WorldPos) -> Tile {
        match self.spec_delta(pos.spec_chunk_key()) {
            Some(d) => if d.modifications@.contains_key(pos.spec_local_index() as u8) {
                d.modifications@[pos.spec_local_index() as u8]
            } else {
                self.spec_static_tile(pos)
            },
            None => self.spec_static_tile(pos),
        }
    }

    /// The merged solid flag at `pos`, as the mask caches answer it: the
    /// overlay's mask when an overlay exists for the chunk, else the
    /// static chunk's mask, else clear.
    pub open spec fn spec_solid(self, pos: WorldPos) -> bool {
        match self.spec_delta(pos.spec_chunk_key()) {
            Some(d) => d.solid_mask.spec_bit(pos.spec_local_index()),
            None => match self.spec_static_chunk(pos.spec_chunk_key()) {
                Some(c) => c.solid_mask.spec_bit(pos.spec_local_index()),
                None => false,
            },
        }
    }

    /// The merged opaque flag at `pos`, answered like `spec_solid`.
    pub open spec fn spec_opaque(self, pos: WorldPos) -> bool {
        match self.spec_delta(pos.spec_chunk_key()) {
            Some(d) => d.opaque_mask.spec_bit(pos.spec_local_index()),
            None => match self.spec_static_chunk(pos.spec_chunk_key()) {
                Some(c) => c.opaque_mask.spec_bit(pos.spec_local_index()),
                None => false,
            },
        }
    }

    /// An empty world: no regions, 64 empty shards. Every position reads
    /// as the void tile, neither solid nor opaque.
    pub fn new() -> (r: WorldMap)
        ensures
            r.wf(),
            r.regions@ == Map::<u64, Region>::empty(),
            forall|s: int|
                0 <= s < 64 ==> (#[trigger] r.shards@[s]).deltas@ == Map::<
                    u64,
                    SparseChunk,
                >::empty(),
            forall|pos: WorldPos| #[trigger] r.spec_tile(pos) == Tile::spec_void(),
            forall|pos: WorldPos| !(#[trigger] r.spec_solid(pos)),
            forall|pos: WorldPos| !(#[trigger] r.spec_opaque(pos)),
    {
        let mut shards: Vec<Shard> = Vec::new();
        let mut i: usize = 0;
        while i < 64
            invariant
                i <= 64,
                shards@.len() == i,
                forall|s: int| 0 <= s < i ==> (#[trigger] shards@[s]).wf(),
                forall|s: int|
                    0 <= s < i ==> (#[trigger] shards@[s]).deltas@ == Map::<
                        u64,
                        SparseChunk,
                    >::empty(),
            decreases 64 - i,
        {
            shards.push(Shard::new());
            i = i + 1;
        }
        let r = WorldMap {
            regions: HashMap::new(),
            shards,
            default_tile: Tile::default(),
        };
        proof {
            assert forall|pos: WorldPos| #[trigger] r.spec_tile(pos) == Tile::spec_void() by {
                lemma_derived_key_bounds(pos.spec_chunk_key());
            }
            assert forall|pos: WorldPos| !(#[trigger] r.spec_solid(pos)) by {
                lemma_derived_key_bounds(pos.spec_chunk_key());
            }
            assert forall|pos: WorldPos| !(#[trigger] r.spec_opaque(pos)) by {
                lemma_derived_key_bounds(pos.spec_chunk_key());
            }
        }
        r
    }

    /// The tile at `pos`: the dynamic override if that exact cell was
    /// edited, else the static chunk's cell, else the void default.
    pub fn get_tile(&self, pos: WorldPos) -> (r: Tile)
        requires
            self.wf(),
        ensures
            r == self.spec_tile(pos),
    {
        let ck = pos.chunk_key();
        let (lx, ly) = pos.local_coords();
        proof {
            lemma_derived_key_bounds(ck);
            lemma_derived_key_bounds(pos);
        }
        let si = ck.shard_index();
        match self.shards[si].get_tile(ck, lx, ly) {
            Some(t) => t,
            None => match self.get_static_tile(ck, lx, ly) {
                Some(t) => {
                    proof {
                        assert(pos.spec_chunk_key() == ck);
                    }
                    t
                },
                None => self.default_tile,
            },
        }
    }

    /// Whether the tile at `pos` is solid, answered from the cached
    /// masks alone.
    pub fn is_solid_fast(&self, pos: WorldPos) -> (r: bool)
        requires
            self.wf(),
        ensures
            r == self.spec_solid(pos),
    {
        self.check_flag_fast(pos, false)
    }

    /// Whether the tile at `pos` is opaque, answered from the cached
    /// masks alone.
    pub fn is_opaque_fast(&self, pos: WorldPos) -> (r: bool)
        requires
            self.wf(),
        ensures
            r == self.spec_opaque(pos),
    {
        self.check_flag_fast(pos, true)
    }

    /// Reads one cached flag bit for `pos`, dynamic layer first.
    fn check_flag_fast(&self, pos: WorldPos, check_opaque: bool) -> (r: bool)
        requires
            self.wf(),
        ensures
            r == if check_opaque {
                self.spec_opaque(pos)
            } else {
                self.spec_solid(pos)
            },
    {
        let ck = pos.chunk_key();
        let (lx, ly) = pos.local_coords();
        proof {
            lemma_derived_key_bounds(ck);
            lemma_derived_key_bounds(pos);
        }
        let si = ck.shard_index();
        match self.shards[si].check_flag_fast(ck, lx, ly, check_opaque) {
            Some(v) => v,
            None => {
                let rk = ck.region_key();
                match self.regions.get(&rk.0) {
                    Some(region) => {
                        let rx: usize = (ck.0 & 0x1F) as usize;
                        let ry: usize = ((ck.0 >> 26) & 0x1F) as usize;
                        proof {
                            let w = ck.0;
                            assert((w & 0x1F) <= 0x1F && ((w >> 26) & 0x1F) <= 0x1F)
                                by (bit_vector);
                        }
                        match region.get_chunk(rx, ry) {
                            Some(c) => if check_opaque {
                                c.is_opaque_local(lx, ly)
                            } else {
                                c.is_solid_local(lx, ly)
                            },
                            None => false,
                        }
                    },
                    None => false,
                }
            },
        }
    }

    /// Writes `tile` at `pos`. The write always lands in the dynamic
    /// layer: the owning shard records the override, hydrating a fresh
    /// overlay from the static chunk it shadows, so the first edit to a
    /// chunk inherits its pre-existing solid/opaque state. Afterwards the
    /// written cell reads back exactly `tile` — by value and by both
    /// cached flags — and every other cell of the world reads as before;
    /// the static layer is untouched.
    pub fn set_tile(&mut self, pos: WorldPos, tile: Tile)
        requires
            old(self).wf(),
        ensures
            final(self).wf(),
            final(self).regions@ == old(self).regions@,
            final(self).spec_tile(pos) == tile,
            final(self).spec_solid(pos) == tile.flags.spec_solid(),
            final(self).spec_opaque(pos) == tile.flags.spec_opaque(),
            forall|q: WorldPos|
                q.spec_chunk_key().0 != pos.spec_chunk_key().0 || q.spec_local_index()
                    != pos.spec_local_index() ==> #[trigger] final(self).spec_tile(q) == old(self).spec_tile(q),
            forall|q: WorldPos|
                q.spec_chunk_key().0 != pos.spec_chunk_key().0 || q.spec_local_index()
                    != pos.spec_local_index() ==> #[trigger] final(self).spec_solid(q) == old(self).spec_solid(q),
            forall|q: WorldPos|
                q.spec_chunk_key().0 != pos.spec_chunk_key().0 || q.spec_local_index()
                    != pos.spec_local_index() ==> #[trigger] final(self).spec_opaque(q) == old(self).spec_opaque(q),
    {
        let ck = pos.chunk_key();
        let (lx, ly) = pos.local_coords();
        proof {
            lemma_derived_key_bounds(ck);
            lemma_derived_key_bounds(pos);
        }
        let si = ck.shard_index();
        let rk = ck.region_key();
        let rx: usize = (ck.0 & 0x1F) as usize;
        let ry: usize = ((ck.0 >> 26) & 0x1F) as usize;
        proof {
            let w = ck.0;
            assert((w & 0x1F) <= 0x1F && ((w >> 26) & 0x1F) <= 0x1F) by (bit_vector);
        }
        let base: Option<&Chunk> = match self.regions.get(&rk.0) {
            Some(region) => region.get_chunk(rx, ry),
            None => None,
        };
        proof {
            assert(base matches Some(b) ==> self.spec_static_chunk(ck) == Some(*b));
            assert(base is None ==> self.spec_static_chunk(ck) is None);
        }
        self.shards[si].set_tile(ck, lx, ly, tile, base);
        proof {
            let idx = pos.spec_local_index();
            assert(self.spec_delta(ck) matches Some(d) && d.modifications@.contains_key(
                idx as u8,
            ) && d.modifications@[idx as u8] == tile);
            assert forall|q: WorldPos|
                q.spec_chunk_key().0 != ck.0 || q.spec_local_index() != idx implies #[trigger] self.spec_tile(
                q,
            ) == old(self).spec_tile(q) by {
                let ckq = q.spec_chunk_key();
                lemma_derived_key_bounds(ckq);
                lemma_derived_key_bounds(q);
                assert(self.spec_static_chunk(ckq) == old(self).spec_static_chunk(ckq));
                if ckq.0 == ck.0 {
                    assert(ckq == ck);
                    assert(q.spec_local_index() as u8 != idx as u8);
                } else {
                    let siq = ckq.spec_shard_index();
                    if siq != ck.spec_shard_index() {
                        assert(self.shards@[siq] == old(self).shards@[siq]);
                    }
                }
            }
            assert forall|q: WorldPos|
                q.spec_chunk_key().0 != ck.0 || q.spec_local_index() != idx implies #[trigger] self.spec_solid(
                q,
            ) == old(self).spec_solid(q) by {
                let ckq = q.spec_chunk_key();
                lemma_derived_key_bounds(ckq);
                lemma_derived_key_bounds(q);
                assert(self.spec_static_chunk(ckq) == old(self).spec_static_chunk(ckq));
                if ckq.0 == ck.0 {
                    assert(ckq == ck);
                    assert(q.spec_local_index() as u8 != idx as u8);
                } else {
                    let siq = ckq.spec_shard_index();
                    if siq != ck.spec_shard_index() {
                        assert(self.shards@[siq] == old(self).shards@[siq]);
                    }
                }
            }
            assert forall|q: WorldPos|
                q.spec_chunk_key().0 != ck.0 || q.spec_local_index() != idx implies #[trigger] self.spec_opaque(
                q,
            ) == old(self).spec_opaque(q) by {
                let ckq = q.spec_chunk_key();
                lemma_derived_key_bounds(ckq);
                lemma_derived_key_bounds(q);
                assert(self.spec_static_chunk(ckq) == old(self).spec_static_chunk(ckq));
                if ckq.0 == ck.0 {
                    assert(ckq == ck);
                    assert(q.spec_local_index() as u8 != idx as u8);
                } else {
                    let siq = ckq.spec_shard_index();
                    if siq != ck.spec_shard_index() {
                        assert(self.shards@[siq] == old(self).shards@[siq]);
                    }
                }
            }
        }
    }

    /// Bulk-loads `chunk` into the static layer under `chunk_key`,
    /// creating the owning region on demand and overwriting the slot.
    /// The region key and slot ignore the chunk key's z coordinate, so
    /// every chunk key addressing the same slot sees the new chunk. The
    /// dynamic layer is untouched: a cell with an overlay still answers
    /// from it — including the overlay's masks, which keep the state they
    /// were hydrated with — while cells without one see the new chunk.
    pub fn put_chunk(&mut self, chunk_key: WorldPos, chunk: Chunk)
        requires
            old(self).wf(),
            chunk.wf(),
        ensures
            final(self).wf(),
            final(self).shards@ == old(self).shards@,
            forall|ck2: WorldPos| #[trigger]
                final(self).spec_static_chunk(ck2) == if ck2.spec_region_key().0
                    == chunk_key.spec_region_key().0 && ck2.spec_region_slot()
                    == chunk_key.spec_region_slot() {
                    Some(chunk)
                } else {
                    old(self).spec_static_chunk(ck2)
                },
            forall|q: WorldPos|
                !(q.spec_chunk_key().spec_region_key().0 == chunk_key.spec_region_key().0
                    && q.spec_chunk_key().spec_region_slot() == chunk_key.spec_region_slot())
                    ==> #[trigger] final(self).spec_tile(q) == old(self).spec_tile(q) && final(self).spec_solid(q) == old(self).spec_solid(q) && final(self).spec_opaque(q) == old(self).spec_opaque(q),
            forall|q: WorldPos|
                q.spec_chunk_key().spec_region_key().0 == chunk_key.spec_region_key().0
                    && q.spec_chunk_key().spec_region_slot() == chunk_key.spec_region_slot()
                    ==> #[trigger] final(self).spec_tile(q) == (match old(self).spec_delta(
                    q.spec_chunk_key(),
                ) {
                    Some(d) => if d.modifications@.contains_key(q.spec_local_index() as u8) {
                        d.modifications@[q.spec_local_index() as u8]
                    } else {
                        Tile::spec_unpack(chunk.spec_packed_at(q.spec_local_index()))
                    },
                    None => Tile::spec_unpack(chunk.spec_packed_at(q.spec_local_index())),
                }),
            forall|q: WorldPos|
                q.spec_chunk_key().spec_region_key().0 == chunk_key.spec_region_key().0
                    && q.spec_chunk_key().spec_region_slot() == chunk_key.spec_region_slot()
                    ==> #[trigger] final(self).spec_solid(q) == (match old(self).spec_delta(
                    q.spec_chunk_key(),
                ) {
                    Some(d) => old(self).spec_solid(q),
                    None => chunk.solid_mask.spec_bit(q.spec_local_index()),
                }),
            forall|q: WorldPos|
                q.spec_chunk_key().spec_region_key().0 == chunk_key.spec_region_key().0
                    && q.spec_chunk_key().spec_region_slot() == chunk_key.spec_region_slot()
                    ==> #[trigger] final(self).spec_opaque(q) == (match old(self).spec_delta(
                    q.spec_chunk_key(),
                ) {
                    Some(d) => old(self).spec_opaque(q),
                    None => chunk.opaque_mask.spec_bit(q.spec_local_index()),
                }),
    {
        proof {
            lemma_derived_key_bounds(chunk_key);
        }
        let rk = chunk_key.region_key();
        let rx: usize = (chunk_key.0 & 0x1F) as usize;
        let ry: usize = ((chunk_key.0 >> 26) & 0x1F) as usize;
        proof {
            let w = chunk_key.0;
            assert((w & 0x1F) <= 0x1F && ((w >> 26) & 0x1F) <= 0x1F) by (bit_vector);
        }
        let mut region: Region = match self.regions.remove(&rk.0) {
            Some(r) => r,
            None => Region::new(),
        };
        region.put_chunk(rx, ry, chunk);
        self.regions.insert(rk.0, region);
        proof {
            assert forall|ck2: WorldPos| #[trigger]
                self.spec_static_chunk(ck2) == if ck2.spec_region_key().0 == rk.0
                    && ck2.spec_region_slot() == chunk_key.spec_region_slot() {
                    Some(chunk)
                } else {
                    old(self).spec_static_chunk(ck2)
                } by {
                lemma_derived_key_bounds(ck2);
            }
            assert forall|q: WorldPos| #[trigger]
                self.spec_static_tile(q) == (match self.spec_static_chunk(q.spec_chunk_key()) {
                    Some(c) => Tile::spec_unpack(c.spec_packed_at(q.spec_local_index())),
                    None => Tile::spec_void(),
                }) by {}
            assert forall|q: WorldPos| true implies {
                &&& #[trigger] self.spec_delta(q.spec_chunk_key()) == old(self).spec_delta(
                    q.spec_chunk_key(),
                )
            } by {
                lemma_derived_key_bounds(q.spec_chunk_key());
            }
        }
    }

    /// Dynamic-over-static precedence: wherever the dynamic layer holds
    /// an explicit override for a cell, the merged tile is exactly that
    /// override, and both cached flag answers match the override's flags
    /// — whatever the static layer holds underneath.
    pub proof fn lemma_dynamic_precedence(self, pos: WorldPos)
        requires
            self.wf(),
            self.spec_delta(pos.spec_chunk_key()) matches Some(d)
                && d.modifications@.contains_key(pos.spec_local_index() as u8),
        ensures
            self.spec_tile(pos) == self.spec_delta(
                pos.spec_chunk_key(),
            )->Some_0.modifications@[pos.spec_local_index() as u8],
            self.spec_solid(pos) == self.spec_tile(pos).flags.spec_solid(),
            self.spec_opaque(pos) == self.spec_tile(pos).flags.spec_opaque(),
    {
        lemma_derived_key_bounds(pos.spec_chunk_key());
        lemma_derived_key_bounds(pos);
    }

    /// The static layer's tile for chunk key `ck` at local (lx, ly), if a
    /// chunk is present there.
    fn get_static_tile(&self, ck: WorldPos, lx: usize, ly: usize) -> (r: Option<Tile>)
        requires
            self.wf(),
            lx < 16,
            ly < 16,
        ensures
            r matches Some(t) ==> self.spec_static_chunk(ck) matches Some(c) && t
                == Tile::spec_unpack(c.spec_packed_at(ly * 16 + lx)),
            r is None ==> self.spec_static_chunk(ck) is None,
    {
        proof {
            lemma_derived_key_bounds(ck);
        }
        let rk = ck.region_key();
        match self.regions.get(&rk.0) {
            Some(region) => {
                let rx: usize = (ck.0 & 0x1F) as usize;
                let ry: usize = ((ck.0 >> 26) & 0x1F) as usize;
                proof {
                    let w = ck.0;
                    assert((w & 0x1F) <= 0x1F && ((w >> 26) & 0x1F) <= 0x1F) by (bit_vector);
                }
                match region.get_chunk(rx, ry) {
                    Some(c) => Some(c.get_tile(lx, ly)),
                    None => None,
                }
            },
            None => None,
        }
    }
}

} // verus!
