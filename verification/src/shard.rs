//! Shards: independent concurrency domains of the dynamic layer.
//!
//! A shard owns the sparse overlays of every chunk whose key hashes to it,
//! in one map from packed chunk key to `SparseChunk`. A chunk key belongs
//! to exactly one shard, so edits to chunks in different shards never
//! contend.
use vstd::prelude::*;
use std::collections::HashMap;
use crate::chunk::Chunk;
use crate::geo::WorldPos;
use crate::sparse::SparseChunk;
use crate::tile::Tile;

verus! {

broadcast use vstd::std_specs::hash::group_hash_axioms;

/// One shard's map from packed chunk key to sparse overlay.
pub struct Shard {
    pub deltas: HashMap<u64, SparseChunk>,
}

impl Shard {
    /// Every stored overlay is well formed and holds at least one
    /// modification: an overlay is only ever created by a write.
    pub open spec fn wf(self) -> bool {
        forall|k: u64| #[trigger]
            self.deltas@.contains_key(k) ==> self.deltas@[k].wf() && (exists|i: u8|
                self.deltas@[k].modifications@.contains_key(i))
    }

    /// An empty shard.
    pub fn new() -> (r: Shard)
        ensures
            r.wf(),
            r.deltas@ == Map::<u64, SparseChunk>::empty(),
    {
        Shard { deltas: HashMap::new() }
    }

    /// The override recorded for local cell (lx, ly) of the chunk with
    /// key `chunk_key`, if any.
    pub fn get_tile(&self, chunk_key: WorldPos, lx: usize, ly: usize) -> (r: Option<Tile>)
        requires
            self.wf(),
            lx < 16,
            ly < 16,
        ensures
            r matches Some(t) ==> self.deltas@.contains_key(chunk_key.0)
                && self.deltas@[chunk_key.0].modifications@.contains_key((ly * 16 + lx) as u8) && t
                == self.deltas@[chunk_key.0].modifications@[(ly * 16 + lx) as u8],
            r is None ==> !self.deltas@.contains_key(chunk_key.0)
                || !self.deltas@[chunk_key.0].modifications@.contains_key((ly * 16 + lx) as u8),
    {
        match self.deltas.get(&chunk_key.0) {
            Some(delta) => delta.get(lx, ly),
            None => None,
        }
    }

    /// The cached flag bit for local cell (lx, ly) of the chunk with key
    /// `chunk_key`, answered from the overlay's mask alone — or nothing,
    /// when this shard holds no overlay for that chunk.
    pub fn check_flag_fast(&self, chunk_key: WorldPos, lx: usize, ly: usize, check_opaque: bool)
        -> (r: Option<bool>)
        requires
            self.wf(),
            lx < 16,
            ly < 16,
        ensures
            (r is Some) == self.deltas@.contains_key(chunk_key.0),
            r matches Some(v) ==> v == if check_opaque {
                self.deltas@[chunk_key.0].opaque_mask.spec_bit(ly * 16 + lx)
            } else {
                self.deltas@[chunk_key.0].solid_mask.spec_bit(ly * 16 + lx)
            },
    {
        match self.deltas.get(&chunk_key.0) {
            Some(delta) => {
                let idx: usize = ly * 16 + lx;
                if check_opaque {
                    Some(delta.opaque_mask.get(idx))
                } else {
                    Some(delta.solid_mask.get(idx))
                }
            },
            None => None,
        }
    }

    /// Records an override for local cell (lx, ly) of the chunk with key
    /// `chunk_key`. A chunk written for the first time gets a fresh
    /// overlay hydrated from `base` — the static layer's chunk, if the
    /// caller has one — so the first edit inherits the pre-existing
    /// solid/opaque state instead of starting from all-clear.
    pub fn set_tile(
        &mut self,
        chunk_key: WorldPos,
        lx: usize,
        ly: usize,
        tile: Tile,
        base: Option<&Chunk>,
    )
        requires
            old(self).wf(),
            lx < 16,
            ly < 16,
            base matches Some(b) ==> b.wf(),
        ensures
            final(self).wf(),
            final(self).deltas@.contains_key(chunk_key.0),
            forall|k2: u64|
                k2 != chunk_key.0 ==> (#[trigger] final(self).deltas@.contains_key(k2)) == old(self).deltas@.contains_key(k2),
            forall|k2: u64|
                k2 != chunk_key.0 && old(self).deltas@.contains_key(k2) ==> #[trigger] final(self).deltas@[k2] == old(self).deltas@[k2],
            ({
                let d = final(self).deltas@[chunk_key.0];
                let idx = (ly * 16 + lx) as u8;
                let had = old(self).deltas@.contains_key(chunk_key.0);
                &&& d.modifications@ == (if had {
                    old(self).deltas@[chunk_key.0].modifications@
                } else {
                    Map::<u8, Tile>::empty()
                }).insert(idx, tile)
                &&& d.solid_mask.spec_bit(idx as int) == tile.flags.spec_solid()
                &&& d.opaque_mask.spec_bit(idx as int) == tile.flags.spec_opaque()
                &&& forall|i: int|
                    0 <= i < 256 && i != idx ==> (#[trigger] d.solid_mask.spec_bit(i)) == (if had {
                        old(self).deltas@[chunk_key.0].solid_mask.spec_bit(i)
                    } else {
                        match base {
                            Some(b) => b.solid_mask.spec_bit(i),
                            None => false,
                        }
                    })
                &&& forall|i: int|
                    0 <= i < 256 && i != idx ==> (#[trigger] d.opaque_mask.spec_bit(i)) == (if had {
                        old(self).deltas@[chunk_key.0].opaque_mask.spec_bit(i)
                    } else {
                        match base {
                            Some(b) => b.opaque_mask.spec_bit(i),
                            None => false,
                        }
                    })
            }),
    {
        let k: u64 = chunk_key.0;
        let mut delta: SparseChunk = match self.deltas.remove(&k) {
            Some(d) => d,
            None => SparseChunk::new(),
        };
        if delta.modifications.is_empty() {
            proof {
                if old(self).deltas@.contains_key(k) {
                    let w = choose|i: u8| old(self).deltas@[k].modifications@.contains_key(i);
                    assert(delta.modifications@.dom().contains(w));
                    assert(false);
                }
            }
            delta.update_masks(base);
        }
        delta.set(lx, ly, tile);
        self.deltas.insert(k, delta);
        proof {
            let idx = (ly * 16 + lx) as u8;
            assert(self.deltas@[k].modifications@.contains_key(idx));
        }
    }
}

} // verus!
