//! Sparse per-chunk overlays for the dynamic layer.
//!
//! A sparse chunk records explicit tile overrides for single cells of one
//! chunk, plus its own solid/opaque masks. The masks start as a copy of the
//! base chunk's masks (hydration) and are then patched per modification, so
//! a flag query needs no palette work and no base lookup.
use vstd::prelude::*;
use std::collections::HashMap;
use crate::bitmask::BitMask256;
use crate::chunk::Chunk;
use crate::tile::{Tile, FLAG_SOLID, FLAG_OPAQUE};

verus! {

broadcast use vstd::std_specs::hash::group_hash_axioms;

/// Explicit tile overrides for one chunk, with cached flag masks.
#[derive(Debug)]
pub struct SparseChunk {
    pub modifications: HashMap<u8, Tile>,
    pub solid_mask: BitMask256,
    pub opaque_mask: BitMask256,
    pub is_dirty: bool,
}

impl SparseChunk {
    /// Both masks are four words, and on every modified cell they agree
    /// with the override tile's flags.
    pub open spec fn wf(self) -> bool {
        &&& self.solid_mask.wf()
        &&& self.opaque_mask.wf()
        &&& forall|i: u8| #[trigger]
            self.modifications@.contains_key(i) ==> self.solid_mask.spec_bit(i as int)
                == self.modifications@[i].flags.spec_solid() && self.opaque_mask.spec_bit(i as int)
                == self.modifications@[i].flags.spec_opaque()
    }

    /// An empty overlay: no overrides, all mask bits clear.
    pub fn new() -> (r: SparseChunk)
        ensures
            r.wf(),
            r.modifications@ == Map::<u8, Tile>::empty(),
            forall|i: int| 0 <= i < 256 ==> !r.solid_mask.spec_bit(i),
            forall|i: int| 0 <= i < 256 ==> !r.opaque_mask.spec_bit(i),
    {
        SparseChunk {
            modifications: HashMap::new(),
            solid_mask: BitMask256::new(),
            opaque_mask: BitMask256::new(),
            is_dirty: false,
        }
    }

    /// The override at local cell (lx, ly), if that exact cell was
    /// modified. Absence means "defer to the static layer", not "void".
    pub fn get(&self, lx: usize, ly: usize) -> (r: Option<Tile>)
        requires
            lx < 16,
            ly < 16,
        ensures
            r matches Some(t) ==> self.modifications@.contains_key((ly * 16 + lx) as u8) && t
                == self.modifications@[(ly * 16 + lx) as u8],
            r is None ==> !self.modifications@.contains_key((ly * 16 + lx) as u8),
    {
        let idx: u8 = (ly * 16 + lx) as u8;
        match self.modifications.get(&idx) {
            Some(t) => Some(*t),
            None => None,
        }
    }

    /// Records an override at local cell (lx, ly) and updates both masks
    /// for that cell only; every other cell's override and mask bit is
    /// untouched.
    pub fn set(&mut self, lx: usize, ly: usize, tile: Tile)
        requires
            old(self).wf(),
            lx < 16,
            ly < 16,
        ensures
            final(self).wf(),
            final(self).modifications@ == old(self).modifications@.insert(
                (ly * 16 + lx) as u8,
                tile,
            ),
            final(self).solid_mask.spec_bit(ly * 16 + lx) == tile.flags.spec_solid(),
            final(self).opaque_mask.spec_bit(ly * 16 + lx) == tile.flags.spec_opaque(),
            forall|i: int|
                0 <= i < 256 && i != ly * 16 + lx ==> #[trigger] final(self).solid_mask.spec_bit(i)
                    == old(self).solid_mask.spec_bit(i),
            forall|i: int|
                0 <= i < 256 && i != ly * 16 + lx
                    ==> #[trigger] final(self).opaque_mask.spec_bit(i)
                    == old(self).opaque_mask.spec_bit(i),
    {
        let idx: u8 = (ly * 16 + lx) as u8;
        self.modifications.insert(idx, tile);
        self.is_dirty = true;
        let fs: bool = tile.flags.bits & FLAG_SOLID == FLAG_SOLID;
        let fo: bool = tile.flags.bits & FLAG_OPAQUE == FLAG_OPAQUE;
        self.solid_mask.set(idx as usize, fs);
        self.opaque_mask.set(idx as usize, fo);
    }

    /// Hydration: copies the base chunk's masks (or clears both when
    /// there is no base), then re-applies every recorded override on top,
    /// so edits made before hydration are never lost. Afterwards the mask
    /// of every modified cell reflects its override and the mask of every
    /// other cell reflects the base.
    pub fn update_masks(&mut self, base: Option<&Chunk>)
        requires
            old(self).wf(),
            base matches Some(b) ==> b.wf(),
        ensures
            final(self).wf(),
            final(self).modifications@ == old(self).modifications@,
            forall|i: int|
                0 <= i < 256 ==> #[trigger] final(self).solid_mask.spec_bit(i) == if final(self).modifications@.contains_key(i as u8) {
                    final(self).modifications@[i as u8].flags.spec_solid()
                } else {
                    match base {
                        Some(b) => b.solid_mask.spec_bit(i),
                        None => false,
                    }
                },
            forall|i: int|
                0 <= i < 256 ==> #[trigger] final(self).opaque_mask.spec_bit(i) == if final(self).modifications@.contains_key(i as u8) {
                    final(self).modifications@[i as u8].flags.spec_opaque()
                } else {
                    match base {
                        Some(b) => b.opaque_mask.spec_bit(i),
                        None => false,
                    }
                },
    {
        match base {
            Some(b) => {
                self.solid_mask.copy_from(&b.solid_mask);
                self.opaque_mask.copy_from(&b.opaque_mask);
            },
            None => {
                self.solid_mask = BitMask256::new();
                self.opaque_mask = BitMask256::new();
            },
        }
        let ghost start = *self;
        let mut i: usize = 0;
        while i < 256
            invariant
                i <= 256,
                self.solid_mask.wf(),
                self.opaque_mask.wf(),
                self.modifications@ == start.modifications@,
                self.is_dirty == start.is_dirty,
                forall|j: int|
                    0 <= j < 256 ==> start.solid_mask.spec_bit(j) == (match base {
                        Some(b) => b.solid_mask.spec_bit(j),
                        None => false,
                    }),
                forall|j: int|
                    0 <= j < 256 ==> start.opaque_mask.spec_bit(j) == (match base {
                        Some(b) => b.opaque_mask.spec_bit(j),
                        None => false,
                    }),
                forall|j: int|
                    0 <= j < i ==> #[trigger] self.solid_mask.spec_bit(j) == if self.modifications@.contains_key(
                        j as u8,
                    ) {
                        self.modifications@[j as u8].flags.spec_solid()
                    } else {
                        start.solid_mask.spec_bit(j)
                    },
                forall|j: int|
                    0 <= j < i ==> #[trigger] self.opaque_mask.spec_bit(j) == if self.modifications@.contains_key(
                        j as u8,
                    ) {
                        self.modifications@[j as u8].flags.spec_opaque()
                    } else {
                        start.opaque_mask.spec_bit(j)
                    },
                forall|j: int|
                    i <= j < 256 ==> #[trigger] self.solid_mask.spec_bit(j)
                        == start.solid_mask.spec_bit(j),
                forall|j: int|
                    i <= j < 256 ==> #[trigger] self.opaque_mask.spec_bit(j)
                        == start.opaque_mask.spec_bit(j),
            decreases 256 - i,
        {
            let key: u8 = i as u8;
            let over: Option<Tile> = match self.modifications.get(&key) {
                Some(t) => Some(*t),
                None => None,
            };
            match over {
                Some(t) => {
                    let fs: bool = t.flags.bits & FLAG_SOLID == FLAG_SOLID;
                    let fo: bool = t.flags.bits & FLAG_OPAQUE == FLAG_OPAQUE;
                    self.solid_mask.set(i, fs);
                    self.opaque_mask.set(i, fo);
                },
                None => {},
            }
            i = i + 1;
        }
    }
}

impl Default for SparseChunk {
    /// An empty overlay.
    fn default() -> (r: SparseChunk)
        ensures
            r.wf(),
            r.modifications@ == Map::<u8, Tile>::empty(),
            forall|i: int| 0 <= i < 256 ==> !r.solid_mask.spec_bit(i),
            forall|i: int| 0 <= i < 256 ==> !r.opaque_mask.spec_bit(i),
    {
        SparseChunk::new()
    }
}

} // verus!
