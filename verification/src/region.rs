//! Regions: the static layer's bulk-loading unit.
//!
//! A region is a fixed 32x32 grid of chunk slots plus a 1024-bit presence
//! map. Every slot physically holds a chunk, but only slots whose presence
//! bit is set count as real data; the rest are default placeholders that a
//! reader skips.
use vstd::prelude::*;
use vstd::arithmetic::div_mod::{lemma_fundamental_div_mod, lemma_mod_bound};
use crate::bitmask::{lemma_zero_word_bits, lemma_word_set_bit};
use crate::chunk::Chunk;

verus! {

/// A 32x32 grid of chunk slots with a presence bitmap.
pub struct Region {
    pub chunks: Vec<Chunk>,
    pub presence_map: Vec<u64>,
}

impl Region {
    /// 1024 well-formed chunk slots and a 1024-bit presence map.
    pub open spec fn wf(self) -> bool {
        &&& self.chunks@.len() == 1024
        &&& self.presence_map@.len() == 16
        &&& forall|c: int| 0 <= c < 1024 ==> (#[trigger] self.chunks@[c]).wf()
    }

    /// The presence bit of slot `slot`, for `slot` in 0..1024.
    pub open spec fn spec_present(self, slot: int) -> bool {
        (self.presence_map@[slot / 64] >> ((slot % 64) as u64)) & 1u64 == 1u64
    }

    /// A region of default placeholder chunks, none marked present.
    pub fn new() -> (r: Region)
        ensures
            r.wf(),
            forall|slot: int| 0 <= slot < 1024 ==> !r.spec_present(slot),
            forall|c: int, i: int|
                0 <= c < 1024 && 0 <= i < 256 ==> (#[trigger] r.chunks@[c].spec_packed_at(i)) == 0,
            forall|c: int, i: int|
                0 <= c < 1024 && 0 <= i < 256 ==> !(#[trigger] r.chunks@[c].solid_mask.spec_bit(i)),
            forall|c: int, i: int|
                0 <= c < 1024 && 0 <= i < 256 ==> !(#[trigger] r.chunks@[c].opaque_mask.spec_bit(
                    i,
                )),
    {
        let mut chunks: Vec<Chunk> = Vec::new();
        let mut n: usize = 0;
        while n < 1024
            invariant
                n <= 1024,
                chunks@.len() == n,
                forall|c: int| 0 <= c < n ==> (#[trigger] chunks@[c]).wf(),
                forall|c: int, i: int|
                    0 <= c < n && 0 <= i < 256 ==> (#[trigger] chunks@[c].spec_packed_at(i)) == 0,
                forall|c: int, i: int|
                    0 <= c < n && 0 <= i < 256 ==> !(#[trigger] chunks@[c].solid_mask.spec_bit(i)),
                forall|c: int, i: int|
                    0 <= c < n && 0 <= i < 256 ==> !(#[trigger] chunks@[c].opaque_mask.spec_bit(i)),
            decreases 1024 - n,
        {
            chunks.push(Chunk::new());
            n = n + 1;
        }
        let r = Region {
            chunks,
            presence_map: vec![0u64; 16],
        };
        proof {
            lemma_zero_word_bits();
            assert forall|slot: int| 0 <= slot < 1024 implies !r.spec_present(slot) by {
                lemma_fundamental_div_mod(slot, 64);
                lemma_mod_bound(slot, 64);
            }
        }
        r
    }

    /// Reads the presence bit of a slot.
    fn check_presence(&self, slot: usize) -> (r: bool)
        requires
            self.wf(),
            slot < 1024,
        ensures
            r == self.spec_present(slot as int),
    {
        let block: usize = slot / 64;
        let shift: u64 = (slot % 64) as u64;
        (self.presence_map[block] >> shift) & 1 == 1
    }

    /// Writes the presence bit of a slot; every other bit and every chunk
    /// is unchanged.
    fn set_presence(&mut self, slot: usize, val: bool)
        requires
            old(self).wf(),
            slot < 1024,
        ensures
            final(self).wf(),
            final(self).chunks@ == old(self).chunks@,
            forall|s: int|
                0 <= s < 1024 ==> final(self).spec_present(s) == if s == slot {
                    val
                } else {
                    old(self).spec_present(s)
                },
    {
        let block: usize = slot / 64;
        let shift: u64 = (slot % 64) as u64;
        let w: u64 = self.presence_map[block];
        let nw: u64 = if val {
            w | (1u64 << shift)
        } else {
            w & !(1u64 << shift)
        };
        self.presence_map[block] = nw;
        proof {
            assert forall|s: int|
                0 <= s < 1024 implies self.spec_present(s) == if s == slot {
                    val
                } else {
                    old(self).spec_present(s)
                } by {
                lemma_fundamental_div_mod(s, 64);
                lemma_mod_bound(s, 64);
                if s / 64 == block {
                    lemma_word_set_bit(w, nw, shift, (s % 64) as u64, val);
                }
            }
        }
    }

    /// The chunk at region-local slot (rx, ry), if its presence bit is
    /// set. A slot never activated reads as nothing even though a default
    /// chunk occupies it: presence is the source of truth for real data.
    pub fn get_chunk(&self, rx: usize, ry: usize) -> (r: Option<&Chunk>)
        requires
            self.wf(),
            rx < 32,
            ry < 32,
        ensures
            (r is Some) == self.spec_present((ry * 32 + rx) as int),
            r matches Some(c) ==> *c == self.chunks@[ry * 32 + rx],
    {
        let slot: usize = ry * 32 + rx;
        if !self.check_presence(slot) {
            return None;
        }
        Some(&self.chunks[slot])
    }

    /// Activates the slot (rx, ry): sets its presence bit, idempotently.
    /// The slot's current contents — a default chunk if never written —
    /// stay as they are; `put_chunk` fills it.
    pub fn get_or_create_chunk(&mut self, rx: usize, ry: usize)
        requires
            old(self).wf(),
            rx < 32,
            ry < 32,
        ensures
            final(self).wf(),
            final(self).chunks@ == old(self).chunks@,
            final(self).spec_present((ry * 32 + rx) as int),
            forall|s: int|
                0 <= s < 1024 && s != ry * 32 + rx ==> final(self).spec_present(s) == old(
                    self,
                ).spec_present(s),
    {
        let slot: usize = ry * 32 + rx;
        if !self.check_presence(slot) {
            self.set_presence(slot, true);
        }
    }

    /// Stores `chunk` at slot (rx, ry) and marks the slot present,
    /// replacing whatever the slot held.
    pub fn put_chunk(&mut self, rx: usize, ry: usize, chunk: Chunk)
        requires
            old(self).wf(),
            chunk.wf(),
            rx < 32,
            ry < 32,
        ensures
            final(self).wf(),
            final(self).chunks@ == old(self).chunks@.update(ry * 32 + rx, chunk),
            final(self).spec_present((ry * 32 + rx) as int),
            forall|s: int|
                0 <= s < 1024 && s != ry * 32 + rx ==> final(self).spec_present(s) == old(
                    self,
                ).spec_present(s),
    {
        let slot: usize = ry * 32 + rx;
        self.set_presence(slot, true);
        let ghost mid = *self;
        self.chunks[slot] = chunk;
        proof {
            assert(self.presence_map@ == mid.presence_map@);
            assert(self.spec_present(slot as int) == mid.spec_present(slot as int));
            assert forall|s: int| 0 <= s < 1024 && s != slot implies self.spec_present(s) == old(
                self,
            ).spec_present(s) by {
                assert(mid.spec_present(s) == old(self).spec_present(s));
            }
        }
    }
}

impl Default for Region {
    /// A region of default placeholder chunks, none marked present.
    fn default() -> (r: Region)
        ensures
            r.wf(),
            forall|slot: int| 0 <= slot < 1024 ==> !r.spec_present(slot),
    {
        Region::new()
    }
}

} // verus!
