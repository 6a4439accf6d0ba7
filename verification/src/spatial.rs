//! A spatial index over entities.
//!
//! Entities are bucketed by the grid cell holding their position — cells
//! are 16 tiles a side, matching the chunk size — so "who stands near
//! (x, y)?" is one bucket lookup. Cell coordinates divide rounding toward
//! zero, and each bucket keeps its entities in insertion order.
use vstd::prelude::*;
use std::collections::HashMap;
use crate::geo::{WorldPos, spec_encode};
use crate::guid::ObjectGuid;

verus! {

broadcast use vstd::std_specs::hash::group_hash_axioms;

/// The cell coordinate of an axis value: divided by 16, rounded toward
/// zero.
pub open spec fn spec_cell_coord(v: int) -> int {
    if v >= 0 {
        v / 16
    } else {
        -((-v) / 16)
    }
}

/// The packed key of the cell holding `pos`.
pub open spec fn spec_cell_key(pos: WorldPos) -> u64 {
    spec_encode(
        spec_cell_coord(pos.spec_x()) as i32,
        spec_cell_coord(pos.spec_y()) as i32,
        0,
    )
}

/// The bucket `s` with every occurrence of `entity` removed, order kept.
pub open spec fn spec_without(s: Seq<ObjectGuid>, entity: ObjectGuid) -> Seq<ObjectGuid> {
    s.filter(|e: ObjectGuid| e != entity)
}

/// A map from cell key to the entities inside that cell.
pub struct SpatialGrid {
    pub buckets: HashMap<u64, Vec<ObjectGuid>>,
}

/// One axis value's cell coordinate.
fn cell_coord(v: i32) -> (r: i32)
    requires
        -0x2000000 <= v < 0x2000000,
    ensures
        r == spec_cell_coord(v as int),
        -0x200000 <= r <= 0x200000,
{
    if v >= 0 {
        ((v as u32) / 16) as i32
    } else {
        let m: u32 = (-(v as i64)) as u32;
        -((m / 16) as i32)
    }
}

impl SpatialGrid {
    /// An empty index.
    pub fn new() -> (r: SpatialGrid)
        ensures
            r.buckets@ == Map::<u64, Vec<ObjectGuid>>::empty(),
    {
        SpatialGrid { buckets: HashMap::new() }
    }

    /// The key of the cell holding `pos`.
    fn get_key(pos: WorldPos) -> (r: u64)
        ensures
            r == spec_cell_key(pos),
    {
        let cx: i32 = cell_coord(pos.x());
        let cy: i32 = cell_coord(pos.y());
        WorldPos::new(cx, cy, 0).0
    }

    /// Adds `entity` to the bucket of the cell holding `pos`, at the end
    /// of that bucket; no other bucket changes.
    pub fn insert(&mut self, entity: ObjectGuid, pos: WorldPos)
        ensures
            final(self).buckets@.contains_key(spec_cell_key(pos)),
            final(self).buckets@[spec_cell_key(pos)]@ == (if old(self).buckets@.contains_key(
                spec_cell_key(pos),
            ) {
                old(self).buckets@[spec_cell_key(pos)]@
            } else {
                Seq::<ObjectGuid>::empty()
            }).push(entity),
            forall|k2: u64|
                k2 != spec_cell_key(pos) ==> (#[trigger] final(self).buckets@.contains_key(k2))
                    == old(self).buckets@.contains_key(k2),
            forall|k2: u64|
                k2 != spec_cell_key(pos) && old(self).buckets@.contains_key(k2)
                    ==> (#[trigger] final(self).buckets@[k2]) == old(self).buckets@[k2],
    {
        let k: u64 = Self::get_key(pos);
        let mut bucket: Vec<ObjectGuid> = match self.buckets.remove(&k) {
            Some(v) => v,
            None => Vec::new(),
        };
        bucket.push(entity);
        self.buckets.insert(k, bucket);
    }

    /// Removes every occurrence of `entity` from the bucket of the cell
    /// holding `pos`, keeping the order of the rest; no other bucket
    /// changes. A cell with no bucket is left as it is.
    pub fn remove(&mut self, entity: ObjectGuid, pos: WorldPos)
        ensures
            forall|k2: u64|
                (#[trigger] final(self).buckets@.contains_key(k2)) == old(self).buckets@.contains_key(k2),
            old(self).buckets@.contains_key(spec_cell_key(pos)) ==> final(self).buckets@[spec_cell_key(pos)]@ == spec_without(
                old(self).buckets@[spec_cell_key(pos)]@,
                entity,
            ),
            forall|k2: u64|
                k2 != spec_cell_key(pos) && old(self).buckets@.contains_key(k2)
                    ==> (#[trigger] final(self).buckets@[k2]) == old(self).buckets@[k2],
    {
        let k: u64 = Self::get_key(pos);
        match self.buckets.remove(&k) {
            Some(bucket) => {
                let kept: Vec<ObjectGuid> = retain_others(&bucket, entity);
                self.buckets.insert(k, kept);
            },
            None => {},
        }
    }

    /// Moves `entity` from the cell of `old_pos` to the cell of
    /// `new_pos`: nothing happens when both positions share a cell, else
    /// the entity leaves the old bucket and joins the end of the new one.
    pub fn move_entity(&mut self, entity: ObjectGuid, old_pos: WorldPos, new_pos: WorldPos)
        ensures
            spec_cell_key(old_pos) == spec_cell_key(new_pos) ==> final(self).buckets@ == old(self).buckets@,
            spec_cell_key(old_pos) != spec_cell_key(new_pos) ==> {
                &&& final(self).buckets@.contains_key(spec_cell_key(new_pos))
                &&& old(self).buckets@.contains_key(spec_cell_key(old_pos)) ==> final(self).buckets@[spec_cell_key(old_pos)]@ == spec_without(
                    old(self).buckets@[spec_cell_key(old_pos)]@,
                    entity,
                )
                &&& final(self).buckets@[spec_cell_key(new_pos)]@ == (if old(self).buckets@.contains_key(spec_cell_key(new_pos)) {
                    old(self).buckets@[spec_cell_key(new_pos)]@
                } else {
                    Seq::<ObjectGuid>::empty()
                }).push(entity)
                &&& forall|k2: u64|
                    k2 != spec_cell_key(old_pos) && k2 != spec_cell_key(new_pos) && old(self).buckets@.contains_key(k2) ==> (#[trigger] final(self).buckets@[k2]) == old(self).buckets@[k2]
            },
    {
        let old_key: u64 = Self::get_key(old_pos);
        let new_key: u64 = Self::get_key(new_pos);
        if old_key == new_key {
            return ;
        }
        self.remove(entity, old_pos);
        self.insert(entity, new_pos);
    }

    /// The entities in the cell holding `pos`, in insertion order; an
    /// empty list where that cell has no bucket.
    pub fn query_bucket(&self, pos: WorldPos) -> (r: Vec<ObjectGuid>)
        ensures
            r@ == if self.buckets@.contains_key(spec_cell_key(pos)) {
                self.buckets@[spec_cell_key(pos)]@
            } else {
                Seq::<ObjectGuid>::empty()
            },
    {
        let k: u64 = Self::get_key(pos);
        match self.buckets.get(&k) {
            Some(bucket) => copy_guids(bucket),
            None => Vec::new(),
        }
    }
}

/// A copy of `v` without any occurrence of `entity`, order kept.
fn retain_others(v: &Vec<ObjectGuid>, entity: ObjectGuid) -> (r: Vec<ObjectGuid>)
    ensures
        r@ == spec_without(v@, entity),
{
    let mut out: Vec<ObjectGuid> = Vec::new();
    let mut i: usize = 0;
    proof {
        reveal(Seq::filter);
        assert(v@.subrange(0, 0) =~= Seq::<ObjectGuid>::empty());
    }
    while i < v.len()
        invariant
            i <= v@.len(),
            out@ == spec_without(v@.subrange(0, i as int), entity),
        decreases v@.len() - i,
    {
        proof {
            reveal(Seq::filter);
            assert(v@.subrange(0, i as int + 1).drop_last() =~= v@.subrange(0, i as int));
            assert(v@.subrange(0, i as int + 1).last() == v@[i as int]);
        }
        let e: ObjectGuid = v[i];
        if e != entity {
            out.push(e);
        }
        i = i + 1;
    }
    proof {
        assert(v@.subrange(0, v@.len() as int) =~= v@);
    }
    out
}

/// An exact copy of a guid list.
fn copy_guids(v: &Vec<ObjectGuid>) -> (r: Vec<ObjectGuid>)
    ensures
        r@ == v@,
{
    let mut out: Vec<ObjectGuid> = Vec::new();
    let mut i: usize = 0;
    while i < v.len()
        invariant
            i <= v@.len(),
            out@ == v@.subrange(0, i as int),
        decreases v@.len() - i,
    {
        out.push(v[i]);
        proof {
            assert(out@ =~= v@.subrange(0, i + 1 as int));
        }
        i = i + 1;
    }
    proof {
        assert(v@.subrange(0, v@.len() as int) =~= v@);
    }
    out
}

impl Default for SpatialGrid {
    /// An empty index.
    fn default() -> (r: SpatialGrid)
        ensures
            r.buckets@ == Map::<u64, Vec<ObjectGuid>>::empty(),
    {
        SpatialGrid::new()
    }
}

} // verus!
