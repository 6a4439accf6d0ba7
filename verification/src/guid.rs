//! Strongly typed object identifiers.
//!
//! A guid packs four unsigned fields into one 64-bit word with layout
//! `[ shard (8) | type (8) | generation (16) | index (32) ]`. The zero
//! word is the nil guid.
use vstd::prelude::*;

verus! {

/// A packed object identifier.
#[derive(Clone, Copy, Debug, PartialEq, Eq, Structural, Hash, PartialOrd, Ord)]
pub struct ObjectGuid(pub u64);

/// The packed word holding the four guid fields.
pub open spec fn spec_guid(shard: u8, type_id: u8, generation: u16, index: u32) -> u64 {
    ((shard as u64) << 56) | ((type_id as u64) << 48) | ((generation as u64) << 32) | (index as u64)
}

impl ObjectGuid {
    /// The stored index field.
    pub open spec fn spec_index(self) -> u32 {
        (self.0 & 0xFFFFFFFF) as u32
    }

    /// The stored generation field.
    pub open spec fn spec_generation(self) -> u16 {
        ((self.0 >> 32) & 0xFFFF) as u16
    }

    /// The stored type field.
    pub open spec fn spec_type_id(self) -> u8 {
        ((self.0 >> 48) & 0xFF) as u8
    }

    /// The stored shard field.
    pub open spec fn spec_shard_id(self) -> u8 {
        ((self.0 >> 56) & 0xFF) as u8
    }

    /// Packs the four fields; every field is recovered exactly by its
    /// accessor.
    pub fn new(shard: u8, type_id: u8, generation: u16, index: u32) -> (r: ObjectGuid)
        ensures
            r.0 == spec_guid(shard, type_id, generation, index),
            r.spec_shard_id() == shard,
            r.spec_type_id() == type_id,
            r.spec_generation() == generation,
            r.spec_index() == index,
    {
        let raw: u64 = ((shard as u64) << 56) | ((type_id as u64) << 48) | ((generation as u64)
            << 32) | (index as u64);
        proof {
            let w = spec_guid(shard, type_id, generation, index);
            assert(((w >> 56) & 0xFF) as u8 == shard && ((w >> 48) & 0xFF) as u8 == type_id && ((w
                >> 32) & 0xFFFF) as u16 == generation && (w & 0xFFFFFFFF) as u32 == index)
                by (bit_vector)
                requires
                    w == ((shard as u64) << 56) | ((type_id as u64) << 48) | ((generation as u64)
                        << 32) | (index as u64),
            ;
        }
        ObjectGuid(raw)
    }

    /// The index field.
    pub fn index(&self) -> (r: u32)
        ensures
            r == self.spec_index(),
    {
        proof {
            let w = self.0;
            assert(w & 0xFFFFFFFF <= 0xFFFFFFFF) by (bit_vector);
        }
        (self.0 & 0xFFFFFFFF) as u32
    }

    /// The generation field.
    pub fn generation(&self) -> (r: u16)
        ensures
            r == self.spec_generation(),
    {
        proof {
            let w = self.0;
            assert((w >> 32) & 0xFFFF <= 0xFFFF) by (bit_vector);
        }
        ((self.0 >> 32) & 0xFFFF) as u16
    }

    /// The type field.
    pub fn type_id(&self) -> (r: u8)
        ensures
            r == self.spec_type_id(),
    {
        proof {
            let w = self.0;
            assert((w >> 48) & 0xFF <= 0xFF) by (bit_vector);
        }
        ((self.0 >> 48) & 0xFF) as u8
    }

    /// The shard field.
    pub fn shard_id(&self) -> (r: u8)
        ensures
            r == self.spec_shard_id(),
    {
        proof {
            let w = self.0;
            assert((w >> 56) & 0xFF <= 0xFF) by (bit_vector);
        }
        ((self.0 >> 56) & 0xFF) as u8
    }

    /// Whether this is the nil guid.
    pub fn is_nil(&self) -> (r: bool)
        ensures
            r == (self.0 == 0),
    {
        self.0 == 0
    }

    /// The raw word, for storage or transport.
    pub fn as_u64(&self) -> (r: u64)
        ensures
            r == self.0,
    {
        self.0
    }

    /// The nil guid.
    pub fn nil() -> (r: ObjectGuid)
        ensures
            r.0 == 0,
    {
        ObjectGuid(0)
    }
}

} // verus!
