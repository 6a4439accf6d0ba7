//! Commands that change the world's state: plain data handed from the
//! outside in.
use vstd::prelude::*;
use crate::geo::WorldPos;
use crate::guid::ObjectGuid;

verus! {

/// A command issued to the simulation.
#[derive(Debug, Clone)]
pub enum InputCmd {
    /// An entity wants to move to a target position.
    Move { entity_guid: ObjectGuid, target: WorldPos },
    /// An entity wants to cast a spell at another entity.
    Cast { caster: ObjectGuid, spell_id: u32, target: ObjectGuid },
}

} // verus!
