//! Entity components: plain data attached to simulated entities.
//! The storage engine carries these values; it does not interpret them.
use vstd::prelude::*;
use crate::geo::WorldPos;
use crate::guid::ObjectGuid;

pub mod state;

verus! {

/// An entity's position in the world.
#[derive(Debug, Clone, Copy, PartialEq)]
pub struct Position(pub WorldPos);

/// An entity's visual representation: a glyph and an 0xRRGGBB color.
#[derive(Debug, Clone, Copy)]
pub struct Render {
    pub glyph: char,
    pub color_rgb: u32,
}

/// An entity's display name.
#[derive(Debug, Clone)]
pub struct Name(pub String);

/// An entity's vital statistics.
#[derive(Debug, Clone, Copy)]
pub struct Stats {
    pub hp: i32,
    pub max_hp: i32,
    pub mana: i32,
    pub max_mana: i32,
    pub is_dead: bool,
}

/// Marks an entity as driven by a player or an external agent.
#[derive(Debug, Clone)]
pub struct Controller {
    pub agent_id: String,
}

/// Marks an entity as blocking movement.
#[derive(Debug, Clone, Copy)]
pub struct Blocker;

/// A reference from one entity to another, such as a target.
#[derive(Debug, Clone, Copy)]
pub struct Target(pub ObjectGuid);

} // verus!
