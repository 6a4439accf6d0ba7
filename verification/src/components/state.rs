//! Snapshot-shaped component records, as carried in state updates.
use vstd::prelude::*;
use crate::geo::WorldPos;

verus! {

/// An entity's position in the world.
#[derive(Debug, Clone, Copy, PartialEq)]
pub struct Position(pub WorldPos);

/// An entity's vital statistics.
#[derive(Debug, Clone, Copy)]
pub struct Stats {
    pub hp: i32,
    pub max_hp: i32,
    pub mana: i32,
    pub max_mana: i32,
}

/// An entity's visual representation: a glyph and an 0xRRGGBB color.
#[derive(Debug, Clone, Copy)]
pub struct Render {
    pub glyph: char,
    pub color_rgb: u32,
}

/// An entity's display name.
#[derive(Debug, Clone)]
pub struct Name(pub String);

/// Marks an entity as driven by a player or an external agent.
#[derive(Debug, Clone)]
pub struct Controller {
    pub agent_id: String,
}

} // verus!
