//! Wire-level message shapes, as plain data. Coordinates and tile fields
//! travel as ordinary signed integers and strings, never as the packed
//! internal layout.
use vstd::prelude::*;

verus! {

/// A message from a client to the server.
#[derive(Debug)]
pub enum ClientPacket {
    Login { token: String },
    Move { x: i32, y: i32 },
}

/// A message from the server to a client.
#[derive(Debug, Clone)]
pub enum ServerPacket {
    AuthSuccess { guid: String },
    AuthFailed { reason: String },
    Snapshot { tick: u64, entities: Vec<EntityView> },
}

/// One entity as a client sees it in a snapshot.
#[derive(Debug, Clone)]
pub struct EntityView {
    pub guid: String,
    pub x: i32,
    pub y: i32,
    pub glyph: char,
    pub color: String,
}

} // verus!
