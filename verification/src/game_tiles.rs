//! Tiles of the dungeon.

use vstd::prelude::*;

verus! {

/// An enemy that a tile starts with.
pub struct TileEnemy {}

} // verus!
