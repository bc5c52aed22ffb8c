//! What the editor of tiles does to a zone.

use vstd::prelude::*;

verus! {

/// What is done to every voxel of a zone.
#[derive(Clone, Copy, Debug)]
pub enum ZoneAction {
    Place,
    Destroy,
}

} // verus!
