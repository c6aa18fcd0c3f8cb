//! One occupied cell of the play field.

use vstd::prelude::*;

verus! {

/// A present play-field cell. `wall` marks an indestructible obstacle that
/// row completion cannot clear; a non-wall tile is a placed piece fragment or
/// an obstacle already cut by the blade.
#[derive(Debug, Clone, Copy, PartialEq, Eq, Structural)]
pub struct Tile {
    pub wall: bool,
}

} // verus!
