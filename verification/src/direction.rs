//! The four orientations in which a patch can be laid.

use vstd::prelude::*;

verus! {

/// One of the four rotations of a patch. `East` leaves the patch as its
/// catalog entry draws it; `South`, `West` and `North` turn it clockwise by
/// one, two and three quarter turns. There is no reflection.
#[derive(Clone, Copy, PartialEq, Eq, Structural, Debug)]
pub enum ShapeDirection {
    East,
    South,
    West,
    North,
}

impl Default for ShapeDirection {
    fn default() -> (dir: ShapeDirection)
        ensures
            dir == ShapeDirection::East,
    {
        ShapeDirection::East
    }
}

} // verus!
