//! Board coordinates and offset arithmetic that never wraps.

use vstd::prelude::*;

verus! {

/// An offset would take a coordinate below zero or past the integer range.
#[derive(Clone, Copy, Debug, PartialEq, Eq, Structural)]
pub struct OutOfBounds;

/// The coordinate `u + i`, where it is a `usize`.
pub open spec fn offset_coord(u: usize, i: i8) -> Option<usize> {
    if 0 <= u + i <= usize::MAX {
        Some((u + i) as usize)
    } else {
        None
    }
}

/// Adds a signed offset to a coordinate; `None` where the result leaves the
/// range of `usize`.
pub fn add_target_to_loc(u: usize, i: i8) -> (r: Option<usize>)
    ensures
        r == offset_coord(u, i),
{
    if i < 0 {
        let a: usize = (-(i as i16)) as usize;
        if a <= u {
            Some(u - a)
        } else {
            None
        }
    } else {
        let a: usize = i as usize;
        if u <= usize::MAX - a {
            Some(u + a)
        } else {
            None
        }
    }
}

/// A position on the board: column `x`, row `y`.
#[derive(Clone, Copy, Debug, PartialEq, Eq, Structural)]
pub struct BoardLoc {
    pub x: usize,
    pub y: usize,
}

/// The location `old_loc + target`, where both coordinates stay in range.
pub open spec fn offset_loc(old_loc: (usize, usize), target: (i8, i8)) -> Result<BoardLoc, OutOfBounds> {
    match (offset_coord(old_loc.0, target.0), offset_coord(old_loc.1, target.1)) {
        (Some(x), Some(y)) => Ok(BoardLoc { x, y }),
        _ => Err(OutOfBounds),
    }
}

impl BoardLoc {
    /// Offsets a location by a signed delta.
    pub fn location_from_target(old_loc: &(usize, usize), target: (i8, i8)) -> (r: Result<BoardLoc, OutOfBounds>)
        ensures
            r == offset_loc(*old_loc, target),
    {
        let x = add_target_to_loc(old_loc.0, target.0);
        let y = add_target_to_loc(old_loc.1, target.1);
        match (x, y) {
            (Some(x), Some(y)) => Ok(BoardLoc { x, y }),
            _ => Err(OutOfBounds),
        }
    }

    /// The location as a pair `(x, y)`.
    pub fn get_loc(&self) -> (r: (usize, usize))
        ensures
            r == (self.x, self.y),
    {
        (self.x, self.y)
    }
}

} // verus!
