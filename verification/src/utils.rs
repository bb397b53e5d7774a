use vstd::prelude::*;

verus! {

/// A zero-based cell address on the board.
#[derive(Clone, Copy, Debug, PartialEq, Eq, Structural)]
pub struct Coordinates {
    pub x: usize,
    pub y: usize,
}

impl Coordinates {
    /// The cell in column `x` of row `y`.
    pub fn new(x: usize, y: usize) -> (pos: Coordinates)
        ensures
            pos == (Coordinates { x, y }),
    {
        Coordinates { x, y }
    }
}

} // verus!
