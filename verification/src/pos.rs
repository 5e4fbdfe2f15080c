use vstd::prelude::*;

verus! {

/// A board coordinate or a relative offset from a piece's pivot.
/// Signed, since a piece may occupy rows above the visible board
/// (negative `y`) before it locks.
#[derive(Clone, Copy, PartialEq, Eq, Structural, Debug)]
pub struct Pos {
    pub x: i8,
    pub y: i8,
}

/// Componentwise sum of a position and an offset, truncated to `i8`
/// (callers stay far away from the truncating range).
pub open spec fn pos_plus(a: Pos, b: Pos) -> Pos {
    Pos { x: (a.x + b.x) as i8, y: (a.y + b.y) as i8 }
}

impl Pos {
    pub fn new(x: i8, y: i8) -> (p: Pos)
        ensures
            p == (Pos { x, y }),
    {
        Pos { x, y }
    }
}

} // verus!
