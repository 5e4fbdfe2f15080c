use vstd::prelude::*;

use oorandom::Rand32;

use crate::grid::{GRID_HEIGHT, GRID_WIDTH};
use crate::pos::{pos_plus, Pos};
use crate::rng::rng_range;

verus! {

/// Size of the colour palette; also the number of canonical shapes, since
/// each shape has its own colour index.
pub const NUM_COLOURS: u8 = 7;

/// The left rotation `(x, y) -> (y, -x)` of one pivot offset.
pub open spec fn rot_left(p: Pos) -> Pos {
    Pos { x: p.y, y: (-p.x) as i8 }
}

/// The right rotation `(x, y) -> (-y, x)` of one pivot offset.
pub open spec fn rot_right(p: Pos) -> Pos {
    Pos { x: (-p.y) as i8, y: p.x }
}

/// Pivot offsets stay within two cells of the pivot, under every rotation.
pub open spec fn off_ok(p: Pos) -> bool {
    -2 <= p.x <= 2 && -2 <= p.y <= 2
}

/// All offsets of a shape, rotated left.
pub open spec fn rotated_left_offsets(s: Seq<Pos>) -> Seq<Pos> {
    s.map_values(|p: Pos| rot_left(p))
}

/// All offsets of a shape, rotated right.
pub open spec fn rotated_right_offsets(s: Seq<Pos>) -> Seq<Pos> {
    s.map_values(|p: Pos| rot_right(p))
}

/// The pivot offsets of the canonical shape with colour index `c`.
pub open spec fn canonical_offsets(c: int) -> Seq<Pos> {
    if c == 0 {
        seq![Pos { x: -1i8, y: -1i8 }, Pos { x: 0i8, y: -1i8 }, Pos { x: 1i8, y: -1i8 }, Pos { x: -1i8, y: 0i8 }]
    } else if c == 1 {
        seq![Pos { x: -1i8, y: 0i8 }, Pos { x: 0i8, y: 0i8 }, Pos { x: 1i8, y: 0i8 }, Pos { x: 2i8, y: 0i8 }]
    } else if c == 2 {
        seq![Pos { x: -1i8, y: -1i8 }, Pos { x: 0i8, y: -1i8 }, Pos { x: 1i8, y: -1i8 }, Pos { x: 0i8, y: 0i8 }]
    } else if c == 3 {
        seq![Pos { x: 0i8, y: -1i8 }, Pos { x: 1i8, y: -1i8 }, Pos { x: -1i8, y: 0i8 }, Pos { x: 0i8, y: 0i8 }]
    } else if c == 4 {
        seq![Pos { x: -1i8, y: -1i8 }, Pos { x: 0i8, y: -1i8 }, Pos { x: 0i8, y: 0i8 }, Pos { x: 1i8, y: 0i8 }]
    } else if c == 5 {
        seq![Pos { x: -1i8, y: -1i8 }, Pos { x: 0i8, y: -1i8 }, Pos { x: -1i8, y: 0i8 }, Pos { x: 0i8, y: 0i8 }]
    } else {
        seq![Pos { x: -1i8, y: -1i8 }, Pos { x: 0i8, y: -1i8 }, Pos { x: 1i8, y: -1i8 }, Pos { x: 1i8, y: 0i8 }]
    }
}

/// An immutable shape: a colour index and four cell offsets from a pivot at
/// the origin.
#[derive(Clone, Copy, PartialEq, Eq, Debug)]
pub struct Piece {
    pub colour: u8,
    pub offsets: [Pos; 4],
}

impl Piece {
    /// The colour is a palette index, the offsets stay near the pivot, and
    /// the four offsets are pairwise distinct.
    pub open spec fn wf(self) -> bool {
        &&& self.colour < NUM_COLOURS
        &&& forall|i: int| 0 <= i < 4 ==> off_ok(#[trigger] self.offsets@[i])
        &&& forall|i: int, j: int| 0 <= i < j < 4 ==> self.offsets@[i] != self.offsets@[j]
    }

    /// The canonical shape with the given colour index.
    pub fn from_index(colour: u8) -> (p: Piece)
        requires
            colour < NUM_COLOURS,
        ensures
            p.colour == colour,
            p.offsets@ == canonical_offsets(colour as int),
            p.wf(),
    {
        let offsets: [Pos; 4] = if colour == 0 {
            [Pos::new(-1, -1), Pos::new(0, -1), Pos::new(1, -1), Pos::new(-1, 0)]
        } else if colour == 1 {
            [Pos::new(-1, 0), Pos::new(0, 0), Pos::new(1, 0), Pos::new(2, 0)]
        } else if colour == 2 {
            [Pos::new(-1, -1), Pos::new(0, -1), Pos::new(1, -1), Pos::new(0, 0)]
        } else if colour == 3 {
            [Pos::new(0, -1), Pos::new(1, -1), Pos::new(-1, 0), Pos::new(0, 0)]
        } else if colour == 4 {
            [Pos::new(-1, -1), Pos::new(0, -1), Pos::new(0, 0), Pos::new(1, 0)]
        } else if colour == 5 {
            [Pos::new(-1, -1), Pos::new(0, -1), Pos::new(-1, 0), Pos::new(0, 0)]
        } else {
            [Pos::new(-1, -1), Pos::new(0, -1), Pos::new(1, -1), Pos::new(1, 0)]
        };
        let p = Piece { colour, offsets };
        proof {
            assert(p.offsets@ =~= canonical_offsets(colour as int));
        }
        p
    }

    /// Draw a colour index uniformly and return its canonical shape.
    pub fn get_random(rng: &mut Rand32) -> (p: Piece)
        ensures
            p.wf(),
            p.colour < NUM_COLOURS,
            p.offsets@ == canonical_offsets(p.colour as int),
    {
        let colour = rng_range(rng, 0, NUM_COLOURS as u32) as u8;
        Piece::from_index(colour)
    }

    /// Rotate every offset left around the pivot, in place.  The colour is
    /// untouched.  This is a naive pivot rotation with no wall kick: callers
    /// reject, rather than adjust, a rotation that would collide.
    pub fn rotate_left(&mut self)
        requires
            old(self).wf(),
        ensures
            final(self).wf(),
            final(self).colour == old(self).colour,
            final(self).offsets@ == rotated_left_offsets(old(self).offsets@),
    {
        let o = self.offsets;
        self.offsets = [
            Pos::new(o[0].y, -o[0].x),
            Pos::new(o[1].y, -o[1].x),
            Pos::new(o[2].y, -o[2].x),
            Pos::new(o[3].y, -o[3].x),
        ];
        proof {
            assert(self.offsets@ =~= rotated_left_offsets(o@));
        }
    }

    /// Rotate every offset right around the pivot, in place; the exact
    /// inverse of `rotate_left`.  The colour is untouched.
    pub fn rotate_right(&mut self)
        requires
            old(self).wf(),
        ensures
            final(self).wf(),
            final(self).colour == old(self).colour,
            final(self).offsets@ == rotated_right_offsets(old(self).offsets@),
    {
        let o = self.offsets;
        self.offsets = [
            Pos::new(-o[0].y, o[0].x),
            Pos::new(-o[1].y, o[1].x),
            Pos::new(-o[2].y, o[2].x),
            Pos::new(-o[3].y, o[3].x),
        ];
        proof {
            assert(self.offsets@ =~= rotated_right_offsets(o@));
        }
    }

    /// The four absolute positions the shape occupies when its pivot stands
    /// at `origin`; always four pairwise distinct cells.
    pub fn points(&self, origin: Pos) -> (pts: [Pos; 4])
        requires
            self.wf(),
            -126 <= origin.x <= 125,
            -126 <= origin.y <= 125,
        ensures
            forall|i: int| 0 <= i < 4 ==> pts@[i] == pos_plus(origin, self.offsets@[i]),
            forall|i: int, j: int| 0 <= i < j < 4 ==> pts@[i] != pts@[j],
    {
        let o = self.offsets;
        [
            Pos::new(origin.x + o[0].x, origin.y + o[0].y),
            Pos::new(origin.x + o[1].x, origin.y + o[1].y),
            Pos::new(origin.x + o[2].x, origin.y + o[2].y),
            Pos::new(origin.x + o[3].x, origin.y + o[3].y),
        ]
    }
}

/// Four successive left rotations restore a shape's offsets exactly:
/// rotation is a cyclic group of order 4.
pub proof fn lemma_rotate_left_order_four(s: Seq<Pos>)
    requires
        forall|i: int| 0 <= i < s.len() ==> off_ok(#[trigger] s[i]),
    ensures
        rotated_left_offsets(rotated_left_offsets(rotated_left_offsets(rotated_left_offsets(s))))
            =~= s,
{
}

/// A right rotation exactly undoes a left rotation, and the other way
/// around, offset set for offset set.
pub proof fn lemma_rotate_inverse(s: Seq<Pos>)
    requires
        forall|i: int| 0 <= i < s.len() ==> off_ok(#[trigger] s[i]),
    ensures
        rotated_right_offsets(rotated_left_offsets(s)) =~= s,
        rotated_left_offsets(rotated_right_offsets(s)) =~= s,
{
}

/// Horizontal spawn column: the middle of the board.
pub const SPAWN_X: i8 = 5;

/// Vertical spawn row: two rows above the visible top, so a fresh piece gets
/// a grace period before any of its cells becomes visible.
pub const SPAWN_Y: i8 = -2;

/// A shape bound to an absolute board position.
#[derive(Clone, Copy, PartialEq, Eq, Debug)]
pub struct MovingPiece {
    pub pos: Pos,
    pub piece: Piece,
}

impl MovingPiece {
    /// The shape is well-formed and the pivot never strays more than two
    /// cells beyond the board edges (movement is only ever committed onto
    /// free-or-above cells, which pins every absolute cell near the board).
    pub open spec fn wf(self) -> bool {
        &&& self.piece.wf()
        &&& -2 <= self.pos.x <= GRID_WIDTH + 1
        &&& SPAWN_Y <= self.pos.y <= GRID_HEIGHT + 1
    }

    /// Bind a piece to the spawn position: centred horizontally, two rows
    /// above the visible top.
    pub fn new(piece: Piece) -> (mp: MovingPiece)
        requires
            piece.wf(),
        ensures
            mp.piece == piece,
            mp.pos == (Pos { x: SPAWN_X, y: SPAWN_Y }),
            mp.wf(),
    {
        MovingPiece { pos: Pos::new(SPAWN_X, SPAWN_Y), piece }
    }
}

} // verus!
