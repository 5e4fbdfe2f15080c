use vstd::prelude::*;

use oorandom::Rand32;

use crate::grid::{
    cell_index, collapsed, free_or_above, in_bounds, row_full, Grid, GRID_HEIGHT,
};
use crate::piece::{
    rotated_left_offsets, rotated_right_offsets, MovingPiece, Piece, SPAWN_X, SPAWN_Y,
};
use crate::pos::{pos_plus, Pos};
use crate::rng::rng_new;

verus! {

/// Number of logical ticks between automatic one-row descents.
pub const FRAMES_PER_MOVE: u8 = 18;

/// A discrete player command, validated against the collision rules before
/// it is applied.
#[derive(Clone, Copy, PartialEq, Eq, Debug)]
pub enum Command {
    MoveLeft,
    MoveRight,
    RotateLeft,
    RotateRight,
    SoftDrop,
}

/// The absolute cell that offset `i` of a shape occupies when the pivot
/// stands at `origin`.
pub open spec fn abs_point(origin: Pos, offs: Seq<Pos>, i: int) -> Pos {
    pos_plus(origin, offs[i])
}

/// Every absolute cell of the shape is a free board cell or lies above the
/// visible board.
pub open spec fn fits_at(g: Seq<u8>, origin: Pos, offs: Seq<Pos>) -> bool {
    forall|i: int| 0 <= i < offs.len() ==> free_or_above(g, #[trigger] abs_point(origin, offs, i))
}

/// The absolute cell that offset `i` of a moving piece occupies.
pub open spec fn piece_point(mp: MovingPiece, i: int) -> Pos {
    abs_point(mp.pos, mp.piece.offsets@, i)
}

/// The position one row below `p`.
pub open spec fn down_pos(p: Pos) -> Pos {
    Pos { x: p.x, y: (p.y + 1) as i8 }
}

/// The piece can advance one row without leaving the board or hitting a
/// locked cell.
pub open spec fn can_fall(g: Seq<u8>, mp: MovingPiece) -> bool {
    fits_at(g, down_pos(mp.pos), mp.piece.offsets@)
}

/// The pivot position a command asks for (rotations keep the pivot).
pub open spec fn cand_pos(mp: MovingPiece, c: Command) -> Pos {
    match c {
        Command::MoveLeft => Pos { x: (mp.pos.x - 1) as i8, y: mp.pos.y },
        Command::MoveRight => Pos { x: (mp.pos.x + 1) as i8, y: mp.pos.y },
        _ => mp.pos,
    }
}

/// The offsets a command asks for (horizontal moves keep the shape).
pub open spec fn cand_offsets(mp: MovingPiece, c: Command) -> Seq<Pos> {
    match c {
        Command::RotateLeft => rotated_left_offsets(mp.piece.offsets@),
        Command::RotateRight => rotated_right_offsets(mp.piece.offsets@),
        _ => mp.piece.offsets@,
    }
}

/// The board after the first `n` cells of the piece are written in, each at
/// its absolute position, skipping cells that lie off the board.
pub open spec fn write_upto(g: Seq<u8>, mp: MovingPiece, n: int) -> Seq<u8>
    decreases n,
{
    if n <= 0 {
        g
    } else {
        let g1 = write_upto(g, mp, n - 1);
        let p = piece_point(mp, n - 1);
        if in_bounds(p) {
            g1.update(cell_index(p), mp.piece.colour)
        } else {
            g1
        }
    }
}

/// Index of the first piece cell (at or after `i`) that lies off the board,
/// or 4 when all remaining cells are on it.
pub open spec fn first_oob(mp: MovingPiece, i: int) -> int
    decreases 4 - i,
{
    if i >= 4 {
        4
    } else if !in_bounds(piece_point(mp, i)) {
        i
    } else {
        first_oob(mp, i + 1)
    }
}

/// Every cell of the piece lies on the visible board.
pub open spec fn piece_in_bounds(mp: MovingPiece) -> bool {
    forall|i: int| 0 <= i < 4 ==> in_bounds(#[trigger] piece_point(mp, i))
}

/// The piece has a cell in row `y`.
pub open spec fn touches_row(mp: MovingPiece, y: int) -> bool {
    exists|i: int| 0 <= i < 4 && (#[trigger] piece_point(mp, i)).y == y
}

/// Walk rows `0..y` from the top down; collapse each row the piece touches
/// that is full, and count the collapses.  Yields the final board and the
/// count.
pub open spec fn clear_upto(g: Seq<u8>, mp: MovingPiece, y: int) -> (Seq<u8>, int)
    decreases y,
{
    if y <= 0 {
        (g, 0)
    } else {
        let r = clear_upto(g, mp, y - 1);
        if touches_row(mp, y - 1) && row_full(r.0, y - 1) {
            (collapsed(r.0, y - 1), r.1 + 1)
        } else {
            r
        }
    }
}

/// How many of the piece's four cells lie in a row strictly above `y`;
/// an upper bound for the number of rows its lock can clear.
pub open spec fn row_hits(mp: MovingPiece, y: int) -> int {
    (if 0 <= piece_point(mp, 0).y < y { 1int } else { 0int })
        + (if 0 <= piece_point(mp, 1).y < y { 1int } else { 0int })
        + (if 0 <= piece_point(mp, 2).y < y { 1int } else { 0int })
        + (if 0 <= piece_point(mp, 3).y < y { 1int } else { 0int })
}

/// Points awarded for clearing `n` rows in one lock event.
pub open spec fn score_for(n: int) -> u32 {
    if n <= 0 {
        0
    } else if n == 1 {
        40
    } else if n == 2 {
        100
    } else if n == 3 {
        300
    } else {
        1200
    }
}

/// The score after `points` are added, saturating at the counter's maximum.
pub open spec fn score_plus(score: u32, points: u32) -> u32 {
    if score + points > u32::MAX {
        u32::MAX
    } else {
        (score + points) as u32
    }
}

/// The timer after one soft-drop press: half a period ahead, capped at the
/// period.
pub open spec fn soft_drop_frames(mf: u8) -> u8 {
    if mf + FRAMES_PER_MOVE / 2 >= FRAMES_PER_MOVE {
        FRAMES_PER_MOVE
    } else {
        (mf + FRAMES_PER_MOVE / 2) as u8
    }
}

/// A lock event can clear at most as many rows as the piece has cells.
pub proof fn lemma_clear_count_le(g: Seq<u8>, mp: MovingPiece, y: int)
    requires
        0 <= y,
    ensures
        0 <= clear_upto(g, mp, y).1 <= row_hits(mp, y),
        row_hits(mp, y) <= 4,
    decreases y,
{
    if y > 0 {
        lemma_clear_count_le(g, mp, y - 1);
        assert(row_hits(mp, y - 1) <= row_hits(mp, y));
        if touches_row(mp, y - 1) && row_full(clear_upto(g, mp, y - 1).0, y - 1) {
            let i = choose|i: int| 0 <= i < 4 && (#[trigger] piece_point(mp, i)).y == y - 1;
            assert(row_hits(mp, y - 1) + 1 <= row_hits(mp, y));
        }
    }
}

/// `first_oob` names the first off-board cell: everything before it is on
/// the board, and it is off the board itself unless all four cells are on.
proof fn lemma_first_oob(mp: MovingPiece, i: int)
    requires
        0 <= i <= 4,
    ensures
        i <= first_oob(mp, i) <= 4,
        forall|j: int| i <= j < first_oob(mp, i) ==> in_bounds(#[trigger] piece_point(mp, j)),
        first_oob(mp, i) < 4 ==> !in_bounds(piece_point(mp, first_oob(mp, i))),
    decreases 4 - i,
{
    if i < 4 {
        if in_bounds(piece_point(mp, i)) {
            lemma_first_oob(mp, i + 1);
        }
    }
}

/// Write the piece's cells into the grid in offset order, stopping at the
/// first cell that lies off the board; report whether one did.
fn write_piece(grid: &mut Grid, mp: MovingPiece) -> (oob: bool)
    requires
        old(grid).wf(),
        mp.wf(),
    ensures
        final(grid).wf(),
        oob == !piece_in_bounds(mp),
        final(grid)@ == write_upto(old(grid)@, mp, first_oob(mp, 0)),
{
    let ghost g0 = grid@;
    let pts = mp.piece.points(mp.pos);
    proof {
        assert(pts@[0] == piece_point(mp, 0));
        assert(pts@[1] == piece_point(mp, 1));
        assert(pts@[2] == piece_point(mp, 2));
        assert(pts@[3] == piece_point(mp, 3));
    }
    let colour = mp.piece.colour;
    let mut k: usize = 0;
    let mut oob = false;
    while k < 4 && !oob
        invariant
            0 <= k <= 4,
            grid.wf(),
            g0.len() == grid@.len(),
            pts@[0] == piece_point(mp, 0),
            pts@[1] == piece_point(mp, 1),
            pts@[2] == piece_point(mp, 2),
            pts@[3] == piece_point(mp, 3),
            colour == mp.piece.colour,
            forall|j: int| 0 <= j < k ==> in_bounds(#[trigger] piece_point(mp, j)),
            grid@ == write_upto(g0, mp, k as int),
            oob ==> k < 4 && !in_bounds(piece_point(mp, k as int)),
        decreases 4 - k + (if oob { 0int } else { 1int }),
    {
        let ok = grid.set(pts[k], colour);
        if ok {
            k += 1;
        } else {
            oob = true;
        }
    }
    proof {
        lemma_first_oob(mp, 0);
        if oob {
            assert(first_oob(mp, 0) == k as int);
            assert(!piece_in_bounds(mp));
        } else {
            assert(first_oob(mp, 0) == 4);
            assert(piece_in_bounds(mp));
        }
    }
    oob
}

/// Collapse every full row the locked piece touched, from the top down, and
/// count how many rows went.
fn clear_full_rows(grid: &mut Grid, mp: MovingPiece) -> (cleared: u8)
    requires
        old(grid).wf(),
        mp.wf(),
    ensures
        final(grid).wf(),
        final(grid)@ == clear_upto(old(grid)@, mp, GRID_HEIGHT as int).0,
        cleared as int == clear_upto(old(grid)@, mp, GRID_HEIGHT as int).1,
        cleared <= 4,
{
    let ghost g1 = grid@;
    let pts = mp.piece.points(mp.pos);
    proof {
        assert(pts@[0] == piece_point(mp, 0));
        assert(pts@[1] == piece_point(mp, 1));
        assert(pts@[2] == piece_point(mp, 2));
        assert(pts@[3] == piece_point(mp, 3));
    }
    let mut cleared: u8 = 0;
    let mut y: i8 = 0;
    while y < GRID_HEIGHT
        invariant
            0 <= y <= GRID_HEIGHT,
            grid.wf(),
            g1.len() == grid@.len(),
            pts@[0] == piece_point(mp, 0),
            pts@[1] == piece_point(mp, 1),
            pts@[2] == piece_point(mp, 2),
            pts@[3] == piece_point(mp, 3),
            grid@ == clear_upto(g1, mp, y as int).0,
            cleared as int == clear_upto(g1, mp, y as int).1,
            cleared <= 4,
        decreases GRID_HEIGHT - y,
    {
        let touched = y == pts[0].y || y == pts[1].y || y == pts[2].y || y == pts[3].y;
        proof {
            if touches_row(mp, y as int) {
                let i = choose|i: int| 0 <= i < 4 && (#[trigger] piece_point(mp, i)).y == y as int;
                assert(touched);
            }
            if touched {
                assert(touches_row(mp, y as int));
            }
        }
        if touched {
            if grid.check_for_line(y) {
                proof {
                    lemma_clear_count_le(g1, mp, y as int + 1);
                }
                cleared = cleared + 1;
            }
        }
        y = y + 1;
    }
    cleared
}

/// Points for a number of rows cleared by one lock event: the exact table
/// 0, 40, 100, 300, 1200.  A four-cell piece can never clear more than four
/// rows, so larger counts do not arise.
pub fn score_for_clears(n: u8) -> (points: u32)
    requires
        n <= 4,
    ensures
        points == score_for(n as int),
{
    if n == 0 {
        0
    } else if n == 1 {
        40
    } else if n == 2 {
        100
    } else if n == 3 {
        300
    } else {
        1200
    }
}

/// The whole game: board, active and preview piece, score, timer, game-over
/// flag and the random generator that picks the next shapes.
pub struct GameState {
    pub grid: Grid,
    pub gameover: bool,
    pub move_frames: u8,
    pub score: u32,
    pub rng: Rand32,
    pub next_piece: Piece,
    pub cur_piece: Option<MovingPiece>,
}

impl GameState {
    /// The board keeps its dimensions, the pieces are well-formed shapes,
    /// and the move timer never runs past its period.
    pub open spec fn wf(self) -> bool {
        &&& self.grid.wf()
        &&& self.next_piece.wf()
        &&& self.move_frames <= FRAMES_PER_MOVE
        &&& (self.cur_piece matches Some(mp) ==> mp.wf())
    }

    /// A fresh game over an empty board: no active piece yet, a random
    /// preview piece, score zero, timer zero.
    pub fn new(seed: u64) -> (gs: GameState)
        ensures
            gs.wf(),
            !gs.gameover,
            gs.score == 0,
            gs.move_frames == 0,
            gs.cur_piece is None,
            gs.next_piece.offsets@ == crate::piece::canonical_offsets(gs.next_piece.colour as int),
            forall|i: int| 0 <= i < gs.grid@.len() ==> gs.grid@[i] == crate::grid::EMPTY_CELL,
    {
        let mut rng = rng_new(seed);
        let next_piece = Piece::get_random(&mut rng);
        GameState {
            grid: Grid::new(),
            gameover: false,
            move_frames: 0,
            score: 0,
            rng,
            next_piece,
            cur_piece: None,
        }
    }

    /// Build the candidate the command asks for and commit it only when
    /// every resulting cell is free or above the board; otherwise the
    /// command is silently rejected and nothing changes.
    fn apply_move(&mut self, mp: MovingPiece, c: Command)
        requires
            old(self).wf(),
            !old(self).gameover,
            old(self).cur_piece == Some(mp),
            c != Command::SoftDrop,
        ensures
            final(self).wf(),
            final(self).grid == old(self).grid,
            final(self).score == old(self).score,
            final(self).gameover == old(self).gameover,
            final(self).next_piece == old(self).next_piece,
            final(self).rng == old(self).rng,
            final(self).move_frames == old(self).move_frames,
            fits_at(old(self).grid@, cand_pos(mp, c), cand_offsets(mp, c)) ==> (final(self).cur_piece matches Some(nm) && nm.pos == cand_pos(mp, c) && nm.piece.colour
                == mp.piece.colour && nm.piece.offsets@ == cand_offsets(mp, c)),
            !fits_at(old(self).grid@, cand_pos(mp, c), cand_offsets(mp, c)) ==> final(self).cur_piece == old(self).cur_piece,
    {
        let mut cand = mp;
        match c {
            Command::MoveLeft => {
                cand.pos = Pos::new(cand.pos.x - 1, cand.pos.y);
            }
            Command::MoveRight => {
                cand.pos = Pos::new(cand.pos.x + 1, cand.pos.y);
            }
            Command::RotateLeft => {
                cand.piece.rotate_left();
            }
            Command::RotateRight => {
                cand.piece.rotate_right();
            }
            Command::SoftDrop => {}
        }
        proof {
            assert(cand.pos == cand_pos(mp, c));
            assert(cand.piece.offsets@ =~= cand_offsets(mp, c));
        }
        let pts = cand.piece.points(cand.pos);
        proof {
            assert(pts@[0] == abs_point(cand.pos, cand.piece.offsets@, 0));
            assert(pts@[1] == abs_point(cand.pos, cand.piece.offsets@, 1));
            assert(pts@[2] == abs_point(cand.pos, cand.piece.offsets@, 2));
            assert(pts@[3] == abs_point(cand.pos, cand.piece.offsets@, 3));
        }
        let f0 = self.grid.is_free_or_above(pts[0]);
        let f1 = self.grid.is_free_or_above(pts[1]);
        let f2 = self.grid.is_free_or_above(pts[2]);
        let f3 = self.grid.is_free_or_above(pts[3]);
        if f0 && f1 && f2 && f3 {
            proof {
                assert forall|i: int|
                    0 <= i < 4 implies free_or_above(
                    self.grid@,
                    #[trigger] abs_point(cand.pos, cand.piece.offsets@, i),
                ) by {
                    if i == 0 {
                        assert(free_or_above(self.grid@, pts@[0]));
                    } else if i == 1 {
                        assert(free_or_above(self.grid@, pts@[1]));
                    } else if i == 2 {
                        assert(free_or_above(self.grid@, pts@[2]));
                    } else {
                        assert(free_or_above(self.grid@, pts@[3]));
                    }
                }
                assert(fits_at(self.grid@, cand.pos, cand.piece.offsets@));
                assert(free_or_above(self.grid@, abs_point(cand.pos, cand.piece.offsets@, 0)));
                assert(-2 <= cand.pos.x <= crate::grid::GRID_WIDTH + 1);
            }
            self.cur_piece = Some(cand);
        } else {
            proof {
                assert(!fits_at(self.grid@, cand.pos, cand.piece.offsets@));
            }
        }
    }

    /// Apply one player command, outside the fixed tick: nothing happens
    /// after game over or without an active piece; a soft drop advances the
    /// move timer by half its period; the other commands move or rotate the
    /// piece when the collision rules allow it and are silently rejected
    /// otherwise.  The board, the score and the game-over flag never change.
    pub fn command(&mut self, c: Command)
        requires
            old(self).wf(),
        ensures
            final(self).wf(),
            final(self).grid == old(self).grid,
            final(self).score == old(self).score,
            final(self).gameover == old(self).gameover,
            final(self).next_piece == old(self).next_piece,
            final(self).rng == old(self).rng,
            old(self).gameover ==> *final(self) == *old(self),
            !old(self).gameover && old(self).cur_piece is None ==> *final(self) == *old(self),
            old(self).cur_piece matches Some(mp) ==> !old(self).gameover && c == Command::SoftDrop
                ==> final(self).cur_piece == old(self).cur_piece && final(self).move_frames
                == soft_drop_frames(old(self).move_frames),
            old(self).cur_piece matches Some(mp) ==> !old(self).gameover && c != Command::SoftDrop
                ==> final(self).move_frames == old(self).move_frames,
            old(self).cur_piece matches Some(mp) ==> !old(self).gameover && c != Command::SoftDrop
                && fits_at(old(self).grid@, cand_pos(mp, c), cand_offsets(mp, c)) ==> (final(self).cur_piece matches Some(nm) && nm.pos == cand_pos(mp, c) && nm.piece.colour
                == mp.piece.colour && nm.piece.offsets@ == cand_offsets(mp, c)),
            old(self).cur_piece matches Some(mp) ==> !old(self).gameover && c != Command::SoftDrop
                && !fits_at(old(self).grid@, cand_pos(mp, c), cand_offsets(mp, c)) ==> final(self).cur_piece == old(self).cur_piece,
    {
        if self.gameover {
            return;
        }
        match self.cur_piece {
            None => {}
            Some(mp) => {
                match c {
                    Command::SoftDrop => {
                        let half = FRAMES_PER_MOVE / 2;
                        if self.move_frames >= FRAMES_PER_MOVE - half {
                            self.move_frames = FRAMES_PER_MOVE;
                        } else {
                            self.move_frames = self.move_frames + half;
                        }
                    }
                    _ => {
                        self.apply_move(mp, c);
                    }
                }
            }
        }
    }

    /// Lock the piece where it stands: write its cells into the grid.  A
    /// cell off the board is the one fatal condition and sets game over,
    /// with no further grid writes; otherwise the piece is retired, every
    /// full row it touched collapses top to bottom, and the clears of this
    /// one lock event are scored.
    fn lock_piece(&mut self, mp: MovingPiece)
        requires
            old(self).wf(),
            !old(self).gameover,
            old(self).cur_piece == Some(mp),
        ensures
            final(self).wf(),
            final(self).score >= old(self).score,
            final(self).move_frames == old(self).move_frames,
            final(self).next_piece == old(self).next_piece,
            final(self).rng == old(self).rng,
            piece_in_bounds(mp) ==> !final(self).gameover && final(self).cur_piece is None
                && final(self).grid@ == clear_upto(
                write_upto(old(self).grid@, mp, 4),
                mp,
                GRID_HEIGHT as int,
            ).0 && final(self).score == score_plus(
                old(self).score,
                score_for(clear_upto(write_upto(old(self).grid@, mp, 4), mp, GRID_HEIGHT as int).1),
            ),
            !piece_in_bounds(mp) ==> final(self).gameover && final(self).cur_piece == old(self).cur_piece && final(self).score == old(self).score && final(self).grid@ == write_upto(
                old(self).grid@,
                mp,
                first_oob(mp, 0),
            ),
    {
        let oob = write_piece(&mut self.grid, mp);
        if oob {
            self.gameover = true;
        } else {
            proof {
                lemma_first_oob(mp, 0);
                assert(first_oob(mp, 0) == 4);
            }
            self.cur_piece = None;
            let cleared = clear_full_rows(&mut self.grid, mp);
            let points_scored = score_for_clears(cleared);
            self.score = self.score.saturating_add(points_scored);
        }
    }

    /// One fixed-rate simulation step.  After game over nothing happens.
    /// With no active piece, the preview piece spawns and a fresh preview is
    /// drawn.  Otherwise the move timer advances; each time it reaches its
    /// period it resets and the piece descends one row, or locks where it
    /// stands when it cannot.
    pub fn tick(&mut self)
        requires
            old(self).wf(),
        ensures
            final(self).wf(),
            final(self).score >= old(self).score,
            old(self).gameover ==> *final(self) == *old(self),
            !old(self).gameover && old(self).cur_piece is None ==> ({
                &&& final(self).grid == old(self).grid
                &&& final(self).score == old(self).score
                &&& !final(self).gameover
                &&& final(self).move_frames == old(self).move_frames
                &&& final(self).cur_piece == (Some(
                    MovingPiece { pos: Pos { x: SPAWN_X, y: SPAWN_Y }, piece: old(self).next_piece },
                ))
                &&& final(self).next_piece.wf()
                &&& final(self).next_piece.offsets@ == crate::piece::canonical_offsets(
                    final(self).next_piece.colour as int,
                )
            }),
            old(self).cur_piece matches Some(mp) ==> !old(self).gameover ==> final(self).next_piece
                == old(self).next_piece && final(self).rng == old(self).rng,
            old(self).cur_piece matches Some(mp) ==> !old(self).gameover && old(self).move_frames
                + 1 < FRAMES_PER_MOVE ==> *final(self) == (GameState {
                move_frames: (old(self).move_frames + 1) as u8,
                ..*old(self)
            }),
            old(self).cur_piece matches Some(mp) ==> !old(self).gameover && old(self).move_frames
                + 1 >= FRAMES_PER_MOVE ==> final(self).move_frames == 0,
            old(self).cur_piece matches Some(mp) ==> !old(self).gameover && old(self).move_frames
                + 1 >= FRAMES_PER_MOVE && can_fall(old(self).grid@, mp) ==> (final(self).grid
                == old(self).grid && final(self).score == old(self).score && !final(self).gameover
                && final(self).cur_piece == Some(
                MovingPiece { pos: down_pos(mp.pos), piece: mp.piece },
            )),
            old(self).cur_piece matches Some(mp) ==> !old(self).gameover && old(self).move_frames
                + 1 >= FRAMES_PER_MOVE && !can_fall(old(self).grid@, mp) && piece_in_bounds(mp)
                ==> (!final(self).gameover && final(self).cur_piece is None && final(self).grid@
                == clear_upto(write_upto(old(self).grid@, mp, 4), mp, GRID_HEIGHT as int).0 && final(self).score == score_plus(
                old(self).score,
                score_for(clear_upto(write_upto(old(self).grid@, mp, 4), mp, GRID_HEIGHT as int).1),
            )),
            old(self).cur_piece matches Some(mp) ==> !old(self).gameover && old(self).move_frames
                + 1 >= FRAMES_PER_MOVE && !can_fall(old(self).grid@, mp) && !piece_in_bounds(mp)
                ==> (final(self).gameover && final(self).cur_piece == old(self).cur_piece && final(self).score == old(self).score && final(self).grid@ == write_upto(
                old(self).grid@,
                mp,
                first_oob(mp, 0),
            )),
    {
        if self.gameover {
            return;
        }
        match self.cur_piece {
            None => {
                let piece = self.next_piece;
                self.next_piece = Piece::get_random(&mut self.rng);
                self.cur_piece = Some(MovingPiece::new(piece));
            }
            Some(mp) => {
                let mf = self.move_frames + 1;
                if mf < FRAMES_PER_MOVE {
                    self.move_frames = mf;
                } else {
                    self.move_frames = 0;
                    let target = Pos::new(mp.pos.x, mp.pos.y + 1);
                    let pts = mp.piece.points(target);
                    proof {
                        assert(target == down_pos(mp.pos));
                        assert(pts@[0] == abs_point(target, mp.piece.offsets@, 0));
                        assert(pts@[1] == abs_point(target, mp.piece.offsets@, 1));
                        assert(pts@[2] == abs_point(target, mp.piece.offsets@, 2));
                        assert(pts@[3] == abs_point(target, mp.piece.offsets@, 3));
                    }
                    let f0 = self.grid.is_free_or_above(pts[0]);
                    let f1 = self.grid.is_free_or_above(pts[1]);
                    let f2 = self.grid.is_free_or_above(pts[2]);
                    let f3 = self.grid.is_free_or_above(pts[3]);
                    if f0 && f1 && f2 && f3 {
                        proof {
                            assert forall|i: int|
                                0 <= i < 4 implies free_or_above(
                                self.grid@,
                                #[trigger] abs_point(target, mp.piece.offsets@, i),
                            ) by {
                                if i == 0 {
                                    assert(free_or_above(self.grid@, pts@[0]));
                                } else if i == 1 {
                                    assert(free_or_above(self.grid@, pts@[1]));
                                } else if i == 2 {
                                    assert(free_or_above(self.grid@, pts@[2]));
                                } else {
                                    assert(free_or_above(self.grid@, pts@[3]));
                                }
                            }
                            assert(can_fall(self.grid@, mp));
                            assert(free_or_above(self.grid@, abs_point(target, mp.piece.offsets@, 0)));
                            assert(SPAWN_Y <= target.y <= GRID_HEIGHT + 1);
                        }
                        self.cur_piece = Some(MovingPiece { pos: target, piece: mp.piece });
                    } else {
                        proof {
                            assert(!can_fall(self.grid@, mp));
                        }
                        self.lock_piece(mp);
                    }
                }
            }
        }
    }
}

} // verus!

