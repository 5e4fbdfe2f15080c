use tetris::game::Command;
use tetris::grid::{EMPTY_CELL, GRID_HEIGHT, GRID_WIDTH};
use tetris::{GameState, MovingPiece, Piece, Pos};

fn grid_snapshot(gs: &GameState) -> Vec<u8> {
    let mut cells = Vec::new();
    for y in 0..GRID_HEIGHT {
        for x in 0..GRID_WIDTH {
            cells.push(gs.grid.cell(Pos::new(x, y)));
        }
    }
    cells
}

/// Drop a piece straight down over an empty board until it locks: exactly
/// its four cells are locked with its colour, everything else stays empty.
#[test]
fn straight_drop_locks_four_cells_at_the_bottom() {
    let mut gs = GameState::new(42);
    gs.next_piece = Piece::from_index(1); // horizontal bar, colour 1
    gs.tick(); // spawn
    assert!(gs.cur_piece.is_some());
    let mut ticks = 0;
    while gs.cur_piece.is_some() {
        gs.tick();
        ticks += 1;
        assert!(ticks < 10_000, "piece never locked");
    }
    assert!(!gs.gameover);
    assert_eq!(gs.score, 0);
    for y in 0..GRID_HEIGHT {
        for x in 0..GRID_WIDTH {
            let c = gs.grid.cell(Pos::new(x, y));
            if y == GRID_HEIGHT - 1 && (4..=7).contains(&x) {
                assert_eq!(c, 1, "target cell ({}, {}) must carry the piece colour", x, y);
            } else {
                assert_eq!(c, EMPTY_CELL, "cell ({}, {}) must stay empty", x, y);
            }
        }
    }
}

/// Complete a row whose last gap the locking piece fills: the row collapses,
/// the score rises by 40, and the row above lands one row lower.
#[test]
fn completing_a_row_clears_it_and_scores_forty() {
    let mut gs = GameState::new(3);
    let mut piece = Piece::from_index(1);
    piece.rotate_left(); // vertical bar at the pivot column
    // fill the bottom row except the column the piece will land in
    for x in 0..GRID_WIDTH {
        if x != 5 {
            assert!(gs.grid.set(Pos::new(x, 19), 2));
        }
    }
    // a marker in the second-to-bottom row
    assert!(gs.grid.set(Pos::new(0, 18), 3));
    gs.cur_piece = Some(MovingPiece { pos: Pos::new(5, 18), piece });
    gs.move_frames = 17;
    gs.tick(); // period elapses; the bar cannot fall further and locks
    assert!(gs.cur_piece.is_none());
    assert!(!gs.gameover);
    assert_eq!(gs.score, 40);
    // the marker from row 18 now stands in row 19
    assert_eq!(gs.grid.cell(Pos::new(0, 19)), 3);
    // the bar's remaining cells each moved one row down
    assert_eq!(gs.grid.cell(Pos::new(5, 19)), 1);
    assert_eq!(gs.grid.cell(Pos::new(5, 18)), 1);
    assert_eq!(gs.grid.cell(Pos::new(5, 17)), 1);
    assert_eq!(gs.grid.cell(Pos::new(5, 16)), EMPTY_CELL);
    // the completed row's old contents are gone
    for x in 1..GRID_WIDTH {
        if x != 5 {
            assert_eq!(gs.grid.cell(Pos::new(x, 19)), EMPTY_CELL);
        }
    }
}

/// A piece that cannot fall while still above the visible board locks out
/// of bounds: the game ends and the board is left exactly as it was.
#[test]
fn lock_above_the_board_sets_game_over_without_writes() {
    let mut gs = GameState::new(1);
    for x in 0..GRID_WIDTH {
        assert!(gs.grid.set(Pos::new(x, 0), 3));
    }
    gs.cur_piece = Some(MovingPiece { pos: Pos::new(5, -1), piece: Piece::from_index(1) });
    gs.move_frames = 17;
    let before = grid_snapshot(&gs);
    gs.tick();
    assert!(gs.gameover);
    assert_eq!(gs.score, 0);
    assert!(gs.cur_piece.is_some());
    assert_eq!(grid_snapshot(&gs), before);
    // the terminal state is permanent: further ticks change nothing
    gs.tick();
    assert!(gs.gameover);
    assert_eq!(grid_snapshot(&gs), before);
}

/// `MoveLeft` with the piece's leftmost cell already in column 0 is
/// silently rejected.
#[test]
fn move_left_at_the_wall_is_rejected() {
    let mut gs = GameState::new(7);
    // horizontal bar with cells in columns 0..=3
    gs.cur_piece = Some(MovingPiece { pos: Pos::new(1, 5), piece: Piece::from_index(1) });
    gs.command(Command::MoveLeft);
    assert_eq!(gs.cur_piece.unwrap().pos, Pos::new(1, 5));
    // away from the wall the same command moves the piece
    gs.cur_piece = Some(MovingPiece { pos: Pos::new(2, 5), piece: Piece::from_index(1) });
    gs.command(Command::MoveLeft);
    assert_eq!(gs.cur_piece.unwrap().pos, Pos::new(1, 5));
}

/// A rotation that would collide with a locked cell is silently rejected.
#[test]
fn blocked_rotation_is_rejected() {
    let mut gs = GameState::new(7);
    // a vertical bar rotated up from the bottom row would need rows above;
    // block one of the cells the rotation would occupy
    gs.cur_piece = Some(MovingPiece { pos: Pos::new(4, 10), piece: Piece::from_index(1) });
    assert!(gs.grid.set(Pos::new(4, 9), 2));
    let before = gs.cur_piece;
    gs.command(Command::RotateLeft);
    assert_eq!(gs.cur_piece, before);
}

/// After game over every command is a no-op: board, score, piece and flag
/// all keep their values.
#[test]
fn commands_after_game_over_change_nothing() {
    let mut gs = GameState::new(9);
    gs.cur_piece = Some(MovingPiece::new(Piece::from_index(4)));
    gs.gameover = true;
    let before = grid_snapshot(&gs);
    let piece_before = gs.cur_piece;
    let frames_before = gs.move_frames;
    for c in [
        Command::MoveLeft,
        Command::MoveRight,
        Command::RotateLeft,
        Command::RotateRight,
        Command::SoftDrop,
    ] {
        gs.command(c);
        assert!(gs.gameover);
        assert_eq!(gs.score, 0);
        assert_eq!(grid_snapshot(&gs), before);
        assert_eq!(gs.cur_piece, piece_before);
        assert_eq!(gs.move_frames, frames_before);
    }
}

/// The cumulative score never decreases over a long random game.
#[test]
fn score_is_monotone_over_a_random_game() {
    let mut gs = GameState::new(2024);
    let mut last = 0u32;
    for i in 0..5_000 {
        gs.tick();
        if i % 3 == 0 {
            gs.command(Command::SoftDrop);
        }
        if i % 7 == 0 {
            gs.command(Command::MoveLeft);
        }
        if i % 11 == 0 {
            gs.command(Command::RotateRight);
        }
        assert!(gs.score >= last);
        last = gs.score;
    }
}
