use tetris::game::{score_for_clears, Command, FRAMES_PER_MOVE};
use tetris::grid::{EMPTY_CELL, GRID_HEIGHT, GRID_WIDTH};
use tetris::piece::NUM_COLOURS;
use tetris::{GameState, Grid, MovingPiece, Piece, Pos};

#[test]
fn new_grid_is_empty() {
    let g = Grid::new();
    for y in 0..GRID_HEIGHT {
        for x in 0..GRID_WIDTH {
            assert_eq!(g.cell(Pos::new(x, y)), EMPTY_CELL);
        }
    }
}

#[test]
fn set_writes_in_bounds_and_rejects_outside() {
    let mut g = Grid::new();
    assert!(g.set(Pos::new(3, 7), 2));
    assert_eq!(g.cell(Pos::new(3, 7)), 2);
    assert!(!g.set(Pos::new(-1, 7), 2));
    assert!(!g.set(Pos::new(10, 7), 2));
    assert!(!g.set(Pos::new(3, -1), 2));
    assert!(!g.set(Pos::new(3, 20), 2));
    assert_eq!(g.cell(Pos::new(3, 7)), 2);
}

#[test]
fn free_or_above_cases() {
    let mut g = Grid::new();
    g.set(Pos::new(4, 4), 0);
    // free in-bounds cell
    assert!(g.is_free_or_above(Pos::new(0, 0)));
    // occupied cell
    assert!(!g.is_free_or_above(Pos::new(4, 4)));
    // above the board, horizontally in range
    assert!(g.is_free_or_above(Pos::new(0, -1)));
    assert!(g.is_free_or_above(Pos::new(9, -5)));
    // above the board but horizontally out of range
    assert!(!g.is_free_or_above(Pos::new(-1, -1)));
    assert!(!g.is_free_or_above(Pos::new(10, -1)));
    // below or beside the board
    assert!(!g.is_free_or_above(Pos::new(0, 20)));
    assert!(!g.is_free_or_above(Pos::new(-1, 5)));
    assert!(!g.is_free_or_above(Pos::new(10, 5)));
}

#[test]
fn check_for_line_detects_and_collapses() {
    let mut g = Grid::new();
    for x in 0..GRID_WIDTH {
        g.set(Pos::new(x, 5), 1);
    }
    // a marker above the cleared row, and one below it
    g.set(Pos::new(2, 3), 4);
    g.set(Pos::new(9, 10), 6);
    assert!(g.check_for_line(5));
    // row 0 is now empty
    for x in 0..GRID_WIDTH {
        assert_eq!(g.cell(Pos::new(x, 0)), EMPTY_CELL);
    }
    // the marker above shifted down one row
    assert_eq!(g.cell(Pos::new(2, 3)), EMPTY_CELL);
    assert_eq!(g.cell(Pos::new(2, 4)), 4);
    // the full row is gone
    for x in 0..GRID_WIDTH {
        assert_eq!(g.cell(Pos::new(x, 5)), EMPTY_CELL);
    }
    // the row below the clear is untouched
    assert_eq!(g.cell(Pos::new(9, 10)), 6);
}

#[test]
fn check_for_line_leaves_incomplete_row() {
    let mut g = Grid::new();
    for x in 0..GRID_WIDTH {
        if x != 6 {
            g.set(Pos::new(x, 12), 3);
        }
    }
    assert!(!g.check_for_line(12));
    for x in 0..GRID_WIDTH {
        let c = g.cell(Pos::new(x, 12));
        if x == 6 {
            assert_eq!(c, EMPTY_CELL);
        } else {
            assert_eq!(c, 3);
        }
    }
}

#[test]
fn four_left_rotations_restore_every_shape() {
    for colour in 0..NUM_COLOURS {
        let original = Piece::from_index(colour);
        let mut p = original;
        for _ in 0..4 {
            p.rotate_left();
        }
        assert_eq!(p, original);
    }
}

#[test]
fn rotate_right_is_inverse_of_rotate_left() {
    for colour in 0..NUM_COLOURS {
        let original = Piece::from_index(colour);
        let mut p = original;
        p.rotate_left();
        p.rotate_right();
        assert_eq!(p, original);
        p.rotate_right();
        p.rotate_left();
        assert_eq!(p, original);
    }
}

#[test]
fn colour_is_invariant_under_rotation() {
    for colour in 0..NUM_COLOURS {
        let mut p = Piece::from_index(colour);
        p.rotate_left();
        assert_eq!(p.colour, colour);
        p.rotate_right();
        p.rotate_right();
        assert_eq!(p.colour, colour);
    }
}

#[test]
fn rotate_left_concrete_values() {
    // shape 1 is the horizontal bar; one left rotation makes it vertical
    let mut p = Piece::from_index(1);
    p.rotate_left();
    assert_eq!(p.offsets[0], Pos::new(0, 1));
    assert_eq!(p.offsets[1], Pos::new(0, 0));
    assert_eq!(p.offsets[2], Pos::new(0, -1));
    assert_eq!(p.offsets[3], Pos::new(0, -2));
}

#[test]
fn points_are_four_distinct_translated_cells() {
    for colour in 0..NUM_COLOURS {
        let p = Piece::from_index(colour);
        let origin = Pos::new(5, 9);
        let pts = p.points(origin);
        assert_eq!(pts.len(), 4);
        for i in 0..4 {
            assert_eq!(pts[i].x, origin.x + p.offsets[i].x);
            assert_eq!(pts[i].y, origin.y + p.offsets[i].y);
            for j in 0..i {
                assert_ne!(pts[i], pts[j]);
            }
        }
    }
}

#[test]
fn random_pieces_are_canonical_shapes() {
    let mut rng = oorandom::Rand32::new(99);
    let mut seen = [false; NUM_COLOURS as usize];
    for _ in 0..200 {
        let p = Piece::get_random(&mut rng);
        assert!(p.colour < NUM_COLOURS);
        assert_eq!(p, Piece::from_index(p.colour));
        seen[p.colour as usize] = true;
    }
    // 200 uniform draws over 7 shapes hit every shape in practice
    assert!(seen.iter().all(|&s| s));
}

#[test]
fn spawn_position_is_centre_above_board() {
    let p = Piece::from_index(0);
    let mp = MovingPiece::new(p);
    assert_eq!(mp.pos, Pos::new(5, -2));
    assert_eq!(mp.piece, p);
}

#[test]
fn scoring_table_is_exact() {
    assert_eq!(score_for_clears(0), 0);
    assert_eq!(score_for_clears(1), 40);
    assert_eq!(score_for_clears(2), 100);
    assert_eq!(score_for_clears(3), 300);
    assert_eq!(score_for_clears(4), 1200);
}

#[test]
fn new_game_starts_clean() {
    let gs = GameState::new(12345);
    assert!(!gs.gameover);
    assert_eq!(gs.score, 0);
    assert_eq!(gs.move_frames, 0);
    assert!(gs.cur_piece.is_none());
    assert!(gs.next_piece.colour < NUM_COLOURS);
    for y in 0..GRID_HEIGHT {
        for x in 0..GRID_WIDTH {
            assert_eq!(gs.grid.cell(Pos::new(x, y)), EMPTY_CELL);
        }
    }
}

#[test]
fn first_tick_spawns_the_preview_piece() {
    let mut gs = GameState::new(8);
    let preview = gs.next_piece;
    gs.tick();
    let mp = gs.cur_piece.expect("piece spawns on the first tick");
    assert_eq!(mp.piece, preview);
    assert_eq!(mp.pos, Pos::new(5, -2));
    assert!(gs.next_piece.colour < NUM_COLOURS);
    assert_eq!(gs.score, 0);
    assert!(!gs.gameover);
}

#[test]
fn timer_descends_piece_once_per_period() {
    let mut gs = GameState::new(4);
    gs.next_piece = Piece::from_index(1);
    gs.tick(); // spawn at (5, -2)
    for i in 1..FRAMES_PER_MOVE {
        gs.tick();
        assert_eq!(gs.move_frames, i);
        assert_eq!(gs.cur_piece.unwrap().pos, Pos::new(5, -2));
    }
    gs.tick(); // the period elapses: descend and reset
    assert_eq!(gs.move_frames, 0);
    assert_eq!(gs.cur_piece.unwrap().pos, Pos::new(5, -1));
}

#[test]
fn soft_drop_advances_half_period_and_caps() {
    let mut gs = GameState::new(4);
    gs.cur_piece = Some(MovingPiece::new(Piece::from_index(2)));
    assert_eq!(gs.move_frames, 0);
    gs.command(Command::SoftDrop);
    assert_eq!(gs.move_frames, FRAMES_PER_MOVE / 2);
    gs.command(Command::SoftDrop);
    assert_eq!(gs.move_frames, FRAMES_PER_MOVE);
    gs.command(Command::SoftDrop);
    assert_eq!(gs.move_frames, FRAMES_PER_MOVE);
}
