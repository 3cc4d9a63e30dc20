use tetrust::{PieceEnum, Pieces, Tetris, TetrisPiece, Tile, TileColor, TileError};

const KINDS: [PieceEnum; 7] = [
    PieceEnum::O,
    PieceEnum::S,
    PieceEnum::Z,
    PieceEnum::T,
    PieceEnum::L,
    PieceEnum::J,
    PieceEnum::I,
];

fn open_game(x: u16, y: u16, kind: PieceEnum) -> Tetris {
    let piece = TetrisPiece { x, y, piece: kind, buf: PieceEnum::buf(0, &kind), state: 0 };
    Tetris::new(piece, Pieces::new())
}

fn game(x: u16, y: u16, kind: PieceEnum) -> Tetris {
    let mut tetris = open_game(x, y, kind);
    tetris.tile_canvas.build_walls();
    tetris
}

fn settle(tetris: &mut Tetris, x: u16, y: u16, color: TileColor) {
    tetris.tile_canvas.set_tile_override(x, y, color).unwrap();
    tetris.tile_canvas.set_tile_state(x, y, false);
}

fn cells(tetris: &Tetris, wanted: Tile) -> Vec<(u16, u16)> {
    let mut found = Vec::new();
    for x in 0..20u16 {
        for y in 0..20u16 {
            if tetris.tile_canvas.get_tile_override(x, y) == wanted {
                found.push((x, y));
            }
        }
    }
    found
}

fn snapshot(tetris: &Tetris) -> Vec<Tile> {
    let mut all = Vec::new();
    for x in 0..20u16 {
        for y in 0..20u16 {
            all.push(tetris.tile_canvas.get_tile_override(x, y));
        }
    }
    all
}

#[test]
fn new_game_draws_the_first_piece() {
    let tetris = open_game(13, 0, PieceEnum::I);
    assert_eq!(cells(&tetris, Tile(TileColor::Cyan, true)), vec![(13, 1), (14, 1), (15, 1), (16, 1)]);
    assert_eq!(cells(&tetris, Tile(TileColor::Empty, true)).len(), 396);
    let p = tetris.active_piece();
    assert_eq!((p.x, p.y, p.piece, p.buf, p.state), (13, 0, PieceEnum::I, (0, 0), 0));
    assert_eq!(tetris.score(), 0);
}

#[test]
fn new_game_starts_the_piece_in_its_first_orientation() {
    let piece = TetrisPiece { x: 4, y: 2, piece: PieceEnum::T, buf: (9, 9), state: 3 };
    let tetris = Tetris::new(piece, Pieces::new());
    let p = tetris.active_piece();
    assert_eq!((p.x, p.y, p.piece, p.buf, p.state), (4, 2, PieceEnum::T, (0, 1), 0));
    assert_eq!(cells(&tetris, Tile(TileColor::Purple, true)), vec![(4, 3), (5, 2), (5, 3), (6, 3)]);
}

#[test]
fn lateral_shift() {
    let mut tetris = game(8, 0, PieceEnum::I);
    assert_eq!(cells(&tetris, Tile(TileColor::Cyan, true)), vec![(8, 1), (9, 1), (10, 1), (11, 1)]);
    let before = snapshot(&tetris);
    assert_eq!(tetris.move_piece(1, 0), Ok(false));
    assert_eq!(cells(&tetris, Tile(TileColor::Cyan, true)), vec![(9, 1), (10, 1), (11, 1), (12, 1)]);
    let after = snapshot(&tetris);
    for x in 0..20usize {
        for y in 0..20usize {
            if y != 1 || !(8..=12).contains(&x) {
                assert_eq!(after[x * 20 + y], before[x * 20 + y]);
            }
        }
    }
    assert_eq!(after[8 * 20 + 1], Tile(TileColor::Empty, true));
    let p = tetris.active_piece();
    assert_eq!((p.x, p.y, p.state, p.buf), (9, 0, 0, (0, 0)));
}

#[test]
fn shift_to_the_left() {
    let mut tetris = game(8, 0, PieceEnum::T);
    assert_eq!(tetris.move_piece(-1, 0), Ok(false));
    assert_eq!(cells(&tetris, Tile(TileColor::Purple, true)), vec![(7, 1), (8, 0), (8, 1), (9, 1)]);
    assert_eq!(tetris.active_piece().x, 7);
}

#[test]
fn a_step_of_nothing_changes_nothing() {
    let mut tetris = game(8, 0, PieceEnum::T);
    let before = snapshot(&tetris);
    assert_eq!(tetris.move_piece(0, 0), Ok(false));
    assert_eq!(snapshot(&tetris), before);
    assert_eq!((tetris.active_piece().x, tetris.active_piece().y), (8, 0));
}

#[test]
fn floor_landing() {
    let mut tetris = game(8, 0, PieceEnum::O);
    for tick in 1..=16u16 {
        assert_eq!(tetris.update_screen(), Ok(false), "tick {tick}");
        assert_eq!(tetris.active_piece().y, tick);
    }
    assert_eq!(tetris.update_screen(), Ok(true));
    assert_eq!(tetris.active_piece().y, 17);
    assert_eq!(
        cells(&tetris, Tile(TileColor::Yellow, true)),
        vec![(8, 17), (8, 18), (9, 17), (9, 18)]
    );
    assert_eq!(tetris.disable_piece(), Ok(()));
    assert_eq!(
        cells(&tetris, Tile(TileColor::Yellow, false)),
        vec![(8, 17), (8, 18), (9, 17), (9, 18)]
    );
    assert_eq!(tetris.tile_canvas.get_tile(8, 17), Some(Tile(TileColor::Empty, false)));
    assert_eq!(tetris.score(), 0);
    let rested = snapshot(&tetris);
    assert_eq!(tetris.update_screen(), Ok(false));
    assert_eq!(snapshot(&tetris), rested);
}

#[test]
fn landing_on_a_settled_cell() {
    let mut tetris = game(8, 0, PieceEnum::O);
    settle(&mut tetris, 8, 10, TileColor::Red);
    for _ in 0..7 {
        assert_eq!(tetris.update_screen(), Ok(false));
    }
    assert_eq!(tetris.update_screen(), Ok(true));
    assert_eq!(tetris.active_piece().y, 8);
    assert_eq!(cells(&tetris, Tile(TileColor::Yellow, true)), vec![(8, 8), (8, 9), (9, 8), (9, 9)]);
    assert_eq!(tetris.tile_canvas.get_tile_override(8, 10), Tile(TileColor::Red, false));
}

#[test]
fn full_row_clear() {
    let mut tetris = game(8, 0, PieceEnum::O);
    for x in (2..8u16).chain(10..18u16) {
        settle(&mut tetris, x, 18, TileColor::Red);
    }
    settle(&mut tetris, 4, 17, TileColor::Green);
    for _ in 0..16 {
        assert_eq!(tetris.update_screen(), Ok(false));
    }
    assert_eq!(tetris.update_screen(), Ok(true));
    assert_eq!(tetris.score(), 0);
    assert_eq!(tetris.disable_piece(), Ok(()));
    assert_eq!(tetris.score(), 1);
    for x in 2..18u16 {
        assert_eq!(tetris.tile_canvas.get_tile_override(x, 17), Tile(TileColor::Empty, true));
        let expected = match x {
            4 => Tile(TileColor::Green, false),
            8 | 9 => Tile(TileColor::Yellow, false),
            _ => Tile(TileColor::Empty, true),
        };
        assert_eq!(tetris.tile_canvas.get_tile_override(x, 18), expected, "column {x}");
        assert_eq!(tetris.tile_canvas.get_tile_override(x, 19), Tile(TileColor::Gray, false));
        for y in 0..17u16 {
            assert_eq!(tetris.tile_canvas.get_tile_override(x, y), Tile(TileColor::Empty, true));
        }
    }
    for y in 0..20u16 {
        assert_eq!(tetris.tile_canvas.get_tile_override(1, y), Tile(TileColor::Gray, true));
        assert_eq!(tetris.tile_canvas.get_tile_override(18, y), Tile(TileColor::Gray, true));
    }
}

#[test]
fn two_full_rows_count_twice() {
    let mut tetris = game(8, 0, PieceEnum::O);
    for x in (2..8u16).chain(10..18u16) {
        settle(&mut tetris, x, 17, TileColor::Blue);
        settle(&mut tetris, x, 18, TileColor::Red);
    }
    settle(&mut tetris, 3, 16, TileColor::Green);
    for _ in 0..16 {
        assert_eq!(tetris.update_screen(), Ok(false));
    }
    assert_eq!(tetris.update_screen(), Ok(true));
    assert_eq!(tetris.clear_row(), Ok(()));
    assert_eq!(tetris.score(), 2);
    for x in 2..18u16 {
        for y in 0..19u16 {
            let expected = if (x, y) == (3, 18) {
                Tile(TileColor::Green, false)
            } else {
                Tile(TileColor::Empty, true)
            };
            assert_eq!(tetris.tile_canvas.get_tile_override(x, y), expected, "cell ({x}, {y})");
        }
    }
}

#[test]
fn a_row_with_a_gap_is_not_cleared() {
    let mut tetris = game(8, 0, PieceEnum::O);
    for x in (2..8u16).chain(10..17u16) {
        settle(&mut tetris, x, 18, TileColor::Red);
    }
    for _ in 0..16 {
        assert_eq!(tetris.update_screen(), Ok(false));
    }
    assert_eq!(tetris.update_screen(), Ok(true));
    let before = snapshot(&tetris);
    assert_eq!(tetris.clear_row(), Ok(()));
    assert_eq!(tetris.score(), 0);
    assert_eq!(snapshot(&tetris), before);
}

#[test]
fn clearing_fails_where_a_column_is_filled_to_the_top() {
    let mut tetris = game(8, 0, PieceEnum::O);
    for x in 2..18u16 {
        tetris.tile_canvas.set_tile_override(x, 0, TileColor::Red).unwrap();
    }
    let before = snapshot(&tetris);
    assert_eq!(tetris.disable_piece(), Err(TileError::OutOfBounds));
    assert_eq!(tetris.score(), 0);
    assert_eq!(snapshot(&tetris), before);
    assert_eq!(tetris.tile_canvas.get_tile_override(8, 1), Tile(TileColor::Yellow, true));
}

#[test]
fn blocked_rotation() {
    let mut tetris = game(2, 0, PieceEnum::I);
    assert_eq!(tetris.rotate_piece(), Ok(false));
    assert_eq!(tetris.active_piece().state, 1);
    assert_eq!(tetris.active_piece().buf, (1, 2));
    assert_eq!(cells(&tetris, Tile(TileColor::Cyan, true)), vec![(3, 0), (3, 1), (3, 2), (3, 3)]);
    assert_eq!(tetris.move_piece(-1, 0), Ok(false));
    assert_eq!(tetris.active_piece().x, 1);
    assert_eq!(cells(&tetris, Tile(TileColor::Cyan, true)), vec![(2, 0), (2, 1), (2, 2), (2, 3)]);
    let before = snapshot(&tetris);
    assert_eq!(tetris.rotate_piece(), Ok(false));
    assert_eq!(snapshot(&tetris), before);
    let p = tetris.active_piece();
    assert_eq!((p.x, p.y, p.state, p.buf), (1, 0, 1, (1, 2)));
    assert_eq!(tetris.move_piece(-1, 0), Ok(false));
    assert_eq!(tetris.active_piece().x, 1);
    assert_eq!(snapshot(&tetris), before);
}

#[test]
fn rotation_blocked_at_the_right_wall() {
    let mut tetris = game(13, 0, PieceEnum::I);
    assert_eq!(tetris.rotate_piece(), Ok(false));
    assert_eq!(tetris.active_piece().state, 1);
    for x in 14..=16u16 {
        assert_eq!(tetris.move_piece(1, 0), Ok(false));
        assert_eq!(tetris.active_piece().x, x);
    }
    assert_eq!(cells(&tetris, Tile(TileColor::Cyan, true)), vec![(17, 0), (17, 1), (17, 2), (17, 3)]);
    let before = snapshot(&tetris);
    assert_eq!(tetris.move_piece(1, 0), Ok(false));
    assert_eq!(tetris.active_piece().x, 16);
    assert_eq!(tetris.rotate_piece(), Ok(false));
    assert_eq!(tetris.active_piece().state, 1);
    assert_eq!(snapshot(&tetris), before);
}

#[test]
fn rotation_blocked_by_a_cell_in_the_way() {
    let mut tetris = game(8, 5, PieceEnum::T);
    settle(&mut tetris, 9, 7, TileColor::Red);
    let before = snapshot(&tetris);
    assert_eq!(tetris.rotate_piece(), Ok(false));
    assert_eq!(tetris.active_piece().state, 0);
    assert_eq!(tetris.active_piece().buf, (0, 1));
    assert_eq!(snapshot(&tetris), before);
}

#[test]
fn rotation_turns_the_piece() {
    let mut tetris = game(8, 5, PieceEnum::T);
    assert_eq!(cells(&tetris, Tile(TileColor::Purple, true)), vec![(8, 6), (9, 5), (9, 6), (10, 6)]);
    assert_eq!(tetris.rotate_piece(), Ok(false));
    assert_eq!(cells(&tetris, Tile(TileColor::Purple, true)), vec![(9, 5), (9, 6), (9, 7), (10, 6)]);
    let p = tetris.active_piece();
    assert_eq!((p.x, p.y, p.state, p.buf), (8, 5, 1, (1, 1)));
}

#[test]
fn rotation_onto_support_lands() {
    let mut tetris = game(8, 5, PieceEnum::T);
    settle(&mut tetris, 9, 8, TileColor::Red);
    assert_eq!(tetris.rotate_piece(), Ok(true));
    assert_eq!(tetris.active_piece().state, 1);
    assert_eq!(cells(&tetris, Tile(TileColor::Purple, true)), vec![(9, 5), (9, 6), (9, 7), (10, 6)]);
}

#[test]
fn four_rotations_restore_the_field() {
    for kind in KINDS {
        let mut tetris = game(8, 3, kind);
        let before = snapshot(&tetris);
        for turn in 1..=4u8 {
            assert_eq!(tetris.rotate_piece(), Ok(false));
            let p = tetris.active_piece();
            assert_eq!(p.state, turn % 4);
            assert_eq!(p.buf, PieceEnum::buf(turn % 4, &kind));
            assert_eq!((p.x, p.y), (8, 3));
        }
        assert_eq!(snapshot(&tetris), before);
    }
}

#[test]
fn the_piece_stays_between_the_walls() {
    for kind in KINDS {
        for turns in 0..4 {
            let mut tetris = game(8, 3, kind);
            for _ in 0..turns {
                assert_eq!(tetris.rotate_piece(), Ok(false));
            }
            for _ in 0..20 {
                assert_eq!(tetris.move_piece(-1, 0), Ok(false));
                let p = tetris.active_piece();
                assert!(p.x + p.buf.0 >= 2);
            }
            let p = tetris.active_piece();
            assert_eq!(p.x + p.buf.0, 2);
            for _ in 0..20 {
                assert_eq!(tetris.move_piece(1, 0), Ok(false));
                let p = tetris.active_piece();
                assert!(p.x + 4 - p.buf.1 <= 18);
            }
            let p = tetris.active_piece();
            assert_eq!(p.x + 4 - p.buf.1, 18);
            for y in 0..19u16 {
                for x in [0u16, 1, 18, 19] {
                    let tile = tetris.tile_canvas.get_tile_override(x, y);
                    assert!(tile.0 == TileColor::Empty || tile.0 == TileColor::Gray);
                }
            }
        }
    }
}

#[test]
fn a_settled_neighbour_stops_a_step_sideways() {
    let mut tetris = game(8, 0, PieceEnum::I);
    settle(&mut tetris, 7, 1, TileColor::Red);
    assert!(tetris.check_horizontal_collision(-1));
    assert!(!tetris.check_horizontal_collision(1));
    assert!(!tetris.check_horizontal_collision(0));
    let before = snapshot(&tetris);
    assert_eq!(tetris.move_piece(-1, 0), Ok(false));
    assert_eq!(snapshot(&tetris), before);
    assert_eq!(tetris.active_piece().x, 8);
    assert_eq!(tetris.move_piece(1, 0), Ok(false));
    assert_eq!(tetris.active_piece().x, 9);
}

#[test]
fn an_active_neighbour_does_not_stop_a_step_sideways() {
    let mut tetris = game(8, 0, PieceEnum::I);
    tetris.tile_canvas.set_tile(7, 1, TileColor::Red).unwrap();
    tetris.tile_canvas.set_tile(12, 1, TileColor::Red).unwrap();
    assert!(!tetris.check_horizontal_collision(-1));
    assert!(!tetris.check_horizontal_collision(1));
}

#[test]
fn the_sideways_check_reads_three_columns() {
    let mut tetris = game(8, 0, PieceEnum::I);
    settle(&mut tetris, 12, 1, TileColor::Red);
    assert!(tetris.check_horizontal_collision(1));
    assert!(!tetris.check_horizontal_collision(-1));
    let mut tetris = game(8, 0, PieceEnum::O);
    settle(&mut tetris, 10, 0, TileColor::Red);
    assert!(tetris.check_horizontal_collision(1));
    settle(&mut tetris, 7, 1, TileColor::Red);
    assert!(tetris.check_horizontal_collision(-1));
}

#[test]
fn tile_check_wants_a_piece_beside_support() {
    let piece = Some(Tile(TileColor::Cyan, true));
    let support = Some(Tile(TileColor::Empty, false));
    assert!(Tetris::tile_check(piece, support));
    assert!(!Tetris::tile_check(piece, piece));
    assert!(!Tetris::tile_check(support, support));
    assert!(!Tetris::tile_check(None, support));
    assert!(!Tetris::tile_check(piece, None));
    assert!(!Tetris::tile_check(None, None));
}

#[test]
fn check_loss_looks_for_settled_cells_in_the_top_rows() {
    let mut tetris = game(8, 0, PieceEnum::I);
    assert!(!tetris.check_loss());
    settle(&mut tetris, 5, 3, TileColor::Red);
    assert!(!tetris.check_loss());
    settle(&mut tetris, 18, 0, TileColor::Red);
    assert!(!tetris.check_loss());
    settle(&mut tetris, 5, 2, TileColor::Red);
    assert!(tetris.check_loss());
    let mut tetris = game(8, 0, PieceEnum::I);
    settle(&mut tetris, 17, 0, TileColor::Red);
    assert!(tetris.check_loss());
    let mut tetris = game(8, 0, PieceEnum::I);
    settle(&mut tetris, 2, 1, TileColor::Blue);
    assert!(tetris.check_loss());
}

#[test]
fn set_piece_fails_below_the_field() {
    let mut tetris = game(8, 0, PieceEnum::O);
    assert_eq!(tetris.set_piece(5, 19, PieceEnum::T), Err(TileError::OutOfBounds));
    let p = tetris.active_piece();
    assert_eq!((p.x, p.y, p.piece, p.state, p.buf), (5, 19, PieceEnum::T, 0, (0, 1)));
    assert_eq!(tetris.set_piece(5, 18, PieceEnum::T), Ok((5, 18)));
}

#[test]
fn set_piece_replaces_the_falling_piece() {
    let mut tetris = game(8, 0, PieceEnum::O);
    assert_eq!(tetris.rotate_piece(), Ok(false));
    assert_eq!(tetris.set_piece(3, 4, PieceEnum::Z), Ok((3, 4)));
    let p = tetris.active_piece();
    assert_eq!((p.x, p.y, p.piece, p.state, p.buf), (3, 4, PieceEnum::Z, 0, (0, 1)));
    assert_eq!(cells(&tetris, Tile(TileColor::Red, true)), vec![(3, 4), (4, 4), (4, 5), (5, 5)]);
    assert_eq!(cells(&tetris, Tile(TileColor::Yellow, true)), vec![(8, 0), (8, 1), (9, 0), (9, 1)]);
}

#[test]
fn a_step_off_the_field_fails_half_way() {
    let mut tetris = open_game(8, 18, PieceEnum::I);
    assert_eq!(cells(&tetris, Tile(TileColor::Cyan, true)), vec![(8, 19), (9, 19), (10, 19), (11, 19)]);
    assert_eq!(tetris.update_screen(), Err(TileError::OutOfBounds));
    assert_eq!(cells(&tetris, Tile(TileColor::Cyan, true)), vec![(8, 19), (9, 19), (10, 19)]);
    assert_eq!(cells(&tetris, Tile(TileColor::Empty, true)).len(), 397);
    assert_eq!((tetris.active_piece().x, tetris.active_piece().y), (8, 18));
}

#[test]
fn a_turn_off_the_field_fails_half_way() {
    let mut tetris = open_game(8, 17, PieceEnum::I);
    assert_eq!(tetris.rotate_piece(), Err(TileError::OutOfBounds));
    assert_eq!(tetris.active_piece().state, 0);
    assert_eq!(cells(&tetris, Tile(TileColor::Cyan, true)), vec![(9, 17), (9, 18), (9, 19)]);
}

#[test]
fn update_score_adds_one() {
    let mut tetris = game(8, 0, PieceEnum::O);
    let before = snapshot(&tetris);
    tetris.update_score();
    tetris.update_score();
    assert_eq!(tetris.score(), 2);
    assert_eq!(snapshot(&tetris), before);
}

#[test]
fn score_never_falls() {
    let mut tetris = game(8, 0, PieceEnum::O);
    tetris.update_score();
    let mut last = tetris.score();
    for step in 0..60 {
        match step % 4 {
            0 => assert!(tetris.move_piece(1, 0).is_ok()),
            1 => assert!(tetris.rotate_piece().is_ok()),
            2 => assert!(tetris.move_piece(-1, 0).is_ok()),
            _ => {
                if tetris.update_screen() == Ok(true) {
                    assert_eq!(tetris.disable_piece(), Ok(()));
                    assert_eq!(tetris.set_piece(8, 0, PieceEnum::L), Ok((8, 0)));
                }
            }
        }
        assert!(tetris.score() >= last);
        last = tetris.score();
    }
    assert_eq!(last, 1);
}

#[test]
fn a_wide_step_moves_the_piece_as_far() {
    let mut tetris = game(8, 0, PieceEnum::I);
    assert_eq!(tetris.move_piece(2, 0), Ok(false));
    assert_eq!(cells(&tetris, Tile(TileColor::Cyan, true)), vec![(10, 1), (11, 1), (12, 1), (13, 1)]);
    assert_eq!((tetris.active_piece().x, tetris.active_piece().y), (10, 0));
}

#[test]
fn a_step_upwards_runs_over_the_cells_above() {
    let mut tetris = game(8, 5, PieceEnum::T);
    assert_eq!(tetris.move_piece(0, -1), Ok(false));
    assert_eq!(cells(&tetris, Tile(TileColor::Purple, true)), vec![(8, 4), (9, 4), (10, 4)]);
    assert_eq!((tetris.active_piece().x, tetris.active_piece().y), (8, 4));
}

#[test]
fn a_diagonal_step_moves_the_piece_as_a_whole() {
    let mut tetris = game(8, 5, PieceEnum::T);
    assert_eq!(tetris.move_piece(1, 1), Ok(false));
    assert_eq!(cells(&tetris, Tile(TileColor::Purple, true)), vec![(9, 7), (10, 6), (10, 7), (11, 7)]);
    assert_eq!((tetris.active_piece().x, tetris.active_piece().y), (9, 6));
}

#[test]
fn the_game_builds_its_walls_and_shows_its_field() {
    let mut tetris = open_game(8, 0, PieceEnum::O);
    tetris.build_walls();
    assert_eq!(tetris.canvas().get_tile_override(1, 7), Tile(TileColor::Gray, true));
    assert_eq!(tetris.canvas().get_tile_override(18, 0), Tile(TileColor::Gray, true));
    assert_eq!(tetris.canvas().get_tile_override(9, 19), Tile(TileColor::Gray, false));
    assert_eq!(tetris.canvas().get_tile_override(9, 1), Tile(TileColor::Yellow, true));
    assert_eq!(tetris.canvas().get_tile_override(9, 2), Tile(TileColor::Empty, true));
    assert_eq!(snapshot(&tetris), snapshot(&game(8, 0, PieceEnum::O)));
}
