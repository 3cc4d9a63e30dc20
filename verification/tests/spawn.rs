use tetrust::{
    random_column, random_piece, respawn, tetris_collision, PieceEnum, Pieces, Tetris, TetrisPiece,
    Tile, TileColor, TileError,
};

fn landed_square() -> Tetris {
    let piece = TetrisPiece { x: 8, y: 0, piece: PieceEnum::O, buf: (0, 2), state: 0 };
    let mut tetris = Tetris::new(piece, Pieces::new());
    tetris.tile_canvas.build_walls();
    for _ in 0..16 {
        assert_eq!(tetris.update_screen(), Ok(false));
    }
    assert_eq!(tetris.update_screen(), Ok(true));
    tetris
}

fn count(tetris: &Tetris, wanted: Tile) -> usize {
    let mut n = 0;
    for x in 0..20u16 {
        for y in 0..20u16 {
            if tetris.tile_canvas.get_tile_override(x, y) == wanted {
                n += 1;
            }
        }
    }
    n
}

#[test]
fn random_piece_draws_every_kind() {
    let mut seen = [false; 7];
    for _ in 0..5000 {
        let at = match random_piece() {
            PieceEnum::O => 0,
            PieceEnum::S => 1,
            PieceEnum::Z => 2,
            PieceEnum::T => 3,
            PieceEnum::L => 4,
            PieceEnum::J => 5,
            PieceEnum::I => 6,
        };
        seen[at] = true;
    }
    assert_eq!(seen, [true; 7]);
}

#[test]
fn random_column_keeps_every_shape_between_the_walls() {
    let mut seen = [false; 20];
    for _ in 0..5000 {
        let x = random_column();
        assert!((2..15).contains(&x));
        seen[x as usize] = true;
    }
    for x in 2..15 {
        assert!(seen[x]);
    }
}

#[test]
fn respawn_settles_the_old_piece_and_draws_the_new() {
    let mut tetris = landed_square();
    assert_eq!(respawn(&mut tetris, 5, PieceEnum::T), Ok(()));
    assert_eq!(count(&tetris, Tile(TileColor::Yellow, false)), 4);
    assert_eq!(count(&tetris, Tile(TileColor::Yellow, true)), 0);
    assert_eq!(tetris.tile_canvas.get_tile_override(8, 17), Tile(TileColor::Yellow, false));
    assert_eq!(tetris.tile_canvas.get_tile_override(9, 18), Tile(TileColor::Yellow, false));
    for at in [(6, 0), (5, 1), (6, 1), (7, 1)] {
        assert_eq!(tetris.tile_canvas.get_tile_override(at.0, at.1), Tile(TileColor::Purple, true));
    }
    assert_eq!(count(&tetris, Tile(TileColor::Purple, true)), 4);
    let p = tetris.active_piece();
    assert_eq!((p.x, p.y, p.piece, p.state, p.buf), (5, 0, PieceEnum::T, 0, (0, 1)));
    assert_eq!(tetris.score(), 0);
}

#[test]
fn respawn_stops_where_clearing_fails() {
    let piece = TetrisPiece { x: 8, y: 0, piece: PieceEnum::O, buf: (0, 2), state: 0 };
    let mut tetris = Tetris::new(piece, Pieces::new());
    for x in 2..18u16 {
        tetris.tile_canvas.set_tile_override(x, 0, TileColor::Red).unwrap();
    }
    assert_eq!(respawn(&mut tetris, 5, PieceEnum::T), Err(TileError::OutOfBounds));
    assert_eq!(tetris.active_piece().piece, PieceEnum::O);
    assert_eq!(count(&tetris, Tile(TileColor::Purple, true)), 0);
}

#[test]
fn tetris_collision_brings_a_new_piece_to_the_top() {
    let mut tetris = landed_square();
    assert_eq!(tetris_collision(&mut tetris, 11), Ok(()));
    let p = tetris.active_piece();
    assert_eq!((p.x, p.y, p.state), (11, 0, 0));
    assert_eq!(p.buf, PieceEnum::buf(0, &p.piece));
    let color = Pieces::new().index(p.piece).1;
    if p.piece == PieceEnum::O {
        assert_eq!(count(&tetris, Tile(color, true)), 4);
        assert_eq!(count(&tetris, Tile(color, false)), 4);
    } else {
        assert_eq!(count(&tetris, Tile(color, true)), 4);
        assert_eq!(count(&tetris, Tile(TileColor::Yellow, false)), 4);
    }
}
