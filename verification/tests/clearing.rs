use tetrust::clearing::{compact_row, row_is_full, settle_box};
use tetrust::{Tile, TileCanvas, TileColor, TileError};

fn put(canvas: &mut TileCanvas, x: u16, y: u16, color: TileColor, active: bool) {
    canvas.set_tile_override(x, y, color).unwrap();
    canvas.set_tile_state(x, y, active);
}

fn snapshot(canvas: &TileCanvas) -> Vec<Tile> {
    let mut all = Vec::new();
    for x in 0..20u16 {
        for y in 0..20u16 {
            all.push(canvas.get_tile_override(x, y));
        }
    }
    all
}

#[test]
fn a_row_is_full_when_every_cell_between_the_walls_is_occupied() {
    let mut canvas = TileCanvas::new();
    assert!(!row_is_full(&canvas, 7));
    for x in 2..17u16 {
        put(&mut canvas, x, 7, TileColor::Red, x % 2 == 0);
    }
    assert!(!row_is_full(&canvas, 7));
    put(&mut canvas, 17, 7, TileColor::Blue, false);
    assert!(row_is_full(&canvas, 7));
    assert!(row_is_full(&canvas, 27));
    assert!(!row_is_full(&canvas, 6));
    put(&mut canvas, 9, 7, TileColor::Gray, true);
    assert!(!row_is_full(&canvas, 7));
}

#[test]
fn the_floor_row_counts_as_full() {
    let mut canvas = TileCanvas::new();
    canvas.build_walls();
    assert!(row_is_full(&canvas, 19));
    assert!(!row_is_full(&canvas, 18));
}

#[test]
fn compact_row_drops_the_stack_by_one() {
    let mut canvas = TileCanvas::new();
    put(&mut canvas, 5, 15, TileColor::Red, false);
    put(&mut canvas, 5, 16, TileColor::Green, true);
    put(&mut canvas, 5, 17, TileColor::Blue, false);
    put(&mut canvas, 5, 18, TileColor::Purple, false);
    assert_eq!(compact_row(&mut canvas, 17), Ok(()));
    assert_eq!(canvas.get_tile_override(5, 14), Tile(TileColor::Empty, true));
    assert_eq!(canvas.get_tile_override(5, 15), Tile(TileColor::Empty, true));
    assert_eq!(canvas.get_tile_override(5, 16), Tile(TileColor::Red, true));
    assert_eq!(canvas.get_tile_override(5, 17), Tile(TileColor::Green, false));
    assert_eq!(canvas.get_tile_override(5, 18), Tile(TileColor::Purple, false));
    for x in 0..20u16 {
        for y in 0..20u16 {
            if x != 5 {
                assert_eq!(canvas.get_tile_override(x, y), Tile(TileColor::Empty, true));
            }
        }
    }
}

#[test]
fn compact_row_drops_what_floats_above_the_gap() {
    let mut canvas = TileCanvas::new();
    put(&mut canvas, 2, 3, TileColor::Red, true);
    put(&mut canvas, 2, 10, TileColor::Blue, false);
    assert_eq!(compact_row(&mut canvas, 10), Ok(()));
    assert_eq!(canvas.get_tile_override(2, 3), Tile(TileColor::Empty, true));
    assert_eq!(canvas.get_tile_override(2, 4), Tile(TileColor::Red, true));
    assert_eq!(canvas.get_tile_override(2, 10), Tile(TileColor::Empty, true));
    assert_eq!(canvas.get_tile_override(2, 9), Tile(TileColor::Empty, true));
}

#[test]
fn compact_row_keeps_the_colour_of_the_top_row() {
    let mut canvas = TileCanvas::new();
    put(&mut canvas, 7, 0, TileColor::Cyan, true);
    assert_eq!(compact_row(&mut canvas, 10), Ok(()));
    assert_eq!(canvas.get_tile_override(7, 0), Tile(TileColor::Cyan, true));
    assert_eq!(canvas.get_tile_override(7, 1), Tile(TileColor::Cyan, true));
    assert_eq!(canvas.get_tile_override(7, 2), Tile(TileColor::Empty, true));
}

#[test]
fn compact_row_leaves_the_walls_and_the_rows_below() {
    let mut canvas = TileCanvas::new();
    canvas.build_walls();
    for x in 2..18u16 {
        put(&mut canvas, x, 18, TileColor::Red, false);
        put(&mut canvas, x, 12, TileColor::Blue, false);
    }
    put(&mut canvas, 0, 11, TileColor::Green, true);
    put(&mut canvas, 19, 11, TileColor::Green, true);
    let before = snapshot(&canvas);
    assert_eq!(compact_row(&mut canvas, 12), Ok(()));
    let after = snapshot(&canvas);
    for x in 0..20usize {
        for y in 0..20usize {
            let expected = if (2..18).contains(&x) && y == 12 {
                Tile(TileColor::Empty, true)
            } else {
                before[x * 20 + y]
            };
            assert_eq!(after[x * 20 + y], expected, "cell ({x}, {y})");
        }
    }
}

#[test]
fn compact_row_fails_at_a_column_without_a_gap() {
    let mut canvas = TileCanvas::new();
    put(&mut canvas, 2, 1, TileColor::Yellow, true);
    put(&mut canvas, 3, 0, TileColor::Red, true);
    put(&mut canvas, 3, 1, TileColor::Green, true);
    put(&mut canvas, 3, 2, TileColor::Blue, false);
    put(&mut canvas, 4, 0, TileColor::Cyan, true);
    assert_eq!(compact_row(&mut canvas, 2), Err(TileError::OutOfBounds));
    assert_eq!(canvas.get_tile_override(2, 1), Tile(TileColor::Empty, true));
    assert_eq!(canvas.get_tile_override(2, 2), Tile(TileColor::Yellow, true));
    assert_eq!(canvas.get_tile_override(3, 0), Tile(TileColor::Red, true));
    assert_eq!(canvas.get_tile_override(3, 1), Tile(TileColor::Red, true));
    assert_eq!(canvas.get_tile_override(3, 2), Tile(TileColor::Green, false));
    assert_eq!(canvas.get_tile_override(4, 0), Tile(TileColor::Cyan, true));
    assert_eq!(canvas.get_tile_override(4, 1), Tile(TileColor::Empty, true));
}

#[test]
fn compact_row_refuses_rows_below_the_field() {
    let mut canvas = TileCanvas::new();
    put(&mut canvas, 3, 0, TileColor::Red, true);
    let before = snapshot(&canvas);
    assert_eq!(compact_row(&mut canvas, 20), Err(TileError::OutOfBounds));
    assert_eq!(compact_row(&mut canvas, 4_000_000_000), Err(TileError::OutOfBounds));
    assert_eq!(snapshot(&canvas), before);
}

#[test]
fn settle_box_settles_what_a_piece_meets_around_the_corner() {
    let mut canvas = TileCanvas::new();
    put(&mut canvas, 18, 18, TileColor::Red, true);
    put(&mut canvas, 0, 19, TileColor::Blue, true);
    put(&mut canvas, 2, 0, TileColor::Green, true);
    put(&mut canvas, 1, 1, TileColor::Gray, true);
    put(&mut canvas, 19, 18, TileColor::Gray, true);
    put(&mut canvas, 5, 5, TileColor::Cyan, true);
    put(&mut canvas, 3, 18, TileColor::Cyan, true);
    settle_box(&mut canvas, 18, 18);
    assert_eq!(canvas.get_tile_override(18, 18), Tile(TileColor::Red, false));
    assert_eq!(canvas.get_tile_override(0, 19), Tile(TileColor::Blue, false));
    assert_eq!(canvas.get_tile_override(2, 0), Tile(TileColor::Green, false));
    assert_eq!(canvas.get_tile_override(1, 1), Tile(TileColor::Gray, false));
    assert_eq!(canvas.get_tile_override(19, 18), Tile(TileColor::Gray, true));
    assert_eq!(canvas.get_tile_override(5, 5), Tile(TileColor::Cyan, true));
    assert_eq!(canvas.get_tile_override(3, 18), Tile(TileColor::Cyan, true));
    assert_eq!(canvas.get_tile_override(19, 19), Tile(TileColor::Empty, true));
}

#[test]
fn settle_box_reaches_five_columns_and_five_rows() {
    let mut canvas = TileCanvas::new();
    for x in 3..10u16 {
        for y in 3..10u16 {
            put(&mut canvas, x, y, TileColor::Orange, true);
        }
    }
    settle_box(&mut canvas, 4, 4);
    for x in 3..10u16 {
        for y in 3..10u16 {
            let inside = (4..9).contains(&x) && (4..9).contains(&y);
            assert_eq!(canvas.get_tile_override(x, y), Tile(TileColor::Orange, !inside));
        }
    }
}
