use tetrust::{Piece, PieceEnum, Pieces, TileColor};

const KINDS: [PieceEnum; 7] = [
    PieceEnum::O,
    PieceEnum::S,
    PieceEnum::Z,
    PieceEnum::T,
    PieceEnum::L,
    PieceEnum::J,
    PieceEnum::I,
];

fn cells_of(piece: &Piece) -> Vec<(u8, u8)> {
    let mut cells = Vec::new();
    for (r, row) in piece.0.iter().enumerate() {
        for c in row {
            cells.push((r as u8, *c));
        }
    }
    cells.sort();
    cells
}

fn turn(cells: &[(u8, u8)], state: u8, kind: &PieceEnum) -> Vec<(u8, u8)> {
    let (erase, draw) = PieceEnum::rot(state, kind);
    let mut next: Vec<(u8, u8)> = cells.iter().copied().filter(|c| !erase.contains(c)).collect();
    for d in draw {
        assert!(!cells.contains(&d), "a turn fills a cell that the piece already fills");
        next.push(d);
    }
    for e in erase {
        assert!(cells.contains(&e), "a turn vacates a cell that the piece does not fill");
    }
    next.sort();
    next
}

#[test]
fn margins_of_the_square() {
    for state in 0..=255u8 {
        assert_eq!(PieceEnum::buf(state, &PieceEnum::O), (0, 2));
    }
}

#[test]
fn margins_of_the_two_state_kinds() {
    assert_eq!(PieceEnum::buf(0, &PieceEnum::I), (0, 0));
    assert_eq!(PieceEnum::buf(1, &PieceEnum::I), (1, 2));
    assert_eq!(PieceEnum::buf(2, &PieceEnum::I), (0, 0));
    assert_eq!(PieceEnum::buf(3, &PieceEnum::I), (1, 2));
    assert_eq!(PieceEnum::buf(0, &PieceEnum::S), (0, 1));
    assert_eq!(PieceEnum::buf(1, &PieceEnum::S), (0, 2));
    assert_eq!(PieceEnum::buf(2, &PieceEnum::S), (0, 1));
    assert_eq!(PieceEnum::buf(3, &PieceEnum::S), (0, 2));
    assert_eq!(PieceEnum::buf(0, &PieceEnum::Z), (0, 1));
    assert_eq!(PieceEnum::buf(1, &PieceEnum::Z), (1, 1));
    assert_eq!(PieceEnum::buf(2, &PieceEnum::Z), (0, 1));
    assert_eq!(PieceEnum::buf(3, &PieceEnum::Z), (1, 1));
}

#[test]
fn margins_of_the_four_state_kinds() {
    for kind in [PieceEnum::T, PieceEnum::L, PieceEnum::J] {
        assert_eq!(PieceEnum::buf(0, &kind), (0, 1));
        assert_eq!(PieceEnum::buf(1, &kind), (1, 1));
        assert_eq!(PieceEnum::buf(2, &kind), (0, 1));
        assert_eq!(PieceEnum::buf(3, &kind), (0, 2));
        assert_eq!(PieceEnum::buf(4, &kind), (0, 1));
        assert_eq!(PieceEnum::buf(200, &kind), (0, 1));
    }
}

#[test]
fn the_square_does_not_turn() {
    for state in 0..4u8 {
        let (erase, draw) = PieceEnum::rot(state, &PieceEnum::O);
        assert!(erase.is_empty());
        assert!(draw.is_empty());
    }
}

#[test]
fn turn_table_of_the_long_piece() {
    let (erase, draw) = PieceEnum::rot(0, &PieceEnum::I);
    assert_eq!(erase, vec![(1, 0), (1, 2), (1, 3)]);
    assert_eq!(draw, vec![(0, 1), (2, 1), (3, 1)]);
    let (erase, draw) = PieceEnum::rot(1, &PieceEnum::I);
    assert_eq!(erase, vec![(0, 1), (2, 1), (3, 1)]);
    assert_eq!(draw, vec![(1, 0), (1, 2), (1, 3)]);
    assert_eq!(PieceEnum::rot(2, &PieceEnum::I), PieceEnum::rot(0, &PieceEnum::I));
    assert_eq!(PieceEnum::rot(3, &PieceEnum::I), PieceEnum::rot(1, &PieceEnum::I));
}

#[test]
fn turn_table_of_s_and_z() {
    assert_eq!(PieceEnum::rot(0, &PieceEnum::S), (vec![(0, 1), (0, 2)], vec![(0, 0), (2, 1)]));
    assert_eq!(PieceEnum::rot(1, &PieceEnum::S), (vec![(0, 0), (2, 1)], vec![(0, 1), (0, 2)]));
    assert_eq!(PieceEnum::rot(2, &PieceEnum::S), (vec![(0, 1), (0, 2)], vec![(0, 0), (2, 1)]));
    assert_eq!(PieceEnum::rot(0, &PieceEnum::Z), (vec![(0, 0), (0, 1)], vec![(0, 2), (2, 1)]));
    assert_eq!(PieceEnum::rot(1, &PieceEnum::Z), (vec![(0, 2), (2, 1)], vec![(0, 0), (0, 1)]));
    assert_eq!(PieceEnum::rot(3, &PieceEnum::Z), (vec![(0, 2), (2, 1)], vec![(0, 0), (0, 1)]));
}

#[test]
fn turn_table_of_t() {
    assert_eq!(PieceEnum::rot(0, &PieceEnum::T), (vec![(1, 0)], vec![(2, 1)]));
    assert_eq!(PieceEnum::rot(1, &PieceEnum::T), (vec![(0, 1)], vec![(1, 0)]));
    assert_eq!(PieceEnum::rot(2, &PieceEnum::T), (vec![(1, 2)], vec![(0, 1)]));
    assert_eq!(PieceEnum::rot(3, &PieceEnum::T), (vec![(2, 1)], vec![(1, 2)]));
    assert_eq!(PieceEnum::rot(4, &PieceEnum::T), (vec![(0, 0)], vec![(2, 1)]));
}

#[test]
fn turn_table_of_l() {
    assert_eq!(
        PieceEnum::rot(0, &PieceEnum::L),
        (vec![(1, 0), (0, 2), (1, 2)], vec![(0, 1), (2, 1), (2, 2)])
    );
    assert_eq!(
        PieceEnum::rot(1, &PieceEnum::L),
        (vec![(0, 1), (2, 1), (2, 2)], vec![(1, 0), (2, 0), (1, 2)])
    );
    assert_eq!(
        PieceEnum::rot(2, &PieceEnum::L),
        (vec![(1, 0), (2, 0), (1, 2)], vec![(0, 0), (0, 1), (2, 1)])
    );
    assert_eq!(
        PieceEnum::rot(3, &PieceEnum::L),
        (vec![(0, 0), (0, 1), (2, 1)], vec![(1, 0), (0, 2), (1, 2)])
    );
    assert_eq!(PieceEnum::rot(9, &PieceEnum::L), PieceEnum::rot(0, &PieceEnum::L));
}

#[test]
fn turn_table_of_j() {
    assert_eq!(
        PieceEnum::rot(0, &PieceEnum::J),
        (vec![(0, 0), (1, 0), (1, 2)], vec![(0, 1), (0, 2), (2, 1)])
    );
    assert_eq!(
        PieceEnum::rot(1, &PieceEnum::J),
        (vec![(0, 1), (0, 2), (2, 1)], vec![(1, 0), (1, 2), (2, 2)])
    );
    assert_eq!(
        PieceEnum::rot(2, &PieceEnum::J),
        (vec![(1, 0), (1, 2), (2, 2)], vec![(0, 1), (2, 0), (2, 1)])
    );
    assert_eq!(
        PieceEnum::rot(3, &PieceEnum::J),
        (vec![(0, 1), (2, 0), (2, 1)], vec![(0, 0), (1, 0), (1, 2)])
    );
    assert_eq!(PieceEnum::rot(7, &PieceEnum::J), PieceEnum::rot(0, &PieceEnum::J));
}

#[test]
fn catalogue_shapes_and_colours() {
    let pieces = Pieces::new();
    assert_eq!(pieces.o.0, vec![vec![0, 1], vec![0, 1], vec![]]);
    assert_eq!(pieces.o.1, TileColor::Yellow);
    assert_eq!(pieces.s.0, vec![vec![1, 2], vec![0, 1], vec![]]);
    assert_eq!(pieces.s.1, TileColor::Green);
    assert_eq!(pieces.z.0, vec![vec![0, 1], vec![1, 2], vec![]]);
    assert_eq!(pieces.z.1, TileColor::Red);
    assert_eq!(pieces.t.0, vec![vec![1], vec![0, 1, 2], vec![]]);
    assert_eq!(pieces.t.1, TileColor::Purple);
    assert_eq!(pieces.l.0, vec![vec![2], vec![0, 1, 2], vec![]]);
    assert_eq!(pieces.l.1, TileColor::Orange);
    assert_eq!(pieces.j.0, vec![vec![0], vec![0, 1, 2], vec![]]);
    assert_eq!(pieces.j.1, TileColor::Blue);
    assert_eq!(pieces.i.0, vec![vec![], vec![0, 1, 2, 3], vec![]]);
    assert_eq!(pieces.i.1, TileColor::Cyan);
}

#[test]
fn index_finds_the_entry_of_each_kind() {
    let pieces = Pieces::new();
    assert_eq!(pieces.index(PieceEnum::O).1, TileColor::Yellow);
    assert_eq!(pieces.index(PieceEnum::S).1, TileColor::Green);
    assert_eq!(pieces.index(PieceEnum::Z).1, TileColor::Red);
    assert_eq!(pieces.index(PieceEnum::T).1, TileColor::Purple);
    assert_eq!(pieces.index(PieceEnum::L).1, TileColor::Orange);
    assert_eq!(pieces.index(PieceEnum::J).1, TileColor::Blue);
    assert_eq!(pieces.index(PieceEnum::I).1, TileColor::Cyan);
    assert_eq!(pieces.index(PieceEnum::I).0, pieces.i.0);
}

#[test]
fn four_turns_bring_every_kind_back() {
    let pieces = Pieces::new();
    for kind in KINDS {
        let start = cells_of(pieces.index(kind));
        assert_eq!(start.len(), 4);
        let mut cells = start.clone();
        for state in 0..4u8 {
            cells = turn(&cells, state, &kind);
            assert_eq!(cells.len(), 4);
        }
        assert_eq!(cells, start);
    }
}

#[test]
fn every_orientation_lies_between_its_margins() {
    let pieces = Pieces::new();
    for kind in KINDS {
        let mut cells = cells_of(pieces.index(kind));
        for state in 0..4u8 {
            let (left, right) = PieceEnum::buf(state, &kind);
            let lowest = cells.iter().map(|c| c.1 as u16).min().unwrap();
            let highest = cells.iter().map(|c| c.1 as u16).max().unwrap();
            assert_eq!(lowest, left);
            assert_eq!(highest, 3 - right);
            assert!(cells.iter().all(|c| c.0 < 4));
            cells = turn(&cells, state, &kind);
        }
    }
}

#[test]
fn t_after_one_turn_points_right() {
    let pieces = Pieces::new();
    let start = cells_of(&pieces.t);
    assert_eq!(start, vec![(0, 1), (1, 0), (1, 1), (1, 2)]);
    assert_eq!(turn(&start, 0, &PieceEnum::T), vec![(0, 1), (1, 1), (1, 2), (2, 1)]);
}

#[test]
fn from_index_names_each_kind() {
    assert_eq!(PieceEnum::from_index(0), PieceEnum::O);
    assert_eq!(PieceEnum::from_index(1), PieceEnum::S);
    assert_eq!(PieceEnum::from_index(2), PieceEnum::Z);
    assert_eq!(PieceEnum::from_index(3), PieceEnum::T);
    assert_eq!(PieceEnum::from_index(4), PieceEnum::L);
    assert_eq!(PieceEnum::from_index(5), PieceEnum::J);
    assert_eq!(PieceEnum::from_index(6), PieceEnum::I);
    assert_eq!(PieceEnum::from_index(7), PieceEnum::I);
    assert_eq!(PieceEnum::from_index(255), PieceEnum::I);
}

#[test]
fn asset_paths() {
    assert_eq!(TileColor::get_asset_path(&TileColor::Empty), "assets/empty.bmp");
    assert_eq!(TileColor::get_asset_path(&TileColor::Red), "assets/red.bmp");
    assert_eq!(TileColor::get_asset_path(&TileColor::Green), "assets/green.bmp");
    assert_eq!(TileColor::get_asset_path(&TileColor::Blue), "assets/blue.bmp");
    assert_eq!(TileColor::get_asset_path(&TileColor::Purple), "assets/purple.bmp");
    assert_eq!(TileColor::get_asset_path(&TileColor::Cyan), "assets/cyan.bmp");
    assert_eq!(TileColor::get_asset_path(&TileColor::Yellow), "assets/yellow.bmp");
    assert_eq!(TileColor::get_asset_path(&TileColor::Orange), "assets/orange.bmp");
    assert_eq!(TileColor::get_asset_path(&TileColor::Gray), "assets/gray.bmp");
}
