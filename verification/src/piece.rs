//! The seven kinds of piece: their colours, their shapes in the first
//! orientation, and the two tables that turn a piece by a quarter.

use vstd::prelude::*;
use crate::tile::TileColor;

verus! {

/// The kinds of piece.
#[derive(Clone, Copy, Debug, PartialEq, Eq, Structural)]
pub enum PieceEnum {
    O,
    S,
    Z,
    T,
    L,
    J,
    I,
}

/// A shape and its colour. Row `r` of the shape lists the columns that the
/// piece fills in row `r` of its box.
pub struct Piece(pub Vec<Vec<u8>>, pub TileColor);

/// The shapes of all seven kinds in their first orientation.
pub struct Pieces {
    pub o: Piece,
    pub s: Piece,
    pub z: Piece,
    pub t: Piece,
    pub l: Piece,
    pub j: Piece,
    pub i: Piece,
}

impl PieceEnum {
    /// The colour of a piece of this kind.
    pub open spec fn color(self) -> TileColor {
        match self {
            PieceEnum::O => TileColor::Yellow,
            PieceEnum::S => TileColor::Green,
            PieceEnum::Z => TileColor::Red,
            PieceEnum::T => TileColor::Purple,
            PieceEnum::L => TileColor::Orange,
            PieceEnum::J => TileColor::Blue,
            PieceEnum::I => TileColor::Cyan,
        }
    }

    /// The shape in the first orientation, row by row.
    pub open spec fn base_rows(self) -> Seq<Seq<u8>> {
        match self {
            PieceEnum::O => seq![seq![0u8, 1u8], seq![0u8, 1u8], seq![]],
            PieceEnum::S => seq![seq![1u8, 2u8], seq![0u8, 1u8], seq![]],
            PieceEnum::Z => seq![seq![0u8, 1u8], seq![1u8, 2u8], seq![]],
            PieceEnum::T => seq![seq![1u8], seq![0u8, 1u8, 2u8], seq![]],
            PieceEnum::L => seq![seq![2u8], seq![0u8, 1u8, 2u8], seq![]],
            PieceEnum::J => seq![seq![0u8], seq![0u8, 1u8, 2u8], seq![]],
            PieceEnum::I => seq![seq![], seq![0u8, 1u8, 2u8, 3u8], seq![]],
        }
    }

    /// The columns of the four-wide box that stay free on the left and on the
    /// right of a piece of this kind in orientation `state`.
    pub open spec fn margins(self, state: u8) -> (u16, u16) {
        match self {
            PieceEnum::O => (0, 2),
            PieceEnum::I => if state % 2 == 0 { (0, 0) } else { (1, 2) },
            PieceEnum::S => if state % 2 == 0 { (0, 1) } else { (0, 2) },
            PieceEnum::Z => if state % 2 == 0 { (0, 1) } else { (1, 1) },
            _ => if state == 1 { (1, 1) } else if state == 3 { (0, 2) } else { (0, 1) },
        }
    }

    /// The cells, as (row, column) in the piece's box, that a quarter turn
    /// out of orientation `state` vacates.
    pub open spec fn erase_offsets(self, state: u8) -> Seq<(u8, u8)> {
        match self {
            PieceEnum::O => seq![],
            PieceEnum::I => if state % 2 == 0 {
                seq![(1u8, 0u8), (1u8, 2u8), (1u8, 3u8)]
            } else {
                seq![(0u8, 1u8), (2u8, 1u8), (3u8, 1u8)]
            },
            PieceEnum::S => if state % 2 == 0 {
                seq![(0u8, 1u8), (0u8, 2u8)]
            } else {
                seq![(0u8, 0u8), (2u8, 1u8)]
            },
            PieceEnum::Z => if state % 2 == 0 {
                seq![(0u8, 0u8), (0u8, 1u8)]
            } else {
                seq![(0u8, 2u8), (2u8, 1u8)]
            },
            PieceEnum::T => if state == 0 {
                seq![(1u8, 0u8)]
            } else if state == 1 {
                seq![(0u8, 1u8)]
            } else if state == 2 {
                seq![(1u8, 2u8)]
            } else if state == 3 {
                seq![(2u8, 1u8)]
            } else {
                seq![(0u8, 0u8)]
            },
            PieceEnum::L => if state == 1 {
                seq![(0u8, 1u8), (2u8, 1u8), (2u8, 2u8)]
            } else if state == 2 {
                seq![(1u8, 0u8), (2u8, 0u8), (1u8, 2u8)]
            } else if state == 3 {
                seq![(0u8, 0u8), (0u8, 1u8), (2u8, 1u8)]
            } else {
                seq![(1u8, 0u8), (0u8, 2u8), (1u8, 2u8)]
            },
            PieceEnum::J => if state == 1 {
                seq![(0u8, 1u8), (0u8, 2u8), (2u8, 1u8)]
            } else if state == 2 {
                seq![(1u8, 0u8), (1u8, 2u8), (2u8, 2u8)]
            } else if state == 3 {
                seq![(0u8, 1u8), (2u8, 0u8), (2u8, 1u8)]
            } else {
                seq![(0u8, 0u8), (1u8, 0u8), (1u8, 2u8)]
            },
        }
    }

    /// The cells, as (row, column) in the piece's box, that a quarter turn
    /// out of orientation `state` newly fills.
    pub open spec fn draw_offsets(self, state: u8) -> Seq<(u8, u8)> {
        match self {
            PieceEnum::O => seq![],
            PieceEnum::I => if state % 2 == 0 {
                seq![(0u8, 1u8), (2u8, 1u8), (3u8, 1u8)]
            } else {
                seq![(1u8, 0u8), (1u8, 2u8), (1u8, 3u8)]
            },
            PieceEnum::S => if state % 2 == 0 {
                seq![(0u8, 0u8), (2u8, 1u8)]
            } else {
                seq![(0u8, 1u8), (0u8, 2u8)]
            },
            PieceEnum::Z => if state % 2 == 0 {
                seq![(0u8, 2u8), (2u8, 1u8)]
            } else {
                seq![(0u8, 0u8), (0u8, 1u8)]
            },
            PieceEnum::T => if state == 0 {
                seq![(2u8, 1u8)]
            } else if state == 1 {
                seq![(1u8, 0u8)]
            } else if state == 2 {
                seq![(0u8, 1u8)]
            } else if state == 3 {
                seq![(1u8, 2u8)]
            } else {
                seq![(2u8, 1u8)]
            },
            PieceEnum::L => if state == 1 {
                seq![(1u8, 0u8), (2u8, 0u8), (1u8, 2u8)]
            } else if state == 2 {
                seq![(0u8, 0u8), (0u8, 1u8), (2u8, 1u8)]
            } else if state == 3 {
                seq![(1u8, 0u8), (0u8, 2u8), (1u8, 2u8)]
            } else {
                seq![(0u8, 1u8), (2u8, 1u8), (2u8, 2u8)]
            },
            PieceEnum::J => if state == 1 {
                seq![(1u8, 0u8), (1u8, 2u8), (2u8, 2u8)]
            } else if state == 2 {
                seq![(0u8, 1u8), (2u8, 0u8), (2u8, 1u8)]
            } else if state == 3 {
                seq![(0u8, 0u8), (1u8, 0u8), (1u8, 2u8)]
            } else {
                seq![(0u8, 1u8), (0u8, 2u8), (2u8, 1u8)]
            },
        }
    }
}

impl PieceEnum {
    /// Left and right margins of the piece's box in orientation `state`.
    pub fn buf(state: u8, piece: &PieceEnum) -> (margins: (u16, u16))
        ensures
            margins == piece.margins(state),
    {
        match piece {
            PieceEnum::O => (0, 2),
            PieceEnum::I => if state % 2 == 0 { (0, 0) } else { (1, 2) },
            PieceEnum::S => if state % 2 == 0 { (0, 1) } else { (0, 2) },
            PieceEnum::Z => if state % 2 == 0 { (0, 1) } else { (1, 1) },
            _ => if state == 1 { (1, 1) } else if state == 3 { (0, 2) } else { (0, 1) },
        }
    }

    /// The quarter turn out of orientation `state`: first the cells to
    /// vacate, then the cells to fill, as (row, column) in the piece's box.
    pub fn rot(state: u8, piece: &PieceEnum) -> (delta: (Vec<(u8, u8)>, Vec<(u8, u8)>))
        ensures
            delta.0@ == piece.erase_offsets(state),
            delta.1@ == piece.draw_offsets(state),
    {
        match piece {
            PieceEnum::O => (Vec::new(), Vec::new()),
            PieceEnum::I => if state % 2 == 0 {
                (vec![(1, 0), (1, 2), (1, 3)], vec![(0, 1), (2, 1), (3, 1)])
            } else {
                (vec![(0, 1), (2, 1), (3, 1)], vec![(1, 0), (1, 2), (1, 3)])
            },
            PieceEnum::S => if state % 2 == 0 {
                (vec![(0, 1), (0, 2)], vec![(0, 0), (2, 1)])
            } else {
                (vec![(0, 0), (2, 1)], vec![(0, 1), (0, 2)])
            },
            PieceEnum::Z => if state % 2 == 0 {
                (vec![(0, 0), (0, 1)], vec![(0, 2), (2, 1)])
            } else {
                (vec![(0, 2), (2, 1)], vec![(0, 0), (0, 1)])
            },
            PieceEnum::T => if state == 0 {
                (vec![(1, 0)], vec![(2, 1)])
            } else if state == 1 {
                (vec![(0, 1)], vec![(1, 0)])
            } else if state == 2 {
                (vec![(1, 2)], vec![(0, 1)])
            } else if state == 3 {
                (vec![(2, 1)], vec![(1, 2)])
            } else {
                (vec![(0, 0)], vec![(2, 1)])
            },
            PieceEnum::L => if state == 1 {
                (vec![(0, 1), (2, 1), (2, 2)], vec![(1, 0), (2, 0), (1, 2)])
            } else if state == 2 {
                (vec![(1, 0), (2, 0), (1, 2)], vec![(0, 0), (0, 1), (2, 1)])
            } else if state == 3 {
                (vec![(0, 0), (0, 1), (2, 1)], vec![(1, 0), (0, 2), (1, 2)])
            } else {
                (vec![(1, 0), (0, 2), (1, 2)], vec![(0, 1), (2, 1), (2, 2)])
            },
            PieceEnum::J => if state == 1 {
                (vec![(0, 1), (0, 2), (2, 1)], vec![(1, 0), (1, 2), (2, 2)])
            } else if state == 2 {
                (vec![(1, 0), (1, 2), (2, 2)], vec![(0, 1), (2, 0), (2, 1)])
            } else if state == 3 {
                (vec![(0, 1), (2, 0), (2, 1)], vec![(0, 0), (1, 0), (1, 2)])
            } else {
                (vec![(0, 0), (1, 0), (1, 2)], vec![(0, 1), (0, 2), (2, 1)])
            },
        }
    }

    /// The kind that a draw of `n` stands for: 0 to 5 name O, S, Z, T, L, J
    /// in this order, every other number names I.
    pub open spec fn of_index(n: u8) -> PieceEnum {
        if n == 0 {
            PieceEnum::O
        } else if n == 1 {
            PieceEnum::S
        } else if n == 2 {
            PieceEnum::Z
        } else if n == 3 {
            PieceEnum::T
        } else if n == 4 {
            PieceEnum::L
        } else if n == 5 {
            PieceEnum::J
        } else {
            PieceEnum::I
        }
    }

    /// Turns a number drawn from 0 to 6 into a kind of piece.
    pub fn from_index(n: u8) -> (kind: PieceEnum)
        ensures
            kind == PieceEnum::of_index(n),
    {
        match n {
            0 => PieceEnum::O,
            1 => PieceEnum::S,
            2 => PieceEnum::Z,
            3 => PieceEnum::T,
            4 => PieceEnum::L,
            5 => PieceEnum::J,
            _ => PieceEnum::I,
        }
    }
}

impl Piece {
    /// The shape as a sequence of rows, each the columns that it fills.
    pub open spec fn rows(&self) -> Seq<Seq<u8>> {
        Seq::new(self.0@.len(), |r: int| self.0@[r]@)
    }

    /// Whether this is the shape and colour of `kind` in its first
    /// orientation.
    pub open spec fn is_base_of(&self, kind: PieceEnum) -> bool {
        self.rows() == kind.base_rows() && self.1 == kind.color()
    }
}

impl Pieces {
    /// The entry for `kind`.
    pub open spec fn of(&self, kind: PieceEnum) -> Piece {
        match kind {
            PieceEnum::O => self.o,
            PieceEnum::S => self.s,
            PieceEnum::Z => self.z,
            PieceEnum::T => self.t,
            PieceEnum::L => self.l,
            PieceEnum::J => self.j,
            PieceEnum::I => self.i,
        }
    }

    /// Whether every entry is the catalogue's shape and colour of its kind.
    pub open spec fn is_standard(&self) -> bool {
        forall|kind: PieceEnum| #[trigger] self.of(kind).is_base_of(kind)
    }

    /// The catalogue: every kind with its shape and colour.
    pub fn new() -> (pieces: Pieces)
        ensures
            pieces.is_standard(),
    {
        let pieces = Pieces {
            o: Piece(vec![vec![0, 1], vec![0, 1], vec![]], TileColor::Yellow),
            s: Piece(vec![vec![1, 2], vec![0, 1], vec![]], TileColor::Green),
            z: Piece(vec![vec![0, 1], vec![1, 2], vec![]], TileColor::Red),
            t: Piece(vec![vec![1], vec![0, 1, 2], vec![]], TileColor::Purple),
            l: Piece(vec![vec![2], vec![0, 1, 2], vec![]], TileColor::Orange),
            j: Piece(vec![vec![0], vec![0, 1, 2], vec![]], TileColor::Blue),
            i: Piece(vec![vec![], vec![0, 1, 2, 3], vec![]], TileColor::Cyan),
        };
        assert forall|kind: PieceEnum| #[trigger] pieces.of(kind).is_base_of(kind) by {
            assert(pieces.of(kind).rows() =~~= kind.base_rows());
        }
        pieces
    }

    /// The entry for `piece`.
    pub fn index(&self, piece: PieceEnum) -> (entry: &Piece)
        ensures
            *entry == self.of(piece),
    {
        match piece {
            PieceEnum::O => &self.o,
            PieceEnum::S => &self.s,
            PieceEnum::Z => &self.z,
            PieceEnum::T => &self.t,
            PieceEnum::L => &self.l,
            PieceEnum::J => &self.j,
            PieceEnum::I => &self.i,
        }
    }
}

} // verus!
