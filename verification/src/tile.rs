//! Cells of the playing field: their colours, the flag that tells a cell in
//! play from a settled one, and the failure a write can report.

use vstd::prelude::*;

verus! {

/// Number of columns of the field, walls included.
pub const TILE_CANVAS_WIDTH: u16 = 20;

/// Number of rows of the field, floor included.
pub const TILE_CANVAS_HEIGHT: u16 = 20;

/// The number of columns, for arithmetic on coordinates of any size.
pub const FIELD_WIDTH: u32 = TILE_CANVAS_WIDTH as u32;

/// The number of rows, for arithmetic on coordinates of any size.
pub const FIELD_HEIGHT: u32 = TILE_CANVAS_HEIGHT as u32;

/// What a cell shows. `Empty` is a free cell, `Gray` is wall and floor, every
/// other colour belongs to one kind of piece.
#[derive(Clone, Copy, Debug, PartialEq, Eq, Structural)]
pub enum TileColor {
    Empty,
    Red,
    Green,
    Blue,
    Purple,
    Cyan,
    Yellow,
    Orange,
    Gray,
}

/// One cell: its colour and its *active* flag.
///
/// An active cell (`true`) accepts guarded writes; it is free, or part of the
/// falling piece, or wall. A cell whose flag is `false` has settled: guarded
/// writes leave it alone and a piece that comes to rest on it has landed.
#[derive(Clone, Copy, Debug, PartialEq, Eq, Structural)]
pub struct Tile(pub TileColor, pub bool);

/// Why a write to the field was refused.
#[derive(Clone, Copy, Debug, PartialEq, Eq, Structural)]
pub enum TileError {
    /// The write addressed a cell that the field does not have.
    OutOfBounds,
}

impl TileColor {
    /// The path of the bitmap that shows a cell of this colour.
    pub open spec fn asset_path(self) -> Seq<char> {
        match self {
            TileColor::Empty => "assets/empty.bmp"@,
            TileColor::Red => "assets/red.bmp"@,
            TileColor::Green => "assets/green.bmp"@,
            TileColor::Blue => "assets/blue.bmp"@,
            TileColor::Cyan => "assets/cyan.bmp"@,
            TileColor::Purple => "assets/purple.bmp"@,
            TileColor::Yellow => "assets/yellow.bmp"@,
            TileColor::Orange => "assets/orange.bmp"@,
            TileColor::Gray => "assets/gray.bmp"@,
        }
    }

    /// Path of the bitmap for `color`, relative to the program's directory.
    pub fn get_asset_path(color: &TileColor) -> (path: String)
        ensures
            path@ == color.asset_path(),
    {
        match color {
            TileColor::Empty => "assets/empty.bmp".to_owned(),
            TileColor::Red => "assets/red.bmp".to_owned(),
            TileColor::Green => "assets/green.bmp".to_owned(),
            TileColor::Blue => "assets/blue.bmp".to_owned(),
            TileColor::Cyan => "assets/cyan.bmp".to_owned(),
            TileColor::Purple => "assets/purple.bmp".to_owned(),
            TileColor::Yellow => "assets/yellow.bmp".to_owned(),
            TileColor::Orange => "assets/orange.bmp".to_owned(),
            TileColor::Gray => "assets/gray.bmp".to_owned(),
        }
    }
}

} // verus!
