//! A falling-block puzzle on a fixed grid: the cells, the seven pieces and
//! their rotation tables, and the rules that move, rotate, land and clear.

pub mod canvas;
pub mod clearing;
pub mod clearing_laws;
pub mod field_laws;
pub mod laws;
pub mod piece;
pub mod rules;
pub mod shapes;
pub mod spawn;
pub mod step_laws;
pub mod tetris;
pub mod tile;
pub mod turn_laws;

pub use crate::canvas::TileCanvas;
pub use crate::piece::{Piece, PieceEnum, Pieces};
pub use crate::spawn::{random_column, random_piece, respawn, tetris_collision};
pub use crate::tetris::{Tetris, TetrisPiece};
pub use crate::tile::{Tile, TileColor, TileError, TILE_CANVAS_HEIGHT, TILE_CANVAS_WIDTH};
