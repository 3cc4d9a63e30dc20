//! The next piece: which kind falls next and where, drawn at random, and
//! the change of pieces after a landing.

use vstd::prelude::*;
use rand::Rng;
use crate::clearing::disabled;
use crate::piece::PieceEnum;
use crate::rules::spawned;
use crate::tetris::{Play, Tetris};
use crate::tile::{TileError, TILE_CANVAS_WIDTH};

verus! {

/// A number drawn at random from `low` up to, not including, `high`.
///
/// Calls `rand::Rng::gen_range` on the thread's generator with the range
/// `low..high`. Trusted: the call panics on an empty range, which the
/// precondition rules out, and returns a member of the range. Which member
/// is left open.
#[verifier::external_body]
fn gen_range(low: u16, high: u16) -> (drawn: u16)
    requires
        low < high,
    ensures
        low <= drawn < high,
{
    rand::thread_rng().gen_range(low..high)
}

/// A kind of piece drawn at random, every kind alike.
pub fn random_piece() -> (kind: PieceEnum)
    ensures
        exists|n: u8| n <= 6 && kind == PieceEnum::of_index(n),
{
    let n = gen_range(0, 7);
    PieceEnum::from_index(n as u8)
}

/// A column for the box of a new piece, drawn at random such that every
/// shape stands between the side walls.
pub fn random_column() -> (x: u16)
    ensures
        2 <= x < TILE_CANVAS_WIDTH - 5,
{
    gen_range(2, TILE_CANVAS_WIDTH - 5)
}

/// The state and the answer after the falling piece is laid to rest and a
/// piece of `kind` takes its place in the top row, with its box in column
/// `x`. Where laying to rest fails, no new piece comes.
pub open spec fn respawned(v: Play, catalog: crate::piece::Pieces, x: u16, kind: PieceEnum) -> (
    Play,
    Result<(), TileError>,
) {
    let rested = disabled(v);
    if rested.1 is Err {
        rested
    } else {
        let next = spawned(rested.0, catalog, x, 0, kind);
        (
            next.0,
            if next.1 is Err {
                Err(TileError::OutOfBounds)
            } else {
                Ok(())
            },
        )
    }
}

/// Lays the falling piece to rest and makes a piece of `kind` the falling
/// piece, in the top row with its box in column `x`.
pub fn respawn(tetris: &mut Tetris, x: u16, kind: PieceEnum) -> (done: Result<(), TileError>)
    requires
        old(tetris)@.score + 4 <= u16::MAX,
    ensures
        final(tetris).catalog() == old(tetris).catalog(),
        final(tetris)@ == respawned(old(tetris)@, old(tetris).catalog(), x, kind).0,
        done == respawned(old(tetris)@, old(tetris).catalog(), x, kind).1,
{
    if let Err(e) = tetris.disable_piece() {
        return Err(e);
    }
    match tetris.set_piece(x, 0, kind) {
        Ok(_) => Ok(()),
        Err(e) => Err(e),
    }
}

/// What follows a landing: the falling piece is laid to rest and a piece of
/// a kind drawn at random takes its place in the top row, with its box in
/// column `x`.
pub fn tetris_collision(tetris: &mut Tetris, x: u16) -> (done: Result<(), TileError>)
    requires
        old(tetris)@.score + 4 <= u16::MAX,
    ensures
        final(tetris).catalog() == old(tetris).catalog(),
        exists|kind: PieceEnum|
            (final(tetris)@, done) == #[trigger] respawned(
                old(tetris)@,
                old(tetris).catalog(),
                x,
                kind,
            ),
{
    let kind = random_piece();
    respawn(tetris, x, kind)
}

} // verus!
