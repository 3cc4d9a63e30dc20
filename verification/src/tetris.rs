//! The game: the field, the falling piece and the score, and the moves
//! that a player or the clock can ask for.

use vstd::prelude::*;
use crate::canvas::{blank_grid, grid_wf, leaves_field, seen, walled, Grid, TileCanvas};
use crate::clearing::{
    cleared, compact_row, disabled, lemma_rows_cleared_failed, row_is_full,
    rows_cleared, settle_box, top_reached, Tally,
};
use crate::piece::{PieceEnum, Pieces};
use crate::rules::{
    cells_free, column_swept, drawn, erased, lemma_column_swept_failed,
    lemma_drawn_failed, lemma_erased_failed, lemma_swept_failed, pressed_at, presses, rests,
    shift_cell, side_blocked, spawned, step_allowed, stepped, sweep_col, swept, turned, wrap16,
    Sweep,
};
use crate::tile::{Tile, TileColor, TileError, FIELD_HEIGHT, FIELD_WIDTH, TILE_CANVAS_WIDTH};

verus! {

/// The falling piece: the top left corner of its four-by-four box on the
/// field, its kind, its orientation, and the margins of the box in that
/// orientation.
#[derive(Copy, Clone, Debug)]
pub struct TetrisPiece {
    pub x: u16,
    pub y: u16,
    pub piece: PieceEnum,
    pub buf: (u16, u16),
    pub state: u8,
}

/// A game in progress.
pub struct Tetris {
    pub tile_canvas: TileCanvas,
    active_piece: TetrisPiece,
    pieces: Pieces,
    score: u16,
}

/// The mathematical state of a game.
pub struct Play {
    pub grid: Grid,
    pub piece: TetrisPiece,
    pub score: nat,
}

impl TetrisPiece {
    /// A piece of `kind` in its first orientation with its box at
    /// (`x`, `y`).
    pub open spec fn fresh(x: u16, y: u16, kind: PieceEnum) -> TetrisPiece {
        TetrisPiece { x, y, piece: kind, buf: kind.margins(0), state: 0 }
    }
}

impl View for Tetris {
    type V = Play;

    closed spec fn view(&self) -> Play {
        Play { grid: self.tile_canvas@, piece: self.active_piece, score: self.score as nat }
    }
}

impl Tetris {
    /// The shapes and colours that this game draws its pieces from.
    pub closed spec fn catalog(&self) -> Pieces {
        self.pieces
    }

    /// The field of every game has the full number of columns and rows, and
    /// the score fits its counter.
    pub proof fn lemma_view(&self)
        ensures
            grid_wf(self@.grid),
            self@.score <= u16::MAX,
    {
        self.tile_canvas.lemma_view_wf();
    }

    /// The field, to read.
    pub fn canvas(&self) -> (canvas: &TileCanvas)
        ensures
            canvas@ == self@.grid,
    {
        &self.tile_canvas
    }

    /// The falling piece.
    pub fn active_piece(&self) -> (piece: TetrisPiece)
        ensures
            piece == self@.piece,
    {
        self.active_piece
    }

    /// The number of rows cleared so far.
    pub fn score(&self) -> (score: u16)
        ensures
            score == self@.score,
    {
        self.score
    }

    /// Makes a piece of kind `piece_enum` the falling piece, in its first
    /// orientation with its box at (`x_c`, `y_c`), and draws it there.
    /// Fails where the shape reaches below the field; the piece is the
    /// falling piece all the same, and its rows above that are drawn.
    pub fn set_piece(&mut self, x_c: u16, y_c: u16, piece_enum: PieceEnum) -> (at: Result<
        (u16, u16),
        TileError,
    >)
        ensures
            final(self).catalog() == old(self).catalog(),
            final(self)@ == spawned(old(self)@, old(self).catalog(), x_c, y_c, piece_enum).0,
            at == spawned(old(self)@, old(self).catalog(), x_c, y_c, piece_enum).1,
    {
        self.active_piece = TetrisPiece {
            x: x_c,
            y: y_c,
            piece: piece_enum,
            buf: PieceEnum::buf(0, &piece_enum),
            state: 0,
        };
        match self.tile_canvas.draw_piece(x_c, y_c, self.pieces.index(piece_enum)) {
            Ok(()) => Ok((x_c, y_c)),
            Err(e) => Err(e),
        }
    }

    /// A new game on an empty field, with `tetris_piece`'s kind drawn at its
    /// place as the falling piece, and no rows cleared.
    pub fn new(tetris_piece: TetrisPiece, tetris_pieces: Pieces) -> (game: Tetris)
        requires
            !leaves_field(tetris_piece.y as int, tetris_pieces.of(tetris_piece.piece).rows()),
        ensures
            game.catalog() == tetris_pieces,
            game@ == spawned(
                Play { grid: blank_grid(), piece: tetris_piece, score: 0 },
                tetris_pieces,
                tetris_piece.x,
                tetris_piece.y,
                tetris_piece.piece,
            ).0,
    {
        let mut tetris = Tetris {
            tile_canvas: TileCanvas::new(),
            active_piece: tetris_piece,
            pieces: tetris_pieces,
            score: 0,
        };
        let _ = tetris.set_piece(tetris_piece.x, tetris_piece.y, tetris_piece.piece);
        tetris
    }
}

/// `c` moved by `d` in sixteen-bit arithmetic that wraps around.
fn wrap_step(c: u32, d: i16) -> (r: u32)
    requires
        c < 0x18000,
    ensures
        r == wrap16(c + d),
{
    let t: i64 = c as i64 + d as i64;
    if t < 0 {
        (t + 0x10000) as u32
    } else if t >= 0x10000 {
        (t - 0x10000) as u32
    } else {
        t as u32
    }
}

impl Tetris {
    /// Builds the floor and the side walls of the field around whatever it
    /// holds: see `TileCanvas::build_walls`.
    pub fn build_walls(&mut self)
        ensures
            final(self).catalog() == old(self).catalog(),
            final(self)@ == (Play { grid: walled(old(self)@.grid), ..old(self)@ }),
    {
        self.tile_canvas.build_walls();
    }

    /// Whether a cell of the falling piece, met as `tile`, has support
    /// beside it, met as `o_tile`.
    pub fn tile_check(tile: Option<Tile>, o_tile: Option<Tile>) -> (pressed: bool)
        ensures
            pressed == presses(tile, o_tile),
    {
        match (tile, o_tile) {
            (Some(t), Some(o)) => t.0 != TileColor::Empty && o.0 == TileColor::Empty,
            _ => false,
        }
    }

    /// Whether a sideways step in the direction of `x` would run the piece
    /// into support. Reads the game and leaves it as it is.
    pub fn check_horizontal_collision(&mut self, x: i16) -> (collision: bool)
        ensures
            final(self)@ == old(self)@,
            final(self).catalog() == old(self).catalog(),
            collision == side_blocked(old(self)@.grid, old(self)@.piece, x as int),
    {
        let mut collision = false;
        if x != 0 {
            let p = self.active_piece;
            let side: i16 = if x > 0 { 1 } else { -1 };
            let first: u32 = if x > 0 { 1 } else { 0 };
            let ghost g = self.tile_canvas@;
            let mut i: u32 = 0;
            while i < 4
                invariant
                    i <= 4,
                    x != 0,
                    side == (if x > 0 { 1int } else { -1int }),
                    first == (if x > 0 { 1int } else { 0int }),
                    g == self.tile_canvas@,
                    p == self.active_piece,
                    collision <==> exists|i2: int, j2: int|
                        0 <= i2 < i && first <= j2 < first + 3 && #[trigger] pressed_at(
                            g,
                            p,
                            i2,
                            j2,
                            side as int,
                        ),
                decreases 4 - i,
            {
                let mut j: u32 = first;
                while j < first + 3
                    invariant
                        i < 4,
                        first <= j <= first + 3,
                        first <= 1,
                        side == 1 || side == -1,
                        g == self.tile_canvas@,
                        p == self.active_piece,
                        collision <==> exists|i2: int, j2: int|
                            (0 <= i2 < i && first <= j2 < first + 3 || i2 == i && first <= j2 < j)
                                && #[trigger] pressed_at(g, p, i2, j2, side as int),
                    decreases first + 3 - j,
                {
                    let x_c: u32 = p.x as u32 + j;
                    let row: u32 = (p.y as u32 + i) % (FIELD_HEIGHT - 1);
                    let beside: u32 = if side > 0 { x_c + 1 } else { x_c + (FIELD_WIDTH - 1) };
                    let tile = self.tile_canvas.look(x_c, row);
                    let o_tile = self.tile_canvas.look(beside, row);
                    let pressed = Tetris::tile_check(tile, o_tile);
                    assert(pressed == pressed_at(g, p, i as int, j as int, side as int));
                    collision = collision || pressed;
                    j += 1;
                }
                i += 1;
            }
        }
        collision
    }
}

/// One step of a move at cell (`x`, `y`): answers whether the piece has
/// landed so far, and whether a write has left the field.
fn shift_one(canvas: &mut TileCanvas, x: u32, y: u32, dx: i16, dy: i16, landed: bool) -> (now: (
    bool,
    bool,
))
    requires
        x <= 0x10010,
        y <= 0x10010,
    ensures
        (Sweep { grid: final(canvas)@, landed: now.0, failed: now.1 }) == shift_cell(
            Sweep { grid: old(canvas)@, landed, failed: false },
            x as int,
            y as int,
            dx as int,
            dy as int,
        ),
{
    match canvas.look(x, y) {
        Some(Tile(tile, true)) => {
            let to_x = wrap_step(x, dx);
            let to_y = wrap_step(y, dy);
            let under = wrap_step(y + 1, dy);
            let support = match canvas.look(to_x, under) {
                Some(t) => !t.1,
                None => false,
            };
            let now_landed = landed || support;
            match canvas.place(x, y, TileColor::Empty) {
                Ok(()) => match canvas.place(to_x, to_y, tile) {
                    Ok(()) => (now_landed, false),
                    Err(_) => (now_landed, true),
                },
                Err(_) => (now_landed, true),
            }
        },
        _ => (landed, false),
    }
}

impl Tetris {
    /// Steps the falling piece by (`x`, `y`): by one column to the left or
    /// to the right, by one row down, or by any other step.
    ///
    /// A step that would take the piece into a side wall, or sideways into
    /// support, is not taken: nothing changes and the answer is
    /// `Ok(false)`. Otherwise every cell of the piece is cleared and drawn
    /// again one step on, and the answer tells whether the piece has
    /// landed. A write off the field stops the move half way and is the
    /// answer.
    pub fn move_piece(&mut self, x: i16, y: i16) -> (landed: Result<bool, TileError>)
        ensures
            final(self).catalog() == old(self).catalog(),
            final(self)@ == stepped(old(self)@, x as int, y as int).0,
            landed == stepped(old(self)@, x as int, y as int).1,
    {
        let p = self.active_piece;
        let right_stop = x > 0 && p.x as i64 + (4 - p.buf.1 as i64) > FIELD_WIDTH as i64 - 3;
        let left_stop = x < 0 && p.x as u32 + (p.buf.0 as u32) < 3;
        if right_stop || left_stop || self.check_horizontal_collision(x) {
            return Ok(false);
        }
        let ghost start = Sweep { grid: self.tile_canvas@, landed: false, failed: false };
        let ghost px = p.x as int;
        let ghost py = p.y as int;
        let mut collision = false;
        let mut a: u32 = 0;
        while a < 4
            invariant
                a <= 4,
                px == p.x,
                py == p.y,
                p == old(self).active_piece,
                start == (Sweep { grid: old(self).tile_canvas@, landed: false, failed: false }),
                step_allowed(old(self).tile_canvas@, p, x as int),
                self.active_piece == old(self).active_piece,
                self.pieces == old(self).pieces,
                self.score == old(self).score,
                (Sweep { grid: self.tile_canvas@, landed: collision, failed: false }) == swept(
                    start,
                    px,
                    py,
                    x as int,
                    y as int,
                    a as int,
                ),
            decreases 4 - a,
        {
            let i: u32 = if x < 0 { a } else { 3 - a };
            let x_i: u32 = p.x as u32 + i;
            let ghost column_start = Sweep { grid: self.tile_canvas@, landed: collision, failed: false };
            let mut b: u32 = 0;
            while b < 4
                invariant
                    a < 4,
                    b <= 4,
                    x_i == px + sweep_col(a as int, x as int),
                    px == p.x,
                    py == p.y,
                    p == old(self).active_piece,
                    start == (Sweep { grid: old(self).tile_canvas@, landed: false, failed: false }),
                    step_allowed(old(self).tile_canvas@, p, x as int),
                    column_start == swept(start, px, py, x as int, y as int, a as int),
                    self.active_piece == old(self).active_piece,
                    self.pieces == old(self).pieces,
                    self.score == old(self).score,
                    (Sweep { grid: self.tile_canvas@, landed: collision, failed: false })
                        == column_swept(column_start, x_i as int, py, x as int, y as int, b as int),
                decreases 4 - b,
            {
                let y_j: u32 = p.y as u32 + (3 - b);
                let (now_landed, failed) = shift_one(&mut self.tile_canvas, x_i, y_j, x, y, collision);
                collision = now_landed;
                if failed {
                    proof {
                        lemma_column_swept_failed(
                            column_start,
                            x_i as int,
                            py,
                            x as int,
                            y as int,
                            b + 1,
                            4,
                        );
                        lemma_swept_failed(start, px, py, x as int, y as int, a + 1, 4);
                    }
                    return Err(TileError::OutOfBounds);
                }
                b += 1;
            }
            a += 1;
        }
        self.active_piece.x = wrap_step(p.x as u32, x) as u16;
        self.active_piece.y = wrap_step(p.y as u32, y) as u16;
        Ok(collision)
    }

    /// One tick of the clock: the falling piece drops by one row. See
    /// `move_piece`.
    pub fn update_screen(&mut self) -> (landed: Result<bool, TileError>)
        ensures
            final(self).catalog() == old(self).catalog(),
            final(self)@ == stepped(old(self)@, 0, 1).0,
            landed == stepped(old(self)@, 0, 1).1,
    {
        self.move_piece(0, 1)
    }
}

/// Whether a piece meets nothing at any of the cells `offsets` of the box at
/// (`x`, `y`).
fn all_free(canvas: &TileCanvas, x: u16, y: u16, offsets: &Vec<(u8, u8)>) -> (free: bool)
    ensures
        free == cells_free(canvas@, x as int, y as int, offsets@),
{
    let mut k: usize = 0;
    while k < offsets.len()
        invariant
            k <= offsets.len(),
            forall|m: int|
                0 <= m < k ==> seen(canvas@, x + (#[trigger] offsets@[m]).1, y + offsets@[m].0) is None,
        decreases offsets.len() - k,
    {
        let c = offsets[k];
        if canvas.look(x as u32 + c.1 as u32, y as u32 + c.0 as u32).is_some() {
            return false;
        }
        k += 1;
    }
    true
}

/// Vacates the cells `offsets` of the box at (`x`, `y`) and answers whether
/// a write has left the field.
fn erase_cells(canvas: &mut TileCanvas, x: u16, y: u16, offsets: &Vec<(u8, u8)>) -> (failed: bool)
    ensures
        (Sweep { grid: final(canvas)@, landed: false, failed }) == erased(
            Sweep { grid: old(canvas)@, landed: false, failed: false },
            x as int,
            y as int,
            offsets@,
            offsets@.len() as int,
        ),
{
    let ghost start = Sweep { grid: canvas@, landed: false, failed: false };
    let mut k: usize = 0;
    while k < offsets.len()
        invariant
            k <= offsets.len(),
            start == (Sweep { grid: old(canvas)@, landed: false, failed: false }),
            (Sweep { grid: canvas@, landed: false, failed: false }) == erased(
                start,
                x as int,
                y as int,
                offsets@,
                k as int,
            ),
        decreases offsets.len() - k,
    {
        let c = offsets[k];
        let done = canvas.place(x as u32 + c.1 as u32, y as u32 + c.0 as u32, TileColor::Empty);
        if done.is_err() {
            proof {
                lemma_erased_failed(start, x as int, y as int, offsets@, k + 1, offsets@.len() as int);
            }
            return true;
        }
        k += 1;
    }
    false
}

/// Fills the cells `offsets` of the box at (`x`, `y`) with `color` and
/// answers whether the piece has landed and whether a write has left the
/// field.
fn draw_cells(canvas: &mut TileCanvas, x: u16, y: u16, offsets: &Vec<(u8, u8)>, color: TileColor) -> (now:
    (bool, bool))
    ensures
        (Sweep { grid: final(canvas)@, landed: now.0, failed: now.1 }) == drawn(
            Sweep { grid: old(canvas)@, landed: false, failed: false },
            x as int,
            y as int,
            offsets@,
            color,
            offsets@.len() as int,
        ),
{
    let ghost start = Sweep { grid: canvas@, landed: false, failed: false };
    let mut collision = false;
    let mut k: usize = 0;
    while k < offsets.len()
        invariant
            k <= offsets.len(),
            start == (Sweep { grid: old(canvas)@, landed: false, failed: false }),
            (Sweep { grid: canvas@, landed: collision, failed: false }) == drawn(
                start,
                x as int,
                y as int,
                offsets@,
                color,
                k as int,
            ),
        decreases offsets.len() - k,
    {
        let c = offsets[k];
        let cx: u32 = x as u32 + c.1 as u32;
        let cy: u32 = y as u32 + c.0 as u32;
        let done = canvas.place(cx, cy, color);
        if done.is_err() {
            proof {
                lemma_drawn_failed(
                    start,
                    x as int,
                    y as int,
                    offsets@,
                    color,
                    k + 1,
                    offsets@.len() as int,
                );
            }
            return (collision, true);
        }
        let support = match canvas.look(cx, cy + 1) {
            Some(t) => !t.1,
            None => false,
        };
        collision = collision || support;
        k += 1;
    }
    (collision, false)
}

impl Tetris {
    /// Turns the falling piece by a quarter.
    ///
    /// Where the piece stands too close to a side wall, or meets something
    /// at a cell that the turn would fill, nothing changes and the answer
    /// is `Ok(false)`. Otherwise the piece is redrawn in its next
    /// orientation, and the answer tells whether it has landed: whether one
    /// of the cells just filled has support under it. A write off the field
    /// stops the turn half way and is the answer.
    pub fn rotate_piece(&mut self) -> (landed: Result<bool, TileError>)
        ensures
            final(self).catalog() == old(self).catalog(),
            final(self)@ == turned(old(self)@, old(self).catalog().of(old(self)@.piece.piece).1).0,
            landed == turned(old(self)@, old(self).catalog().of(old(self)@.piece.piece).1).1,
    {
        let p = self.active_piece;
        let extra: u32 = if p.piece == PieceEnum::I { 1 } else { 0 };
        if !(p.x >= 2 && p.x as u32 + p.buf.1 as u32 + extra < FIELD_WIDTH - 2) {
            return Ok(false);
        }
        let color = self.pieces.index(p.piece).1;
        let (erase, draw) = PieceEnum::rot(p.state, &p.piece);
        if !all_free(&self.tile_canvas, p.x, p.y, &draw) {
            return Ok(false);
        }
        if erase_cells(&mut self.tile_canvas, p.x, p.y, &erase) {
            proof {
                lemma_drawn_failed(
                    Sweep { grid: self.tile_canvas@, landed: false, failed: true },
                    p.x as int,
                    p.y as int,
                    draw@,
                    color,
                    0,
                    draw@.len() as int,
                );
            }
            return Err(TileError::OutOfBounds);
        }
        let (collision, failed) = draw_cells(&mut self.tile_canvas, p.x, p.y, &draw, color);
        if failed {
            return Err(TileError::OutOfBounds);
        }
        let state: u8 = ((p.state as u32 + 1) % 4) as u8;
        self.active_piece.state = state;
        self.active_piece.buf = PieceEnum::buf(state, &p.piece);
        Ok(collision)
    }
}

impl Tetris {
    /// Counts one cleared row.
    pub fn update_score(&mut self)
        requires
            old(self)@.score < u16::MAX,
        ensures
            final(self).catalog() == old(self).catalog(),
            final(self)@ == (Play { score: old(self)@.score + 1, ..old(self)@ }),
    {
        self.score += 1;
    }

    /// Clears the full rows among the four rows of the falling piece's box,
    /// top row first, and counts each of them. A full row is taken out of
    /// every column between the side walls: what lies above it in the
    /// column drops by one row. Fails where a full row lies below the field
    /// or a column is filled to the top; rows cleared before that stay
    /// cleared and counted.
    pub fn clear_row(&mut self) -> (done: Result<(), TileError>)
        requires
            old(self)@.score + 4 <= u16::MAX,
        ensures
            final(self).catalog() == old(self).catalog(),
            final(self)@ == cleared(old(self)@).0,
            done == cleared(old(self)@).1,
    {
        let y_c = self.active_piece.y;
        let ghost start = Tally { grid: self.tile_canvas@, score: self.score as nat, failed: false };
        let mut i: u32 = 0;
        while i < 4
            invariant
                i <= 4,
                y_c == old(self).active_piece.y,
                start == (Tally {
                    grid: old(self).tile_canvas@,
                    score: old(self).score as nat,
                    failed: false,
                }),
                self.active_piece == old(self).active_piece,
                self.pieces == old(self).pieces,
                self.score <= old(self).score + i,
                old(self).score + 4 <= u16::MAX,
                (Tally { grid: self.tile_canvas@, score: self.score as nat, failed: false })
                    == rows_cleared(start, y_c as int, i as int),
            decreases 4 - i,
        {
            let row: u32 = y_c as u32 + i;
            if row_is_full(&self.tile_canvas, row % (FIELD_HEIGHT - 1)) {
                if let Err(e) = compact_row(&mut self.tile_canvas, row) {
                    proof {
                        lemma_rows_cleared_failed(start, y_c as int, i + 1, 4);
                    }
                    return Err(e);
                }
                self.score += 1;
            }
            i += 1;
        }
        Ok(())
    }

    /// Lays the falling piece to rest: clears the full rows of its box and
    /// counts them, then settles every cell around the box's corner at
    /// which a piece meets something. Where the clearing fails, nothing
    /// settles.
    pub fn disable_piece(&mut self) -> (done: Result<(), TileError>)
        requires
            old(self)@.score + 4 <= u16::MAX,
        ensures
            final(self).catalog() == old(self).catalog(),
            final(self)@ == disabled(old(self)@).0,
            done == disabled(old(self)@).1,
    {
        let p = self.active_piece;
        if let Err(e) = self.clear_row() {
            return Err(e);
        }
        settle_box(&mut self.tile_canvas, p.x, p.y);
        Ok(())
    }

    /// Whether the game is lost: whether the stack of settled cells has
    /// reached one of the three top rows. Reads the game and leaves it as it
    /// is.
    pub fn check_loss(&mut self) -> (loss: bool)
        ensures
            final(self)@ == old(self)@,
            final(self).catalog() == old(self).catalog(),
            loss == top_reached(old(self)@.grid),
    {
        let mut loss = false;
        let ghost g = self.tile_canvas@;
        let mut y: u32 = 0;
        while y < 3
            invariant
                y <= 3,
                g == self.tile_canvas@,
                loss <==> exists|a: int, b: int|
                    2 <= a < TILE_CANVAS_WIDTH - 2 && 0 <= b < y && #[trigger] rests(g, a, b),
            decreases 3 - y,
        {
            let mut x: u32 = 2;
            while x < FIELD_WIDTH - 2
                invariant
                    y < 3,
                    2 <= x <= FIELD_WIDTH - 2,
                    g == self.tile_canvas@,
                    loss <==> exists|a: int, b: int|
                        (2 <= a < TILE_CANVAS_WIDTH - 2 && 0 <= b < y || 2 <= a < x && b == y)
                            && #[trigger] rests(g, a, b),
                decreases FIELD_WIDTH - 2 - x,
            {
                if let Some(tile) = self.tile_canvas.look(x, y) {
                    if tile.0 == TileColor::Empty {
                        assert(rests(g, x as int, y as int));
                        loss = true;
                    }
                }
                x += 1;
            }
            y += 1;
        }
        loss
    }
}

} // verus!
