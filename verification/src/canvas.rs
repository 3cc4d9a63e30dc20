//! The playing field: a grid of cells, read with wrap-around and written
//! through a guard that protects settled cells.

use vstd::prelude::*;
use crate::piece::Piece;
use crate::tile::{
    Tile, TileColor, TileError, FIELD_HEIGHT, FIELD_WIDTH, TILE_CANVAS_HEIGHT, TILE_CANVAS_WIDTH,
};

verus! {

/// The mathematical field: `g[x][y]` is the cell in column `x` and row `y`.
/// Row 0 is the top row.
pub type Grid = Seq<Seq<Tile>>;

/// A grid has the field's number of columns, each with the field's number
/// of rows.
pub open spec fn grid_wf(g: Grid) -> bool {
    &&& g.len() == TILE_CANVAS_WIDTH
    &&& forall|x: int| 0 <= x < TILE_CANVAS_WIDTH ==> (#[trigger] g[x]).len() == TILE_CANVAS_HEIGHT
}

/// The field with every cell free and active.
pub open spec fn blank_grid() -> Grid {
    Seq::new(
        TILE_CANVAS_WIDTH as nat,
        |x: int| Seq::new(TILE_CANVAS_HEIGHT as nat, |y: int| Tile(TileColor::Empty, true)),
    )
}

/// The cell that the coordinates name once both are wrapped onto the field.
pub open spec fn tile_at(g: Grid, x: int, y: int) -> Tile {
    g[x % (TILE_CANVAS_WIDTH as int)][y % (TILE_CANVAS_HEIGHT as int)]
}

/// What a piece meets at (`x`, `y`).
///
/// Nothing, where the cell is free, and where it is wall above the floor
/// row. An active coloured cell shows itself. A settled coloured cell, and
/// wall from the floor row down, shows as `Tile(Empty, false)`: something
/// to rest on.
pub open spec fn seen(g: Grid, x: int, y: int) -> Option<Tile> {
    let t = tile_at(g, x, y);
    if t.0 == TileColor::Empty {
        None
    } else if t.0 == TileColor::Gray {
        if y < TILE_CANVAS_HEIGHT - 1 {
            None
        } else {
            Some(Tile(TileColor::Empty, false))
        }
    } else if t.1 {
        Some(t)
    } else {
        Some(Tile(TileColor::Empty, false))
    }
}

/// The grid with the colour of cell (`x`, `y`) replaced.
pub open spec fn with_color(g: Grid, x: int, y: int, color: TileColor) -> Grid {
    g.update(x, g[x].update(y, Tile(color, g[x][y].1)))
}

/// The grid with the active flag of cell (`x`, `y`) replaced.
pub open spec fn with_flag(g: Grid, x: int, y: int, active: bool) -> Grid {
    g.update(x, g[x].update(y, Tile(g[x][y].0, active)))
}

/// The column that a guarded write to column `x` lands in: columns right of
/// the last but one are drawn into that one.
pub open spec fn clamped(x: int) -> int {
    if x < TILE_CANVAS_WIDTH - 2 {
        x
    } else {
        TILE_CANVAS_WIDTH - 2
    }
}

/// The grid after a guarded write of `color` to (`x`, `y`): the cell takes
/// the colour if it is on the field and active, and nothing changes
/// otherwise.
pub open spec fn placed(g: Grid, x: int, y: int, color: TileColor) -> Grid {
    if 0 <= x && 0 <= y < TILE_CANVAS_HEIGHT && g[clamped(x)][y].1 {
        with_color(g, clamped(x), y, color)
    } else {
        g
    }
}

/// The playing field.
pub struct TileCanvas {
    tiles: [[Tile; 20]; 20],
}

impl View for TileCanvas {
    type V = Grid;

    closed spec fn view(&self) -> Grid {
        Seq::new(
            TILE_CANVAS_WIDTH as nat,
            |x: int| Seq::new(TILE_CANVAS_HEIGHT as nat, |y: int| self.tiles@[x]@[y]),
        )
    }
}

impl TileCanvas {
    /// Every field has the full number of columns and rows.
    pub proof fn lemma_view_wf(&self)
        ensures
            grid_wf(self@),
    {
    }

    /// A field with every cell free and active.
    pub fn new() -> (canvas: TileCanvas)
        ensures
            canvas@ == blank_grid(),
    {
        let canvas = TileCanvas { tiles: [[Tile(TileColor::Empty, true); 20]; 20] };
        assert(canvas@ =~~= blank_grid());
        canvas
    }

    /// What a piece meets at (`x`, `y`), for coordinates of any size.
    pub fn look(&self, x: u32, y: u32) -> (found: Option<Tile>)
        ensures
            found == seen(self@, x as int, y as int),
    {
        let tile = self.tiles[(x % FIELD_WIDTH) as usize][(y % FIELD_HEIGHT) as usize];
        match tile.0 {
            TileColor::Empty => None,
            TileColor::Gray => if y < FIELD_HEIGHT - 1 {
                None
            } else {
                Some(Tile(TileColor::Empty, false))
            },
            _ => if tile.1 {
                Some(tile)
            } else {
                Some(Tile(TileColor::Empty, false))
            },
        }
    }

    /// What a piece meets at (`x`, `y`). Coordinates beyond the field wrap
    /// around.
    pub fn get_tile(&self, x: u16, y: u16) -> (found: Option<Tile>)
        ensures
            found == seen(self@, x as int, y as int),
    {
        self.look(x as u32, y as u32)
    }

    /// The cell at (`x`, `y`) as it is stored, for coordinates of any size:
    /// see `get_tile_override`.
    pub fn look_through(&self, x: u32, y: u32) -> (tile: Tile)
        ensures
            tile == tile_at(self@, x as int, y as int),
    {
        self.tiles[(x % FIELD_WIDTH) as usize][(y % FIELD_HEIGHT) as usize]
    }

    /// The cell at (`x`, `y`) as it is stored. Coordinates beyond the field
    /// wrap around.
    pub fn get_tile_override(&self, x: u16, y: u16) -> (tile: Tile)
        ensures
            tile == tile_at(self@, x as int, y as int),
    {
        self.look_through(x as u32, y as u32)
    }

    /// Guarded write, for coordinates of any size: see `set_tile`.
    pub fn place(&mut self, x: u32, y: u32, color: TileColor) -> (done: Result<(), TileError>)
        ensures
            final(self)@ == placed(old(self)@, x as int, y as int, color),
            done is Err <==> y >= TILE_CANVAS_HEIGHT,
            done is Err ==> done == Err::<(), TileError>(TileError::OutOfBounds),
    {
        if y >= FIELD_HEIGHT {
            return Err(TileError::OutOfBounds);
        }
        let last: u32 = FIELD_WIDTH - 2;
        let x_c: usize = if x < last { x as usize } else { last as usize };
        let y_c: usize = y as usize;
        if self.tiles[x_c][y_c].1 {
            self.tiles[x_c][y_c].0 = color;
            assert(self@ =~~= placed(old(self)@, x as int, y as int, color));
        }
        Ok(())
    }

    /// Colours the cell in row `y` of column `x`, or of the last column but
    /// one where `x` lies right of it, provided the cell is active; a
    /// settled cell keeps its colour. Fails, changing nothing, where the
    /// field has no row `y`.
    pub fn set_tile(&mut self, x: u16, y: u16, color: TileColor) -> (done: Result<(), TileError>)
        ensures
            final(self)@ == placed(old(self)@, x as int, y as int, color),
            done is Err <==> y >= TILE_CANVAS_HEIGHT,
            done is Err ==> done == Err::<(), TileError>(TileError::OutOfBounds),
    {
        self.place(x as u32, y as u32, color)
    }

    /// Unguarded write, for coordinates of any size: see
    /// `set_tile_override`.
    pub fn paint(&mut self, x: u32, y: u32, color: TileColor) -> (done: Result<(), TileError>)
        ensures
            done is Ok <==> x < TILE_CANVAS_WIDTH && y < TILE_CANVAS_HEIGHT,
            done is Ok ==> final(self)@ == with_color(old(self)@, x as int, y as int, color),
            done is Err ==> final(self)@ == old(self)@ && done == Err::<(), TileError>(
                TileError::OutOfBounds,
            ),
    {
        if x >= FIELD_WIDTH || y >= FIELD_HEIGHT {
            return Err(TileError::OutOfBounds);
        }
        self.tiles[x as usize][y as usize].0 = color;
        assert(self@ =~~= with_color(old(self)@, x as int, y as int, color));
        Ok(())
    }

    /// Colours the cell at (`x`, `y`) whether it is active or settled, and
    /// keeps its flag. Fails, changing nothing, where the field has no such
    /// cell.
    pub fn set_tile_override(&mut self, x: u16, y: u16, color: TileColor) -> (done: Result<
        (),
        TileError,
    >)
        ensures
            done is Ok <==> x < TILE_CANVAS_WIDTH && y < TILE_CANVAS_HEIGHT,
            done is Ok ==> final(self)@ == with_color(old(self)@, x as int, y as int, color),
            done is Err ==> final(self)@ == old(self)@ && done == Err::<(), TileError>(
                TileError::OutOfBounds,
            ),
    {
        self.paint(x as u32, y as u32, color)
    }

    /// Sets the active flag, for coordinates of any size: see
    /// `set_tile_state`.
    pub fn mark(&mut self, x: u32, y: u32, active: bool)
        ensures
            final(self)@ == with_flag(
                old(self)@,
                x as int % (TILE_CANVAS_WIDTH as int),
                y as int % (TILE_CANVAS_HEIGHT as int),
                active,
            ),
    {
        self.tiles[(x % FIELD_WIDTH) as usize][(y % FIELD_HEIGHT) as usize].1 = active;
        assert(self@ =~~= with_flag(old(self)@, x as int % 20, y as int % 20, active));
    }

    /// Makes the cell at (`x`, `y`) active or settled and keeps its colour.
    /// Coordinates beyond the field wrap around.
    pub fn set_tile_state(&mut self, x: u16, y: u16, active: bool)
        ensures
            final(self)@ == with_flag(
                old(self)@,
                x as int % (TILE_CANVAS_WIDTH as int),
                y as int % (TILE_CANVAS_HEIGHT as int),
                active,
            ),
    {
        self.mark(x as u32, y as u32, active)
    }
}

/// The grid after guarded writes of `color` to the first `n` of the columns
/// `cols`, each taken from column `x` on, in row `y`.
pub open spec fn row_drawn(g: Grid, x: int, y: int, cols: Seq<u8>, color: TileColor, n: int) -> Grid
    decreases n,
{
    if n <= 0 {
        g
    } else {
        placed(row_drawn(g, x, y, cols, color, n - 1), x + cols[n - 1], y, color)
    }
}

/// The grid after the first `n` rows of a shape are drawn with their box at
/// (`x`, `y`), top row first.
pub open spec fn rows_drawn(
    g: Grid,
    x: int,
    y: int,
    rows: Seq<Seq<u8>>,
    color: TileColor,
    n: int,
) -> Grid
    decreases n,
{
    if n <= 0 {
        g
    } else {
        row_drawn(
            rows_drawn(g, x, y, rows, color, n - 1),
            x,
            y + n - 1,
            rows[n - 1],
            color,
            rows[n - 1].len() as int,
        )
    }
}

/// Whether a shape whose box stands in row `y` has cells below the field.
pub open spec fn leaves_field(y: int, rows: Seq<Seq<u8>>) -> bool {
    exists|i: int| 0 <= i < rows.len() && (#[trigger] rows[i]).len() > 0 && y + i >= TILE_CANVAS_HEIGHT
}

/// Drawing in a row that the field does not have changes nothing.
pub proof fn lemma_row_drawn_outside(g: Grid, x: int, y: int, cols: Seq<u8>, color: TileColor, n: int)
    requires
        y >= TILE_CANVAS_HEIGHT,
    ensures
        row_drawn(g, x, y, cols, color, n) == g,
    decreases n,
{
    if n > 0 {
        lemma_row_drawn_outside(g, x, y, cols, color, n - 1);
    }
}

/// Once a row of the shape lies below the field, the rows after it change
/// nothing.
pub proof fn lemma_rows_drawn_outside(
    g: Grid,
    x: int,
    y: int,
    rows: Seq<Seq<u8>>,
    color: TileColor,
    i: int,
    n: int,
)
    requires
        0 <= i <= n,
        y + i >= TILE_CANVAS_HEIGHT,
    ensures
        rows_drawn(g, x, y, rows, color, n) == rows_drawn(g, x, y, rows, color, i),
    decreases n,
{
    if n > i {
        lemma_rows_drawn_outside(g, x, y, rows, color, i, n - 1);
        lemma_row_drawn_outside(
            rows_drawn(g, x, y, rows, color, n - 1),
            x,
            y + n - 1,
            rows[n - 1],
            color,
            rows[n - 1].len() as int,
        );
    }
}

impl TileCanvas {
    /// Draws `piece` with the top left corner of its box at (`x`, `y`):
    /// a guarded write of its colour for every cell of its shape, row by
    /// row. Fails where a cell of the shape lies below the field; the rows
    /// above that cell are drawn all the same.
    pub fn draw_piece(&mut self, x: u16, y: u16, piece: &Piece) -> (done: Result<(), TileError>)
        ensures
            final(self)@ == rows_drawn(
                old(self)@,
                x as int,
                y as int,
                piece.rows(),
                piece.1,
                piece.rows().len() as int,
            ),
            done is Err <==> leaves_field(y as int, piece.rows()),
            done is Err ==> done == Err::<(), TileError>(TileError::OutOfBounds),
    {
        let ghost rows = piece.rows();
        let ghost start = self@;
        let rows_len = piece.0.len();
        let mut i: usize = 0;
        while i < rows_len
            invariant
                start == old(self)@,
                rows == piece.rows(),
                rows_len == rows.len(),
                i <= rows_len,
                self@ == rows_drawn(start, x as int, y as int, rows, piece.1, i as int),
                forall|k: int| 0 <= k < i && (#[trigger] rows[k]).len() > 0 ==> y + k < TILE_CANVAS_HEIGHT,
            decreases rows_len - i,
        {
            let row = &piece.0[i];
            assert(row@ == rows[i as int]);
            if row.len() > 0 && (i >= FIELD_HEIGHT as usize || y as usize + i >= FIELD_HEIGHT as usize) {
                proof {
                    lemma_rows_drawn_outside(
                        start,
                        x as int,
                        y as int,
                        rows,
                        piece.1,
                        i as int,
                        rows_len as int,
                    );
                }
                return Err(TileError::OutOfBounds);
            }
            let ghost above = self@;
            let mut k: usize = 0;
            while k < row.len()
                invariant
                    k <= row.len(),
                    i < rows.len(),
                    row@ == rows[i as int],
                    row.len() > 0 ==> y + i < TILE_CANVAS_HEIGHT,
                    self@ == row_drawn(above, x as int, y as int + i as int, row@, piece.1, k as int),
                decreases row.len() - k,
            {
                let _ = self.place(x as u32 + row[k] as u32, y as u32 + i as u32, piece.1);
                k += 1;
            }
            i += 1;
        }
        Ok(())
    }
}

/// The grid after the floor is laid under the first `n` columns between the
/// side walls: each cell of the bottom row takes the wall's colour by a
/// guarded write and is then settled.
pub open spec fn floor_laid(g: Grid, n: int) -> Grid
    decreases n,
{
    if n <= 0 {
        g
    } else {
        with_flag(
            placed(floor_laid(g, n - 1), n + 1, TILE_CANVAS_HEIGHT - 1, TileColor::Gray),
            n + 1,
            TILE_CANVAS_HEIGHT - 1,
            false,
        )
    }
}

/// The grid after the side walls are raised in the first `n` rows: a
/// guarded write of the wall's colour to the second column and to the last
/// but one.
pub open spec fn walls_raised(g: Grid, n: int) -> Grid
    decreases n,
{
    if n <= 0 {
        g
    } else {
        placed(
            placed(walls_raised(g, n - 1), 1, n - 1, TileColor::Gray),
            TILE_CANVAS_WIDTH - 1,
            n - 1,
            TileColor::Gray,
        )
    }
}

/// The grid with floor and side walls built.
pub open spec fn walled(g: Grid) -> Grid {
    walls_raised(floor_laid(g, TILE_CANVAS_WIDTH - 4), TILE_CANVAS_HEIGHT as int)
}

impl TileCanvas {
    /// Builds the floor and the side walls: the bottom row between the
    /// walls becomes settled wall, and the second column and the last but
    /// one become wall from top to bottom. Settled cells keep their colour.
    pub fn build_walls(&mut self)
        ensures
            final(self)@ == walled(old(self)@),
    {
        let ghost g = self@;
        let mut i: u32 = 2;
        while i < FIELD_WIDTH - 2
            invariant
                2 <= i <= FIELD_WIDTH - 2,
                g == old(self)@,
                self@ == floor_laid(g, i - 2),
            decreases FIELD_WIDTH - 2 - i,
        {
            let _ = self.place(i, FIELD_HEIGHT - 1, TileColor::Gray);
            self.mark(i, FIELD_HEIGHT - 1, false);
            i += 1;
        }
        let ghost floored = self@;
        let mut i: u32 = 0;
        while i < FIELD_HEIGHT
            invariant
                i <= FIELD_HEIGHT,
                floored == floor_laid(old(self)@, TILE_CANVAS_WIDTH - 4),
                self@ == walls_raised(floored, i as int),
            decreases FIELD_HEIGHT - i,
        {
            let _ = self.place(1, i, TileColor::Gray);
            let _ = self.place(FIELD_WIDTH - 1, i, TileColor::Gray);
            i += 1;
        }
    }
}

} // verus!
