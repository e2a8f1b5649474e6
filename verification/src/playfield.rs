//! The playfield: 25 rows of 80 cells, each holding one command. It stores
//! both the program and its data.

use vstd::prelude::*;
use crate::command::Command;
use crate::program_counter::{Position, PLAYFIELD_COLS, PLAYFIELD_ROWS};

verus! {

/// The contents of a playfield as rows of cells: `grid[y][x]` is the cell in
/// row `y` and column `x`.
pub type Grid = Seq<Seq<Command>>;

/// The grid has 25 rows of 80 cells and every cell holds a command that
/// stands for a byte.
pub open spec fn grid_wf(grid: Grid) -> bool {
    &&& grid.len() == PLAYFIELD_ROWS
    &&& forall|y: int| 0 <= y < PLAYFIELD_ROWS ==> (#[trigger] grid[y]).len() == PLAYFIELD_COLS
    &&& forall|y: int, x: int|
        0 <= y < PLAYFIELD_ROWS && 0 <= x < PLAYFIELD_COLS ==> (#[trigger] grid[y][x]).is_byte()
}

/// The grid in which every cell is blank.
pub open spec fn blank_grid() -> Grid {
    Seq::new(PLAYFIELD_ROWS as nat, |y: int| Seq::new(PLAYFIELD_COLS as nat, |x: int| Command::Space))
}

/// The grid with the cell in column `x` of row `y` replaced.
pub open spec fn grid_put(grid: Grid, x: int, y: int, cmd: Command) -> Grid {
    grid.update(y, grid[y].update(x, cmd))
}

/// A grid that is being filled from a source text, and the cell that the
/// next byte of the text goes to.
pub struct Layout {
    pub grid: Grid,
    pub at: Position,
}

/// One byte more laid out. A newline moves to the start of the next row
/// and fills no cell. Any other byte is decoded into the current cell, and
/// the cell after it is the next one of the row, or the first of the next
/// row after the last column. After the last row comes the first one.
pub open spec fn place(layout: Layout, b: u8) -> Layout {
    let next_row = (layout.at.y + 1) % (PLAYFIELD_ROWS as int);
    if b == 10 {
        Layout { grid: layout.grid, at: Position { x: 0, y: next_row } }
    } else {
        let next_col = (layout.at.x + 1) % (PLAYFIELD_COLS as int);
        Layout {
            grid: grid_put(layout.grid, layout.at.x, layout.at.y, Command::spec_decode(b)),
            at: Position {
                x: next_col,
                y: if next_col == 0 {
                    next_row
                } else {
                    layout.at.y
                },
            },
        }
    }
}

/// A source text laid out over a grid, byte by byte from the top left
/// corner. Cells that the text does not reach keep what they held.
pub open spec fn laid_out(grid: Grid, source: Seq<u8>) -> Layout
    decreases source.len(),
{
    if source.len() == 0 {
        Layout { grid, at: Position { x: 0, y: 0 } }
    } else {
        place(laid_out(grid, source.drop_last()), source.last())
    }
}

/// The grid after a source text has been loaded over it.
pub open spec fn loaded(grid: Grid, source: Seq<u8>) -> Grid {
    laid_out(grid, source).grid
}

/// The playfield.
pub struct Playfield {
    cells: [[Command; PLAYFIELD_COLS]; PLAYFIELD_ROWS],
}

impl View for Playfield {
    type V = Grid;

    closed spec fn view(&self) -> Grid {
        Seq::new(PLAYFIELD_ROWS as nat, |y: int| self.cells[y]@)
    }
}

impl Playfield {
    /// Every cell holds a command that stands for a byte.
    #[verifier::type_invariant]
    pub closed spec fn well_formed(self) -> bool {
        forall|y: int, x: int|
            0 <= y < PLAYFIELD_ROWS && 0 <= x < PLAYFIELD_COLS ==> (#[trigger] self.cells[y][x]).is_byte()
    }

    /// What a well-formed playfield holds is a well-formed grid.
    pub proof fn lemma_well_formed(self)
        requires
            self.well_formed(),
        ensures
            grid_wf(self@),
    {
    }

    /// A playfield of blank cells.
    pub fn new() -> (field: Playfield)
        ensures
            field@ == blank_grid(),
            grid_wf(field@),
    {
        let field = Playfield { cells: [[Command::Space; PLAYFIELD_COLS]; PLAYFIELD_ROWS] };
        assert(field@ =~~= blank_grid());
        field
    }

    /// The command in column `x` of row `y`.
    pub fn get(&self, x: usize, y: usize) -> (cmd: Command)
        requires
            x < PLAYFIELD_COLS,
            y < PLAYFIELD_ROWS,
        ensures
            cmd == self@[y as int][x as int],
            cmd.is_byte(),
            grid_wf(self@),
    {
        proof {
            use_type_invariant(self);
        }
        self.cells[y][x]
    }

    /// Replaces the command in column `x` of row `y`.
    pub fn set(&mut self, x: usize, y: usize, cmd: Command)
        requires
            x < PLAYFIELD_COLS,
            y < PLAYFIELD_ROWS,
            cmd.is_byte(),
        ensures
            final(self)@ == grid_put(old(self)@, x as int, y as int, cmd),
            grid_wf(final(self)@),
    {
        proof {
            use_type_invariant(&*self);
        }
        self.cells[y][x] = cmd;
        assert(self@ =~~= grid_put(old(self)@, x as int, y as int, cmd));
    }

    /// Loads a source text over the playfield, from the top left corner,
    /// left to right and top to bottom. A text that is longer than the
    /// playfield wraps around and overwrites what it wrote first.
    pub fn load(&mut self, source: &[u8])
        ensures
            final(self)@ == loaded(old(self)@, source@),
            grid_wf(final(self)@),
    {
        let mut x: usize = 0;
        let mut y: usize = 0;
        let mut i: usize = 0;
        while i < source.len()
            invariant
                i <= source.len(),
                x < PLAYFIELD_COLS,
                y < PLAYFIELD_ROWS,
                (Layout { grid: self@, at: Position { x: x as int, y: y as int } }) == laid_out(
                    old(self)@,
                    source@.take(i as int),
                ),
            decreases source.len() - i,
        {
            let item = source[i];
            assert(source@.take(i + 1).drop_last() =~= source@.take(i as int));
            if item == 10 {
                x = 0;
                y = (y + 1) % PLAYFIELD_ROWS;
            } else {
                self.set(x, y, Command::decode(item));
                x = (x + 1) % PLAYFIELD_COLS;
                if x == 0 {
                    y = (y + 1) % PLAYFIELD_ROWS;
                }
            }
            i += 1;
        }
        assert(source@.take(i as int) =~= source@);
        proof {
            use_type_invariant(&*self);
        }
        assert(grid_wf(self@));
    }
}

} // verus!
