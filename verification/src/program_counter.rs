//! The program counter: a position on the playfield that moves one cell at a
//! time and wraps around each axis on its own.

use vstd::prelude::*;

verus! {

/// Number of rows of the playfield.
pub const PLAYFIELD_ROWS: usize = 25;

/// Number of columns of the playfield.
pub const PLAYFIELD_COLS: usize = 80;

/// The four directions the program counter can move in.
#[derive(Clone, Copy, Debug, PartialEq, Eq, Structural)]
pub enum Direction {
    Up,
    Down,
    Left,
    Right,
}

impl Direction {
    /// The direction with a number: 0 is up, 1 down, 2 left and 3 right.
    pub open spec fn spec_from_index(i: usize) -> Direction {
        if i == 0 {
            Direction::Up
        } else if i == 1 {
            Direction::Down
        } else if i == 2 {
            Direction::Left
        } else {
            Direction::Right
        }
    }

    /// The direction with a number: 0 is up, 1 down, 2 left and 3 right.
    #[verifier::when_used_as_spec(spec_from_index)]
    pub fn from_index(i: usize) -> (dir: Direction)
        requires
            i < 4,
        ensures
            dir == Direction::spec_from_index(i),
    {
        if i == 0 {
            Direction::Up
        } else if i == 1 {
            Direction::Down
        } else if i == 2 {
            Direction::Left
        } else {
            Direction::Right
        }
    }
}

/// A position on the playfield: column `x` and row `y`.
pub struct Position {
    pub x: int,
    pub y: int,
}

impl Position {
    /// The position lies on the playfield.
    pub open spec fn in_bounds(self) -> bool {
        0 <= self.x < PLAYFIELD_COLS && 0 <= self.y < PLAYFIELD_ROWS
    }

    /// The neighbouring position in a direction, wrapping around the edge
    /// of that axis and leaving the other axis alone.
    pub open spec fn moved(self, dir: Direction) -> Position {
        match dir {
            Direction::Right => Position { x: (self.x + 1) % (PLAYFIELD_COLS as int), y: self.y },
            Direction::Left => Position {
                x: if self.x == 0 { PLAYFIELD_COLS - 1 } else { self.x - 1 },
                y: self.y,
            },
            Direction::Down => Position { x: self.x, y: (self.y + 1) % (PLAYFIELD_ROWS as int) },
            Direction::Up => Position {
                x: self.x,
                y: if self.y == 0 { PLAYFIELD_ROWS - 1 } else { self.y - 1 },
            },
        }
    }
}

/// The program counter. It always lies on the playfield.
#[derive(Debug)]
pub struct ProgramCounter {
    x: usize,
    y: usize,
}

impl View for ProgramCounter {
    type V = Position;

    closed spec fn view(&self) -> Position {
        Position { x: self.x as int, y: self.y as int }
    }
}

impl ProgramCounter {
    /// The program counter lies on the playfield.
    #[verifier::type_invariant]
    pub open spec fn on_playfield(self) -> bool {
        self@.in_bounds()
    }

    /// A program counter at the top left corner.
    pub fn init() -> (pc: ProgramCounter)
        ensures
            pc@ == (Position { x: 0, y: 0 }),
            pc@.in_bounds(),
    {
        ProgramCounter { x: 0, y: 0 }
    }

    /// The column, in `0..80`.
    pub fn x(&self) -> (x: usize)
        ensures
            x == self@.x,
            self@.in_bounds(),
    {
        proof {
            use_type_invariant(self);
        }
        self.x
    }

    /// The row, in `0..25`.
    pub fn y(&self) -> (y: usize)
        ensures
            y == self@.y,
            self@.in_bounds(),
    {
        proof {
            use_type_invariant(self);
        }
        self.y
    }

    /// Moves back to the top left corner.
    pub fn reset(&mut self)
        ensures
            final(self)@ == (Position { x: 0, y: 0 }),
            final(self)@.in_bounds(),
    {
        proof {
            use_type_invariant(&*self);
        }
        self.x = 0;
        self.y = 0;
    }

    /// Moves one column to the right; from the last column to the first.
    pub fn right(&mut self)
        ensures
            old(self)@.in_bounds(),
            final(self)@ == old(self)@.moved(Direction::Right),
            final(self)@.in_bounds(),
    {
        proof {
            use_type_invariant(&*self);
        }
        self.x = (self.x + 1) % PLAYFIELD_COLS;
    }

    /// Moves one column to the left; from the first column to the last.
    pub fn left(&mut self)
        ensures
            old(self)@.in_bounds(),
            final(self)@ == old(self)@.moved(Direction::Left),
            final(self)@.in_bounds(),
    {
        proof {
            use_type_invariant(&*self);
        }
        if self.x == 0 {
            self.x = PLAYFIELD_COLS - 1;
        } else {
            self.x -= 1;
        }
    }

    /// Moves one row down; from the last row to the first.
    pub fn down(&mut self)
        ensures
            old(self)@.in_bounds(),
            final(self)@ == old(self)@.moved(Direction::Down),
            final(self)@.in_bounds(),
    {
        proof {
            use_type_invariant(&*self);
        }
        self.y = (self.y + 1) % PLAYFIELD_ROWS;
    }

    /// Moves one row up; from the first row to the last.
    pub fn up(&mut self)
        ensures
            old(self)@.in_bounds(),
            final(self)@ == old(self)@.moved(Direction::Up),
            final(self)@.in_bounds(),
    {
        proof {
            use_type_invariant(&*self);
        }
        if self.y == 0 {
            self.y = PLAYFIELD_ROWS - 1;
        } else {
            self.y -= 1;
        }
    }
}

} // verus!
