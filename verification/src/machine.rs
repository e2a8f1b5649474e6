//! The engine as a mathematical state machine: what a state is, and what one
//! step does to it. The executable interpreter is proved against this model.

use vstd::prelude::*;
use crate::command::Command;
use crate::decimal::{decimal, spec_parse_i64};
use crate::error::{Axis, Fault, StepError};
use crate::playfield::{blank_grid, grid_put, grid_wf, Grid};
use crate::program_counter::{Direction, Position, PLAYFIELD_COLS, PLAYFIELD_ROWS};
use crate::stack::{below, top};

verus! {

/// What a step that did not fail reports.
#[derive(Clone, Copy, Debug, PartialEq, Eq, Structural)]
pub enum StepResult {
    /// The program goes on.
    Cont,
    /// The program has reached its end.
    Stop,
}

/// The state of the engine.
pub struct State {
    /// The playfield: `grid[y][x]` is the cell in row `y` and column `x`.
    pub grid: Grid,
    /// Where the program counter stands.
    pub pc: Position,
    /// The direction the program counter moves in.
    pub dir: Direction,
    /// The stack, bottom first.
    pub stack: Seq<i64>,
    /// Whether string mode is on.
    pub stringmode: bool,
    /// Everything written so far.
    pub output: Seq<char>,
    /// The input that has not been read yet.
    pub input: Seq<u8>,
}

/// A state after a step, and what the step reported.
pub struct Transition {
    pub next: State,
    pub outcome: Result<StepResult, Fault>,
}

/// The quotient of a division that rounds towards zero, for a divisor that
/// is not zero.
pub open spec fn quotient(x: int, y: int) -> int {
    if x == 0 {
        0
    } else if x > 0 && y > 0 {
        x / y
    } else if x < 0 && y < 0 {
        (-x) / (-y)
    } else if x < 0 {
        -((-x) / y)
    } else {
        -(x / (-y))
    }
}

/// The remainder of a division that rounds towards zero: it has the sign of
/// the dividend.
pub open spec fn remainder(x: int, y: int) -> int {
    if x == 0 {
        0
    } else if x > 0 && y > 0 {
        x % y
    } else if x < 0 && y < 0 {
        -((-x) % (-y))
    } else if x < 0 {
        -((-x) % y)
    } else {
        x % (-y)
    }
}

/// The integer fits in 64 bits.
pub open spec fn fits(v: int) -> bool {
    i64::MIN <= v <= i64::MAX
}

/// The commands that take two operands and leave one result.
pub open spec fn is_binary(op: Command) -> bool {
    op is Add || op is Sub || op is Mul || op is Div || op is Mod || op is Gt
}

/// What a binary command computes from `x`, pushed first, and `y`, pushed
/// last: `x op y`. Division and remainder fail on a divisor of zero. Every
/// command fails where its result does not fit in 64 bits, and so does the
/// remainder where the quotient does not fit: the smallest integer divided
/// by minus one.
pub open spec fn binary(op: Command, x: i64, y: i64) -> Result<i64, Fault> {
    let exact: int = match op {
        Command::Add => x + y,
        Command::Sub => x - y,
        Command::Mul => x * y,
        Command::Div => quotient(x as int, y as int),
        Command::Mod => remainder(x as int, y as int),
        _ => if x > y {
            1
        } else {
            0
        },
    };
    if (op is Div || op is Mod) && y == 0 {
        Err(Fault::DivisionByZero)
    } else if (op is Div || op is Mod) && x == i64::MIN && y == -1 {
        Err(Fault::Overflow)
    } else if !fits(exact) {
        Err(Fault::Overflow)
    } else {
        Ok(exact as i64)
    }
}

/// The character whose code is the low eight bits of `x`.
pub open spec fn low_byte_char(x: i64) -> char {
    ((x as int) % 256) as char
}

/// The number of bytes in front of the first blank of `input`, or the
/// length of `input` if it holds no blank.
pub open spec fn token_len(input: Seq<u8>) -> nat
    decreases input.len(),
{
    if input.len() == 0 || input[0] == 32 {
        0
    } else {
        1 + token_len(input.drop_first())
    }
}

/// `token_len` is where the first blank is: no byte in front of it is a
/// blank, and if it is less than the length, the byte there is a blank.
pub proof fn lemma_token_len(input: Seq<u8>)
    ensures
        token_len(input) <= input.len(),
        forall|j: int| 0 <= j < token_len(input) ==> input[j] != 32,
        token_len(input) < input.len() ==> input[token_len(input) as int] == 32,
    decreases input.len(),
{
    if input.len() == 0 || input[0] == 32 {
    } else {
        let tail = input.drop_first();
        lemma_token_len(tail);
        assert forall|j: int| 0 <= j < token_len(input) implies input[j] != 32 by {
            if j > 0 {
                assert(input[j] == tail[j - 1]);
            }
        }
        if token_len(input) < input.len() {
            assert(input[token_len(input) as int] == tail[token_len(tail) as int]);
        }
    }
}

/// The first blank of an input is at `k` if there is a blank at `k` and
/// none in front of it; an input without a blank has its length as
/// `token_len`.
pub proof fn lemma_token_len_is(input: Seq<u8>, k: int)
    requires
        0 <= k <= input.len(),
        forall|j: int| 0 <= j < k ==> input[j] != 32,
        k < input.len() ==> input[k] == 32,
    ensures
        token_len(input) == k,
{
    lemma_token_len(input);
    let n = token_len(input) as int;
    if n < k {
        assert(input[n] != 32);
    } else if n > k {
        assert(input[k] != 32);
    }
}

/// What a step reported, with the error as a mathematical value.
pub open spec fn reported(r: Result<StepResult, StepError>) -> Result<StepResult, Fault> {
    match r {
        Ok(result) => Ok(result),
        Err(error) => Err(error@),
    }
}

/// What a command reported, with the error as a mathematical value.
pub open spec fn signalled(r: Result<(), StepError>) -> Result<(), Fault> {
    match r {
        Ok(()) => Ok(()),
        Err(error) => Err(error@),
    }
}

impl State {
    /// The transition that ends in this state: after a command that went
    /// well the program counter still moves on; after one that failed it
    /// does not.
    pub open spec fn concluded(self, r: Result<(), Fault>) -> Transition {
        match r {
            Ok(()) => self.proceed(),
            Err(fault) => self.fail(fault),
        }
    }

    /// The state of a new engine: a blank playfield, the program counter in
    /// the top left corner and heading right, nothing on the stack, nothing
    /// written and no input.
    pub open spec fn initial() -> State {
        State {
            grid: blank_grid(),
            pc: Position { x: 0, y: 0 },
            dir: Direction::Right,
            stack: Seq::empty(),
            stringmode: false,
            output: Seq::empty(),
            input: Seq::empty(),
        }
    }

    /// The playfield has its size, every cell holds a command that stands
    /// for a byte, and the program counter is on the playfield.
    pub open spec fn wf(self) -> bool {
        grid_wf(self.grid) && self.pc.in_bounds()
    }

    /// The command under the program counter.
    pub open spec fn current(self) -> Command {
        self.grid[self.pc.y][self.pc.x]
    }

    /// The state with another stack.
    pub open spec fn with_stack(self, stack: Seq<i64>) -> State {
        State { stack, ..self }
    }

    /// The state with another direction.
    pub open spec fn with_dir(self, dir: Direction) -> State {
        State { dir, ..self }
    }

    /// The state with the program counter one cell further in the current
    /// direction.
    pub open spec fn advanced(self) -> State {
        State { pc: self.pc.moved(self.dir), ..self }
    }

    /// The step went well: the program counter moves on and the program
    /// continues.
    pub open spec fn proceed(self) -> Transition {
        Transition { next: self.advanced(), outcome: Ok(StepResult::Cont) }
    }

    /// The step failed: the program counter stays where it is.
    pub open spec fn fail(self, fault: Fault) -> Transition {
        Transition { next: self, outcome: Err(fault) }
    }

    /// The next step will read input that is not there yet: a character
    /// from an empty input, or an integer from an input without a blank.
    pub open spec fn needs_input(self) -> bool {
        &&& !self.stringmode
        &&& {
            ||| self.current() is InC && self.input.len() == 0
            ||| self.current() is InI && token_len(self.input) == self.input.len()
        }
    }

    /// The state in which a run starts: the program counter in the top left
    /// corner, the stack and the output empty, everything else as it is.
    pub open spec fn started(self) -> State {
        State {
            pc: Position { x: 0, y: 0 },
            stack: Seq::empty(),
            output: Seq::empty(),
            ..self
        }
    }

    /// One step in string mode: a quote ends string mode, any other command
    /// is pushed as its byte.
    pub open spec fn step_string(self) -> Transition {
        if self.current() is Str {
            (State { stringmode: false, ..self }).proceed()
        } else {
            self.with_stack(self.stack.push(self.current().spec_encode() as i64)).proceed()
        }
    }

    /// `Get`: pops the row, then the column, and pushes the byte of the
    /// command in that cell.
    pub open spec fn step_get(self) -> Transition {
        let y = top(self.stack);
        let x = top(below(self.stack));
        let rest = below(below(self.stack));
        if !(0 <= x < PLAYFIELD_COLS) {
            self.with_stack(rest).fail(Fault::Coordinate { command: Command::Get, axis: Axis::X, value: x })
        } else if !(0 <= y < PLAYFIELD_ROWS) {
            self.with_stack(rest).fail(Fault::Coordinate { command: Command::Get, axis: Axis::Y, value: y })
        } else {
            self.with_stack(rest.push(self.grid[y as int][x as int].spec_encode() as i64)).proceed()
        }
    }

    /// `Put`: pops the row, then the column, then a value, and stores the
    /// command that the value stands for in that cell.
    pub open spec fn step_put(self) -> Transition {
        let y = top(self.stack);
        let x = top(below(self.stack));
        let rest = below(below(self.stack));
        let value = top(rest);
        if !(0 <= x < PLAYFIELD_COLS) {
            self.with_stack(rest).fail(Fault::Coordinate { command: Command::Put, axis: Axis::X, value: x })
        } else if !(0 <= y < PLAYFIELD_ROWS) {
            self.with_stack(rest).fail(Fault::Coordinate { command: Command::Put, axis: Axis::Y, value: y })
        } else if !(0 <= value <= 255) {
            self.with_stack(below(rest)).fail(Fault::ValueTooLarge { value })
        } else {
            (State {
                grid: grid_put(self.grid, x as int, y as int, Command::spec_decode(value as u8)),
                stack: below(rest),
                ..self
            }).proceed()
        }
    }

    /// `InI`: reads the input up to its first blank, and the blank, and
    /// pushes the integer that the text in front of the blank writes.
    /// Without a blank it reads all the input and fails.
    pub open spec fn step_read_integer(self) -> Transition {
        let n = token_len(self.input) as int;
        if n < self.input.len() {
            let text = self.input.take(n);
            let after = State { input: self.input.skip(n + 1), ..self };
            match spec_parse_i64(text) {
                Some(v) => after.with_stack(self.stack.push(v)).proceed(),
                None => after.fail(Fault::MalformedInteger { text }),
            }
        } else {
            (State { input: Seq::empty(), ..self }).fail(Fault::EndOfInput)
        }
    }

    /// `InC`: reads one byte of input and pushes it.
    pub open spec fn step_read_char(self) -> Transition {
        if self.input.len() > 0 {
            (State {
                input: self.input.drop_first(),
                stack: self.stack.push(self.input[0] as i64),
                ..self
            }).proceed()
        } else {
            self.fail(Fault::EndOfInput)
        }
    }

    /// One step outside string mode. `choice` is the direction that `Rand`
    /// takes; no other command looks at it.
    pub open spec fn step_command(self, choice: Direction) -> Transition {
        let cmd = self.current();
        let a = top(self.stack);
        let b = top(below(self.stack));
        let rest = below(self.stack);
        match cmd {
            Command::Add | Command::Sub | Command::Mul | Command::Div | Command::Mod | Command::Gt => {
                match binary(cmd, b, a) {
                    Ok(v) => self.with_stack(below(rest).push(v)).proceed(),
                    Err(fault) => self.with_stack(below(rest)).fail(fault),
                }
            },
            Command::Not => self.with_stack(
                rest.push(
                    if a == 0 {
                        1
                    } else {
                        0
                    },
                ),
            ).proceed(),
            Command::Right => self.with_dir(Direction::Right).proceed(),
            Command::Left => self.with_dir(Direction::Left).proceed(),
            Command::Up => self.with_dir(Direction::Up).proceed(),
            Command::Down => self.with_dir(Direction::Down).proceed(),
            Command::Rand => self.with_dir(choice).proceed(),
            Command::IfH => self.with_stack(rest).with_dir(
                if a == 0 {
                    Direction::Right
                } else {
                    Direction::Left
                },
            ).proceed(),
            Command::IfV => self.with_stack(rest).with_dir(
                if a == 0 {
                    Direction::Down
                } else {
                    Direction::Up
                },
            ).proceed(),
            Command::Str => (State { stringmode: true, ..self }).proceed(),
            Command::Dup => self.with_stack(self.stack.push(a)).proceed(),
            Command::Swap => self.with_stack(below(rest).push(a).push(b)).proceed(),
            Command::Pop => self.with_stack(rest).proceed(),
            Command::OutI => (State {
                stack: rest,
                output: (self.output + decimal(a as int)).push(' '),
                ..self
            }).proceed(),
            Command::OutC => (State {
                stack: rest,
                output: self.output.push(low_byte_char(a)),
                ..self
            }).proceed(),
            Command::InI => self.step_read_integer(),
            Command::InC => self.step_read_char(),
            Command::Bri => self.advanced().proceed(),
            Command::Space => self.proceed(),
            Command::Num(n) => self.with_stack(self.stack.push(n as i64)).proceed(),
            Command::Char(c) => if '0' <= c && c <= '9' {
                self.with_stack(self.stack.push((c as int - 48) as i64)).proceed()
            } else {
                self.fail(Fault::NotADigit { c })
            },
            Command::Get => self.step_get(),
            Command::Put => self.step_put(),
            Command::End => Transition { next: self, outcome: Ok(StepResult::Stop) },
        }
    }

    /// One step: the command under the program counter is executed, or, in
    /// string mode, pushed; then the program counter moves one cell in the
    /// current direction. A step that fails or that finds the end of the
    /// program leaves the program counter where it is.
    pub open spec fn step(self, choice: Direction) -> Transition {
        if self.stringmode {
            self.step_string()
        } else {
            self.step_command(choice)
        }
    }
}

/// A step leads from `a` to `b` and lets the program continue.
pub open spec fn continues(a: State, b: State) -> bool {
    exists|choice: Direction| a.step(choice) == (Transition { next: b, outcome: Ok(StepResult::Cont) })
}

/// A step from `a` finds the end of the program.
pub open spec fn halts(a: State) -> bool {
    exists|choice: Direction| a.step(choice) == (Transition { next: a, outcome: Ok(StepResult::Stop) })
}

/// A step from `a` fails with `fault` and leaves the state `b`.
pub open spec fn fails(a: State, b: State, fault: Fault) -> bool {
    exists|choice: Direction| a.step(choice) == (Transition { next: b, outcome: Err(fault) })
}

/// The states of a run that begins in `start`: each one follows from the
/// one before by a step that lets the program continue.
pub open spec fn is_trace(states: Seq<State>, start: State) -> bool {
    &&& states.len() > 0
    &&& states[0] == start
    &&& forall|k: int| 0 <= k < states.len() - 1 ==> continues(states[k], #[trigger] states[k + 1])
}

} // verus!
