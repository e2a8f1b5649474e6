//! The interpreter: the executable engine, proved to do in every step what
//! the state machine says.

use std::collections::VecDeque;
use vstd::prelude::*;
use rand::rngs::SmallRng;
use crate::command::Command;
use crate::decimal::{decimal, parse_i64, push_decimal};
use crate::error::{Axis, RunError, StepError};
use crate::machine::{
    binary, continues, fails, halts, is_binary, is_trace, lemma_token_len_is, low_byte_char,
    reported, signalled, State, StepResult, Transition,
};
use crate::playfield::{loaded, Playfield};
use crate::program_counter::{Direction, ProgramCounter, PLAYFIELD_COLS, PLAYFIELD_ROWS};
use crate::random::{entropy_rng, random_in_range};
use crate::stack::{below, top, Stack};

verus! {

/// What a binary command computes from its operands.
fn compute(op: Command, x: i64, y: i64) -> (r: Result<i64, StepError>)
    requires
        is_binary(op),
    ensures
        match binary(op, x, y) {
            Ok(v) => r == Ok::<i64, StepError>(v),
            Err(fault) => r matches Err(error) && error@ == fault,
        },
{
    let result = match op {
        Command::Add => x.checked_add(y),
        Command::Sub => x.checked_sub(y),
        Command::Mul => x.checked_mul(y),
        Command::Div => {
            if y == 0 {
                return Err(StepError::DivisionByZero);
            }
            if x == i64::MIN && y == -1 {
                return Err(StepError::Overflow);
            }
            x.checked_div(y)
        },
        Command::Mod => {
            if y == 0 {
                return Err(StepError::DivisionByZero);
            }
            x.checked_rem(y)
        },
        _ => Some(
            if x > y {
                1
            } else {
                0
            },
        ),
    };
    match result {
        Some(v) => Ok(v),
        None => Err(StepError::Overflow),
    }
}

/// A Befunge-93 interpreter.
pub struct Interpreter {
    /// The playfield to work on. Acts as code and data storage.
    playfield: Playfield,
    /// The program counter.
    pc: ProgramCounter,
    /// The direction the program counter is moving in.
    dir: Direction,
    /// The stack.
    stack: Stack,
    /// Whether string mode is active.
    stringmode: bool,
    /// The generator used for `?`.
    rng: SmallRng,
    /// The current output.
    output: String,
    /// The input that has been fed and not read yet.
    input: VecDeque<u8>,
}

impl View for Interpreter {
    type V = State;

    closed spec fn view(&self) -> State {
        State {
            grid: self.playfield@,
            pc: self.pc@,
            dir: self.dir,
            stack: self.stack@,
            stringmode: self.stringmode,
            output: self.output@,
            input: self.input@,
        }
    }
}

impl Default for Interpreter {
    fn default() -> (interpreter: Interpreter)
        ensures
            interpreter@ == State::initial(),
            interpreter@.wf(),
    {
        Interpreter::new()
    }
}

impl Interpreter {
    /// Create a new empty interpreter.
    pub fn new() -> (interpreter: Interpreter)
        ensures
            interpreter@ == State::initial(),
            interpreter@.wf(),
    {
        Interpreter {
            playfield: Playfield::new(),
            pc: ProgramCounter::init(),
            dir: Direction::Right,
            stack: Stack::new(),
            stringmode: false,
            rng: entropy_rng(),
            output: String::new(),
            input: VecDeque::new(),
        }
    }

    /// Loads a source text over the playfield, from the top left corner.
    /// A newline starts the next row; a text that is longer than the
    /// playfield wraps around. Nothing but the playfield changes.
    pub fn load(&mut self, source: &[u8])
        ensures
            final(self)@ == (State { grid: loaded(old(self)@.grid, source@), ..old(self)@ }),
            final(self)@.wf(),
    {
        proof {
            use_type_invariant(&self.pc);
        }
        self.playfield.load(source);
    }

    /// Get a copy of the current stack.
    pub fn get_stack(&self) -> (stack: Stack)
        ensures
            stack@ == self@.stack,
    {
        self.stack.clone()
    }

    /// Inspect the current output.
    pub fn get_output(&self) -> (output: &str)
        ensures
            output@ == self@.output,
    {
        self.output.as_str()
    }

    /// Get the current command.
    pub fn get_current_command(&self) -> (cmd: Command)
        ensures
            cmd == self@.current(),
            cmd.is_byte(),
            self@.wf(),
    {
        self.playfield.get(self.pc.x(), self.pc.y())
    }

    /// The column and the row of the program counter.
    pub fn position(&self) -> (at: (usize, usize))
        ensures
            at.0 == self@.pc.x,
            at.1 == self@.pc.y,
            self@.pc.in_bounds(),
    {
        (self.pc.x(), self.pc.y())
    }

    /// The direction the program counter is moving in.
    pub fn direction(&self) -> (dir: Direction)
        ensures
            dir == self@.dir,
    {
        self.dir
    }

    /// Whether string mode is active.
    pub fn string_mode(&self) -> (on: bool)
        ensures
            on == self@.stringmode,
    {
        self.stringmode
    }

    /// The command in column `x` of row `y` of the playfield.
    pub fn cell(&self, x: usize, y: usize) -> (cmd: Command)
        requires
            x < PLAYFIELD_COLS,
            y < PLAYFIELD_ROWS,
        ensures
            cmd == self@.grid[y as int][x as int],
            cmd.is_byte(),
    {
        self.playfield.get(x, y)
    }

    /// The number of bytes of input that have been fed and not read yet.
    pub fn pending_input(&self) -> (n: usize)
        ensures
            n == self@.input.len(),
    {
        self.input.len()
    }

    /// Appends bytes to the input that `InC` and `InI` read from.
    pub fn feed_input(&mut self, bytes: &[u8])
        ensures
            final(self)@ == (State { input: old(self)@.input + bytes@, ..old(self)@ }),
    {
        let mut i: usize = 0;
        while i < bytes.len()
            invariant
                i <= bytes.len(),
                self@ == (State { input: old(self)@.input + bytes@.take(i as int), ..old(self)@ }),
            decreases bytes.len() - i,
        {
            self.input.push_back(bytes[i]);
            i += 1;
            assert(bytes@.take(i as int) =~= bytes@.take(i - 1).push(bytes[i - 1]));
            assert(old(self)@.input + bytes@.take(i as int) =~= (old(self)@.input + bytes@.take(
                i - 1,
            )).push(bytes[i - 1]));
        }
        assert(bytes@.take(i as int) =~= bytes@);
    }

    /// Moves the program counter one cell in the current direction.
    fn advance_pc(&mut self)
        ensures
            final(self)@ == old(self)@.advanced(),
    {
        match self.dir {
            Direction::Right => self.pc.right(),
            Direction::Left => self.pc.left(),
            Direction::Up => self.pc.up(),
            Direction::Down => self.pc.down(),
        }
    }

    /// Pops two operands, and pushes what a binary command makes of them.
    fn binop(&mut self, op: Command) -> (r: Result<(), StepError>)
        requires
            is_binary(op),
        ensures
            final(self)@.with_stack(old(self)@.stack) == old(self)@,
            match binary(op, top(below(old(self)@.stack)), top(old(self)@.stack)) {
                Ok(v) => r is Ok && final(self)@.stack == below(below(old(self)@.stack)).push(v),
                Err(fault) => r matches Err(error) && error@ == fault && final(self)@.stack == below(
                    below(old(self)@.stack),
                ),
            },
    {
        let y = self.stack.pop();
        let x = self.stack.pop();
        match compute(op, x, y) {
            Ok(v) => {
                self.stack.push(v);
                Ok(())
            },
            Err(error) => Err(error),
        }
    }

    /// `Get`: pops the row, then the column, and pushes the byte of the
    /// command in that cell.
    fn get_cell(&mut self) -> (r: Result<(), StepError>)
        ensures
            old(self)@.step_get() == final(self)@.concluded(signalled(r)),
    {
        let y = self.stack.pop();
        let x = self.stack.pop();
        if x < 0 || x >= PLAYFIELD_COLS as i64 {
            return Err(StepError::Coordinate { command: Command::Get, axis: Axis::X, value: x });
        } else if y < 0 || y >= PLAYFIELD_ROWS as i64 {
            return Err(StepError::Coordinate { command: Command::Get, axis: Axis::Y, value: y });
        }
        let cmd = self.playfield.get(x as usize, y as usize);
        self.stack.push(cmd.encode() as i64);
        Ok(())
    }

    /// `Put`: pops the row, then the column, then a value, and stores the
    /// command that the value stands for in that cell.
    fn put_cell(&mut self) -> (r: Result<(), StepError>)
        ensures
            old(self)@.step_put() == final(self)@.concluded(signalled(r)),
    {
        let y = self.stack.pop();
        let x = self.stack.pop();
        if x < 0 || x >= PLAYFIELD_COLS as i64 {
            return Err(StepError::Coordinate { command: Command::Put, axis: Axis::X, value: x });
        } else if y < 0 || y >= PLAYFIELD_ROWS as i64 {
            return Err(StepError::Coordinate { command: Command::Put, axis: Axis::Y, value: y });
        }
        let value = self.stack.pop();
        if value < 0 || value > 255 {
            return Err(StepError::ValueTooLarge { value });
        }
        self.playfield.set(x as usize, y as usize, Command::decode(value as u8));
        Ok(())
    }

    /// `InC`: reads one byte of input and pushes it.
    fn read_char(&mut self) -> (r: Result<(), StepError>)
        ensures
            old(self)@.step_read_char() == final(self)@.concluded(signalled(r)),
    {
        match self.input.pop_front() {
            Some(b) => {
                self.stack.push(b as i64);
                Ok(())
            },
            None => Err(StepError::EndOfInput),
        }
    }

    /// `InI`: reads the input up to its first blank, and pushes the integer
    /// that the text in front of the blank writes.
    fn read_integer(&mut self) -> (r: Result<(), StepError>)
        ensures
            old(self)@.step_read_integer() == final(self)@.concluded(signalled(r)),
    {
        let mut text: Vec<u8> = Vec::new();
        assert(old(self)@.input.skip(0) =~= old(self)@.input);
        assert(old(self)@.input.take(0) =~= text@);
        loop
            invariant
                text@.len() <= old(self)@.input.len(),
                text@ == old(self)@.input.take(text@.len() as int),
                self@ == (State { input: old(self)@.input.skip(text@.len() as int), ..old(self)@ }),
                forall|j: int| 0 <= j < text@.len() ==> old(self)@.input[j] != 32,
            decreases self@.input.len(),
        {
            let ghost seen = text@.len() as int;
            match self.input.pop_front() {
                None => {
                    proof {
                        lemma_token_len_is(old(self)@.input, seen);
                        assert(self@.input =~= Seq::<u8>::empty());
                    }
                    return Err(StepError::EndOfInput);
                },
                Some(b) => {
                    assert(b == old(self)@.input[seen]);
                    assert(self@.input =~= old(self)@.input.skip(seen + 1));
                    if b == 32 {
                        proof {
                            lemma_token_len_is(old(self)@.input, seen);
                        }
                        return match parse_i64(text.as_slice()) {
                            Some(v) => {
                                self.stack.push(v);
                                Ok(())
                            },
                            None => Err(StepError::MalformedInteger { text }),
                        };
                    }
                    text.push(b);
                    assert(text@ =~= old(self)@.input.take(seen + 1));
                },
            }
        }
    }

    /// `OutI`: pops a value and writes it in decimal, followed by a blank.
    fn write_integer(&mut self)
        ensures
            final(self)@ == (State {
                stack: below(old(self)@.stack),
                output: (old(self)@.output + decimal(top(old(self)@.stack) as int)).push(' '),
                ..old(self)@
            }),
    {
        let x = self.stack.pop();
        push_decimal(&mut self.output, x);
        self.output.push(' ');
    }

    /// `OutC`: pops a value and writes the character whose code is its low
    /// eight bits.
    fn write_char(&mut self)
        ensures
            final(self)@ == (State {
                stack: below(old(self)@.stack),
                output: old(self)@.output.push(low_byte_char(top(old(self)@.stack))),
                ..old(self)@
            }),
    {
        let x = self.stack.pop();
        let b: u8 = #[verifier::truncate] (x as u8);
        assert(b == ((x as int) % 256) as u8) by (bit_vector)
            requires
                b == x as u8,
        ;
        self.output.push(b as char);
    }

    /// Whether the next step will read input that has not been fed yet: a
    /// character from an empty input, or an integer from an input without a
    /// blank. Such a step fails with `EndOfInput`.
    pub fn needs_input(&self) -> (needed: bool)
        ensures
            needed == self@.needs_input(),
    {
        if self.stringmode {
            return false;
        }
        match self.playfield.get(self.pc.x(), self.pc.y()) {
            Command::InC => self.input.len() == 0,
            Command::InI => {
                let n = self.input.len();
                let mut i: usize = 0;
                while i < n
                    invariant
                        i <= n,
                        n == self.input@.len(),
                        forall|j: int| 0 <= j < i ==> self.input@[j] != 32,
                    decreases n - i,
                {
                    if self.input[i] == 32 {
                        proof {
                            lemma_token_len_is(self.input@, i as int);
                        }
                        return false;
                    }
                    i += 1;
                }
                proof {
                    lemma_token_len_is(self.input@, n as int);
                }
                true
            },
            _ => false,
        }
    }

    /// Makes one step, in which `Rand` takes the direction `choice`. No
    /// other command looks at `choice`.
    pub fn step_with(&mut self, choice: Direction) -> (r: Result<StepResult, StepError>)
        ensures
            old(self)@.step(choice) == (Transition { next: final(self)@, outcome: reported(r) }),
            old(self)@.wf(),
            final(self)@.wf(),
    {
        let cmd = self.playfield.get(self.pc.x(), self.pc.y());
        if self.stringmode {
            if let Command::Str = cmd {
                self.stringmode = false;
            } else {
                self.stack.push(cmd.encode() as i64);
            }
            self.advance_pc();
            proof {
                use_type_invariant(&self.pc);
                use_type_invariant(&self.playfield);
                self.playfield.lemma_well_formed();
            }
            return Ok(StepResult::Cont);
        }
        let done: Result<(), StepError> = match cmd {
            Command::Add | Command::Sub | Command::Mul | Command::Div | Command::Mod | Command::Gt => {
                self.binop(cmd)
            },
            Command::Not => {
                let x = self.stack.pop();
                self.stack.push(
                    if x == 0 {
                        1
                    } else {
                        0
                    },
                );
                Ok(())
            },
            Command::Right => {
                self.dir = Direction::Right;
                Ok(())
            },
            Command::Left => {
                self.dir = Direction::Left;
                Ok(())
            },
            Command::Up => {
                self.dir = Direction::Up;
                Ok(())
            },
            Command::Down => {
                self.dir = Direction::Down;
                Ok(())
            },
            Command::Rand => {
                self.dir = choice;
                Ok(())
            },
            Command::IfH => {
                let x = self.stack.pop();
                self.dir = if x == 0 {
                    Direction::Right
                } else {
                    Direction::Left
                };
                Ok(())
            },
            Command::IfV => {
                let x = self.stack.pop();
                self.dir = if x == 0 {
                    Direction::Down
                } else {
                    Direction::Up
                };
                Ok(())
            },
            Command::Str => {
                self.stringmode = !self.stringmode;
                Ok(())
            },
            Command::Dup => {
                let x = self.stack.peek();
                self.stack.push(x);
                Ok(())
            },
            Command::Swap => {
                let x = self.stack.pop();
                let y = self.stack.pop();
                self.stack.push(x);
                self.stack.push(y);
                Ok(())
            },
            Command::Pop => {
                self.stack.pop();
                Ok(())
            },
            Command::OutI => {
                self.write_integer();
                Ok(())
            },
            Command::OutC => {
                self.write_char();
                Ok(())
            },
            Command::InI => self.read_integer(),
            Command::InC => self.read_char(),
            Command::Bri => {
                self.advance_pc();
                Ok(())
            },
            Command::Space => Ok(()),
            Command::Num(n) => {
                self.stack.push(n as i64);
                Ok(())
            },
            Command::Char(c) => {
                if '0' <= c && c <= '9' {
                    self.stack.push(((c as u8) - 48) as i64);
                    Ok(())
                } else {
                    Err(StepError::NotADigit { c })
                }
            },
            Command::Get => self.get_cell(),
            Command::Put => self.put_cell(),
            Command::End => {
                proof {
                    use_type_invariant(&self.pc);
                    use_type_invariant(&self.playfield);
                    self.playfield.lemma_well_formed();
                }
                return Ok(StepResult::Stop);
            },
        };
        proof {
            use_type_invariant(&self.playfield);
            self.playfield.lemma_well_formed();
        }
        match done {
            Ok(()) => {
                self.advance_pc();
                proof {
                    use_type_invariant(&self.pc);
                }
                Ok(StepResult::Cont)
            },
            Err(error) => {
                proof {
                    use_type_invariant(&self.pc);
                }
                Err(error)
            },
        }
    }

    /// Makes one step: executes the command under the program counter, or
    /// pushes it in string mode, and moves the program counter on. `Rand`
    /// takes a direction drawn at random.
    pub fn step(&mut self) -> (r: Result<StepResult, StepError>)
        ensures
            exists|choice: Direction|
                old(self)@.step(choice) == (Transition { next: final(self)@, outcome: reported(r) }),
            old(self)@.wf(),
            final(self)@.wf(),
    {
        let cmd = self.playfield.get(self.pc.x(), self.pc.y());
        let choice = match cmd {
            Command::Rand => if self.stringmode {
                Direction::Right
            } else {
                Direction::from_index(random_in_range(&mut self.rng, 0, 4))
            },
            _ => Direction::Right,
        };
        assert(self@ == old(self)@);
        let r = self.step_with(choice);
        assert(old(self)@.step(choice) == (Transition { next: self@, outcome: reported(r) }));
        r
    }

    /// Makes ready for a run: the program counter goes to the top left
    /// corner, the stack and the output are emptied. The playfield, the
    /// direction, string mode and the input stay as they are.
    pub fn reset(&mut self)
        ensures
            final(self)@ == old(self)@.started(),
            final(self)@.wf(),
    {
        proof {
            use_type_invariant(&self.playfield);
            self.playfield.lemma_well_formed();
        }
        self.pc.reset();
        self.stack.reset();
        self.output = String::new();
    }

    /// The caller's function, asked after step `n` of a run that had led to
    /// the state `state`, gave the answer `go_on`.
    pub open spec fn answered<F: Fn(&Interpreter, usize) -> bool>(
        f: F,
        state: State,
        n: int,
        go_on: bool,
    ) -> bool {
        exists|at: Interpreter| at@ == state && 0 < n <= usize::MAX && call_ensures(f, (&at, n as usize), go_on)
    }

    /// What a run has done when it returns `r`, having made the steps that
    /// led through `states` and having left the state `end`: every step but
    /// the last let the program continue and was approved by `f`; the run
    /// ended because the program reached its end, because `f` said so,
    /// because a step failed, or because the steps could not be counted any
    /// further.
    pub open spec fn ran<F: Fn(&Interpreter, usize) -> bool>(
        f: F,
        start: State,
        states: Seq<State>,
        end: State,
        r: Result<(), RunError>,
    ) -> bool {
        let n = states.len() - 1;
        &&& is_trace(states, start)
        &&& forall|k: int| 0 < k < n ==> Self::answered(f, #[trigger] states[k], k, true)
        &&& match r {
            Ok(()) => {
                &&& end == states[n]
                &&& {
                    ||| halts(end) && (n > 0 ==> Self::answered(f, end, n, true))
                    ||| n > 0 && Self::answered(f, end, n, false)
                }
            },
            Err(RunError::Step { x, y, error }) => {
                &&& n > 0 ==> Self::answered(f, states[n], n, true)
                &&& fails(states[n], end, error@)
                &&& x == states[n].pc.x
                &&& y == states[n].pc.y
            },
            Err(RunError::StepLimit) => {
                &&& end == states[n]
                &&& n == usize::MAX
                &&& Self::answered(f, end, n, true)
            },
        }
    }

    /// Runs the program from the top left corner, with an empty stack and
    /// an empty output. After every step that lets the program continue,
    /// `f` is called with the interpreter and the number of steps made so
    /// far; the run ends when `f` returns `false`, when a step finds the end
    /// of the program, or with the error of a step that fails and the place
    /// where it failed.
    pub fn run<F: Fn(&Interpreter, usize) -> bool>(&mut self, f: F) -> (r: Result<(), RunError>)
        requires
            forall|at: &Interpreter, n: usize| at@.wf() ==> call_requires(f, (at, n)),
        ensures
            exists|states: Seq<State>| Self::ran(f, old(self)@.started(), states, final(self)@, r),
            final(self)@.wf(),
    {
        self.reset();
        let mut iter_n: usize = 0;
        let ghost start = self@;
        let ghost mut states: Seq<State> = seq![self@];
        while iter_n < usize::MAX
            invariant
                forall|at: &Interpreter, n: usize| at@.wf() ==> call_requires(f, (at, n)),
                start == old(self)@.started(),
                self@.wf(),
                states.len() == iter_n + 1,
                is_trace(states, start),
                states[iter_n as int] == self@,
                forall|k: int| 0 < k <= iter_n ==> Self::answered(f, #[trigger] states[k], k, true),
            decreases usize::MAX - iter_n,
        {
            let ghost before = self@;
            let x = self.pc.x();
            let y = self.pc.y();
            match self.step() {
                Err(error) => {
                    let r = Err(RunError::Step { x, y, error });
                    proof {
                        assert(fails(before, self@, error@));
                        assert(Self::ran(f, start, states, self@, r));
                    }
                    return r;
                },
                Ok(StepResult::Stop) => {
                    proof {
                        assert(halts(before));
                        assert(Self::ran(f, start, states, self@, Ok(())));
                    }
                    return Ok(());
                },
                Ok(StepResult::Cont) => {
                    iter_n += 1;
                    proof {
                        assert(continues(before, self@));
                        let longer = states.push(self@);
                        assert forall|k: int| 0 <= k < longer.len() - 1 implies continues(
                            longer[k],
                            #[trigger] longer[k + 1],
                        ) by {
                            if k + 1 < states.len() {
                                assert(longer[k + 1] == states[k + 1]);
                            }
                        }
                        states = longer;
                    }
                    let go_on = f(&*self, iter_n);
                    assert(Self::answered(f, self@, iter_n as int, go_on));
                    if !go_on {
                        proof {
                            assert(Self::ran(f, start, states, self@, Ok(())));
                        }
                        return Ok(());
                    }
                },
            }
        }
        let r = Err(RunError::StepLimit);
        proof {
            assert(Self::ran(f, start, states, self@, r));
        }
        r
    }
}

} // verus!
