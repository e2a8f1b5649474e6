//! Laws of the state machine: what holds of every state, proved from the
//! definition of a step.

use vstd::prelude::*;
use crate::command::{lemma_decode_encode, Command};
use crate::error::{Axis, Fault};
use crate::machine::{State, StepResult};
use crate::playfield::{grid_put, grid_wf, laid_out, loaded, Grid};
use crate::program_counter::{Direction, Position, PLAYFIELD_COLS, PLAYFIELD_ROWS};
use crate::stack::{below, top};

verus! {

/// The program counter wraps around each axis on its own: a move to the
/// right from the last column leads to the first column of the same row, a
/// move to the left from the first column to the last one, and likewise up
/// and down between the first and the last row. Every move stays on the
/// playfield.
pub proof fn lemma_moves_wrap(at: Position, dir: Direction)
    requires
        at.in_bounds(),
    ensures
        at.moved(dir).in_bounds(),
        dir is Right || dir is Left ==> at.moved(dir).y == at.y,
        dir is Up || dir is Down ==> at.moved(dir).x == at.x,
        dir is Right && at.x == PLAYFIELD_COLS - 1 ==> at.moved(dir).x == 0,
        dir is Left && at.x == 0 ==> at.moved(dir).x == PLAYFIELD_COLS - 1,
        dir is Down && at.y == PLAYFIELD_ROWS - 1 ==> at.moved(dir).y == 0,
        dir is Up && at.y == 0 ==> at.moved(dir).y == PLAYFIELD_ROWS - 1,
{
}

/// A move and the move back lead to where one was.
pub proof fn lemma_move_and_back(at: Position)
    requires
        at.in_bounds(),
    ensures
        at.moved(Direction::Right).moved(Direction::Left) == at,
        at.moved(Direction::Left).moved(Direction::Right) == at,
        at.moved(Direction::Down).moved(Direction::Up) == at,
        at.moved(Direction::Up).moved(Direction::Down) == at,
{
}

/// A step leads from a well-formed state to a well-formed state.
pub proof fn lemma_step_keeps_wf(s: State, choice: Direction)
    requires
        s.wf(),
    ensures
        s.step(choice).next.wf(),
{
    let next = s.step(choice).next;
    lemma_moves_wrap(s.pc, s.dir);
    lemma_moves_wrap(s.pc, choice);
    lemma_moves_wrap(s.pc, Direction::Right);
    lemma_moves_wrap(s.pc, Direction::Left);
    lemma_moves_wrap(s.pc, Direction::Up);
    lemma_moves_wrap(s.pc, Direction::Down);
    lemma_moves_wrap(s.pc.moved(s.dir), s.dir);
    if !s.stringmode && s.current() is Put {
        let y = top(s.stack);
        let x = top(below(s.stack));
        let value = top(below(below(s.stack)));
        if 0 <= x < PLAYFIELD_COLS && 0 <= y < PLAYFIELD_ROWS && 0 <= value <= 255 {
            lemma_decode_encode(value as u8);
            lemma_put_keeps_wf(s.grid, x as int, y as int, Command::spec_decode(value as u8));
        }
    }
}

/// A grid stays well-formed when a command that stands for a byte is put
/// into one of its cells.
pub proof fn lemma_put_keeps_wf(grid: Seq<Seq<Command>>, x: int, y: int, cmd: Command)
    requires
        grid_wf(grid),
        0 <= x < PLAYFIELD_COLS,
        0 <= y < PLAYFIELD_ROWS,
        cmd.is_byte(),
    ensures
        grid_wf(grid_put(grid, x, y, cmd)),
        grid_put(grid, x, y, cmd)[y][x] == cmd,
        forall|i: int, j: int|
            0 <= j < PLAYFIELD_ROWS && 0 <= i < PLAYFIELD_COLS && (i != x || j != y) ==> grid_put(
                grid,
                x,
                y,
                cmd,
            )[j][i] == grid[j][i],
{
}

/// Taking from an empty stack gives zero and leaves the stack empty.
pub proof fn lemma_empty_stack_gives_zero()
    ensures
        top(Seq::<i64>::empty()) == 0,
        below(Seq::<i64>::empty()) == Seq::<i64>::empty(),
{
}

/// `Swap` is its own inverse: two of them in a row leave a stack of two or
/// more values as it was.
pub proof fn lemma_swap_twice(s: State, c1: Direction, c2: Direction)
    requires
        !s.stringmode,
        s.current() is Swap,
        s.step(c1).next.current() is Swap,
        s.stack.len() >= 2,
    ensures
        s.step(c1).outcome == Ok::<StepResult, Fault>(StepResult::Cont),
        s.step(c1).next.step(c2).outcome == Ok::<StepResult, Fault>(StepResult::Cont),
        s.step(c1).next.step(c2).next.stack == s.stack,
{
    let once = s.step(c1).next.stack;
    let twice = s.step(c1).next.step(c2).next.stack;
    assert(below(once) =~= below(below(s.stack)).push(top(s.stack)));
    assert(below(below(once)) =~= below(below(s.stack)));
    assert(twice =~= s.stack);
}

/// On any stack, two `Swap`s in a row leave the two values on top as they
/// were, a missing value counting as zero.
pub proof fn lemma_swap_twice_top(s: State, c1: Direction, c2: Direction)
    requires
        !s.stringmode,
        s.current() is Swap,
        s.step(c1).next.current() is Swap,
    ensures
        top(s.step(c1).next.step(c2).next.stack) == top(s.stack),
        top(below(s.step(c1).next.step(c2).next.stack)) == top(below(s.stack)),
{
    let once = s.step(c1).next.stack;
    assert(below(once) =~= below(below(s.stack)).push(top(s.stack)));
    let twice = s.step(c1).next.step(c2).next.stack;
    assert(below(twice) =~= below(below(once)).push(top(once)));
}

/// `Dup` followed by `Pop` leaves the stack as it was before the `Dup`.
pub proof fn lemma_dup_then_pop(s: State, c1: Direction, c2: Direction)
    requires
        !s.stringmode,
        s.current() is Dup,
        s.step(c1).next.current() is Pop,
    ensures
        s.step(c1).outcome == Ok::<StepResult, Fault>(StepResult::Cont),
        s.step(c1).next.step(c2).outcome == Ok::<StepResult, Fault>(StepResult::Cont),
        s.step(c1).next.step(c2).next.stack == s.stack,
{
    assert(s.step(c1).next.step(c2).next.stack =~= s.stack);
}

/// `Put` of a value at a cell, then `Get` at the same cell, gives the value
/// back: for every cell of the playfield and every value that fits in a
/// byte. `under` and `later` are what lies under the operands on the stack.
pub proof fn lemma_put_then_get(s: State, under: Seq<i64>, later: Seq<i64>, value: i64, x: i64, y: i64)
    requires
        s.wf(),
        0 <= x < PLAYFIELD_COLS,
        0 <= y < PLAYFIELD_ROWS,
        0 <= value <= 255,
    ensures
        ({
            let put = s.with_stack(under.push(value).push(x).push(y)).step_put();
            let get = put.next.with_stack(later.push(x).push(y)).step_get();
            &&& put.outcome == Ok::<StepResult, Fault>(StepResult::Cont)
            &&& put.next.stack == under
            &&& get.outcome == Ok::<StepResult, Fault>(StepResult::Cont)
            &&& get.next.stack == later.push(value)
            &&& get.next.grid == put.next.grid
        }),
{
    let before = under.push(value).push(x).push(y);
    assert(below(before) =~= under.push(value).push(x));
    assert(below(below(before)) =~= under.push(value));
    assert(below(below(below(before))) =~= under);
    let put = s.with_stack(before).step_put();
    lemma_decode_encode(value as u8);
    lemma_put_keeps_wf(s.grid, x as int, y as int, Command::spec_decode(value as u8));
    let again = later.push(x).push(y);
    assert(below(again) =~= later.push(x));
    assert(below(below(again)) =~= later);
}

/// `Get` and `Put` with a column or a row outside the playfield fail with
/// a coordinate error that names the command, the axis and the value, and
/// leave the playfield as it is. The column is looked at first.
pub proof fn lemma_out_of_bounds_fails(s: State)
    requires
        !(0 <= top(below(s.stack)) < PLAYFIELD_COLS) || !(0 <= top(s.stack) < PLAYFIELD_ROWS),
    ensures
        s.step_get().next.grid == s.grid,
        s.step_put().next.grid == s.grid,
        !(0 <= top(below(s.stack)) < PLAYFIELD_COLS) ==> {
            &&& s.step_get().outcome == Err::<StepResult, Fault>(
                Fault::Coordinate { command: Command::Get, axis: Axis::X, value: top(below(s.stack)) },
            )
            &&& s.step_put().outcome == Err::<StepResult, Fault>(
                Fault::Coordinate { command: Command::Put, axis: Axis::X, value: top(below(s.stack)) },
            )
        },
        0 <= top(below(s.stack)) < PLAYFIELD_COLS ==> {
            &&& s.step_get().outcome == Err::<StepResult, Fault>(
                Fault::Coordinate { command: Command::Get, axis: Axis::Y, value: top(s.stack) },
            )
            &&& s.step_put().outcome == Err::<StepResult, Fault>(
                Fault::Coordinate { command: Command::Put, axis: Axis::Y, value: top(s.stack) },
            )
        },
{
}

/// In string mode every command but the quote is pushed as its byte and
/// nothing is executed: the playfield, the direction, the output and the
/// input stay as they are, and the program continues.
pub proof fn lemma_string_mode_pushes(s: State, choice: Direction)
    requires
        s.stringmode,
        !(s.current() is Str),
    ensures
        s.step(choice) == s.with_stack(s.stack.push(s.current().spec_encode() as i64)).proceed(),
        s.step(choice).next.stringmode,
{
}

/// What a load leaves is a well-formed grid, and the cell that the next byte
/// would go to lies on the playfield.
pub proof fn lemma_load_keeps_wf(grid: Grid, source: Seq<u8>)
    requires
        grid_wf(grid),
    ensures
        grid_wf(loaded(grid, source)),
        laid_out(grid, source).at.in_bounds(),
    decreases source.len(),
{
    if source.len() > 0 {
        let before = laid_out(grid, source.drop_last());
        lemma_load_keeps_wf(grid, source.drop_last());
        if source.last() != 10 {
            lemma_decode_encode(source.last());
            lemma_put_keeps_wf(before.grid, before.at.x, before.at.y, Command::spec_decode(source.last()));
        }
    }
}

/// A text without newlines that is no longer than the playfield fills it
/// row by row: byte `i` is decoded into column `i % 80` of row `i / 80`,
/// and the cells behind the text keep what they held.
pub proof fn lemma_load_without_newlines(grid: Grid, source: Seq<u8>)
    requires
        grid_wf(grid),
        source.len() <= PLAYFIELD_COLS * PLAYFIELD_ROWS,
        forall|i: int| 0 <= i < source.len() ==> source[i] != 10,
    ensures
        laid_out(grid, source).at.x == source.len() % (PLAYFIELD_COLS as nat),
        laid_out(grid, source).at.y == (source.len() / (PLAYFIELD_COLS as nat)) % (
        PLAYFIELD_ROWS as nat),
        forall|i: int|
            0 <= i < source.len() ==> loaded(grid, source)[i / 80][i % 80] == Command::spec_decode(
                #[trigger] source[i],
            ),
        forall|x: int, y: int|
            0 <= x < PLAYFIELD_COLS && 0 <= y < PLAYFIELD_ROWS && y * 80 + x >= source.len() ==> (
            #[trigger] loaded(grid, source)[y][x]) == grid[y][x],
    decreases source.len(),
{
    if source.len() > 0 {
        let front = source.drop_last();
        let n = front.len() as int;
        let before = laid_out(grid, front);
        lemma_load_without_newlines(grid, front);
        lemma_load_keeps_wf(grid, front);
        let cmd = Command::spec_decode(source.last());
        lemma_decode_encode(source.last());
        assert(before.at.x == n % 80);
        assert(before.at.y == n / 80);
        lemma_put_keeps_wf(before.grid, before.at.x, before.at.y, cmd);
        let after = loaded(grid, source);
        assert(after == grid_put(before.grid, n % 80, n / 80, cmd));
        assert forall|i: int| 0 <= i < source.len() implies after[i / 80][i % 80]
            == Command::spec_decode(#[trigger] source[i]) by {
            if i < n {
                assert(source[i] == front[i]);
                assert(i / 80 != n / 80 || i % 80 != n % 80);
            }
        }
        assert forall|x: int, y: int|
            0 <= x < PLAYFIELD_COLS && 0 <= y < PLAYFIELD_ROWS && y * 80 + x >= source.len() implies (
        #[trigger] after[y][x]) == grid[y][x] by {
            assert(x != n % 80 || y != n / 80);
            assert(before.grid[y][x] == grid[y][x]);
        }
    }
}

} // verus!
