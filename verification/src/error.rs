//! The ways a step and a run can fail. Every failure is fatal: it ends the
//! run and is handed to the caller.

use vstd::prelude::*;
use crate::command::Command;

verus! {

/// The axis of a playfield coordinate.
#[derive(Clone, Copy, Debug, PartialEq, Eq, Structural)]
pub enum Axis {
    /// The column.
    X,
    /// The row.
    Y,
}

/// Why a step failed, as a mathematical value.
pub enum Fault {
    /// `command` (`Get` or `Put`) was given a coordinate outside the
    /// playfield; `value` is the coordinate as it was popped.
    Coordinate { command: Command, axis: Axis, value: i64 },
    /// `Put` was given a value that does not fit in a byte.
    ValueTooLarge { value: i64 },
    /// `InI` read a text that does not write a 64-bit integer.
    MalformedInteger { text: Seq<u8> },
    /// `InI` or `InC` found the input at its end.
    EndOfInput,
    /// `Div` or `Mod` with a divisor of zero.
    DivisionByZero,
    /// The result of an arithmetic command does not fit in 64 bits.
    Overflow,
    /// A literal character that is not a decimal digit was executed outside
    /// string mode.
    NotADigit { c: char },
}

/// Why a step failed.
#[derive(Debug, PartialEq, Eq)]
pub enum StepError {
    /// `command` (`Get` or `Put`) was given a coordinate outside the
    /// playfield; `value` is the coordinate as it was popped.
    Coordinate { command: Command, axis: Axis, value: i64 },
    /// `Put` was given a value that does not fit in a byte.
    ValueTooLarge { value: i64 },
    /// `InI` read a text that does not write a 64-bit integer.
    MalformedInteger { text: Vec<u8> },
    /// `InI` or `InC` found the input at its end.
    EndOfInput,
    /// `Div` or `Mod` with a divisor of zero.
    DivisionByZero,
    /// The result of an arithmetic command does not fit in 64 bits.
    Overflow,
    /// A literal character that is not a decimal digit was executed outside
    /// string mode.
    NotADigit { c: char },
}

impl View for StepError {
    type V = Fault;

    open spec fn view(&self) -> Fault {
        match *self {
            StepError::Coordinate { command, axis, value } => Fault::Coordinate { command, axis, value },
            StepError::ValueTooLarge { value } => Fault::ValueTooLarge { value },
            StepError::MalformedInteger { text } => Fault::MalformedInteger { text: text@ },
            StepError::EndOfInput => Fault::EndOfInput,
            StepError::DivisionByZero => Fault::DivisionByZero,
            StepError::Overflow => Fault::Overflow,
            StepError::NotADigit { c } => Fault::NotADigit { c },
        }
    }
}

/// Why a run ended early.
#[derive(Debug, PartialEq, Eq)]
pub enum RunError {
    /// The step at column `x` and row `y` failed.
    Step { x: usize, y: usize, error: StepError },
    /// The run has made as many steps as a `usize` can count.
    StepLimit,
}

} // verus!
