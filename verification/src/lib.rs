//! A Befunge-93 engine: a 25 by 80 playfield of one-character commands, a
//! program counter that walks it in one of four directions, and a stack of
//! signed 64-bit integers.

pub mod command;
pub mod decimal;
pub mod error;
pub mod interpreter;
pub mod laws;
pub mod machine;
pub mod playfield;
pub mod program_counter;
pub mod random;
pub mod render;
pub mod stack;

pub use command::Command;
pub use error::{Axis, RunError, StepError};
pub use interpreter::Interpreter;
pub use machine::StepResult;
pub use playfield::Playfield;
pub use program_counter::{Direction, ProgramCounter, PLAYFIELD_COLS, PLAYFIELD_ROWS};
pub use stack::Stack;
