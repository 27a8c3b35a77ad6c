//! An interpreter for the Synacor virtual machine: a 15-bit word machine with
//! 32768 memory cells, eight registers, an unbounded stack and 22 opcodes.
//!
//! The machine is described twice. `model` gives its meaning as a pure
//! transition function on a mathematical state; `vm` holds the executable
//! machine, each of whose operations is proved to follow that function.
//! `word` holds the word arithmetic and the byte codec of program images, and
//! `laws` the general properties that are proved of the transition function.
//!
//! `coin` is apart from the machine: it decodes and tests the arrangements of
//! the coin puzzle.

pub mod word;
pub mod model;
pub mod vm;
pub mod laws;
pub mod coin;

pub use model::{Fault, MachineState, Status};
pub use vm::{Outcome, VirtualMachine};
