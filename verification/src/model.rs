//! The machine as a mathematical object: its state, and the transition
//! function that one instruction applies to it.
//!
//! An instruction occupies the cell at the execution pointer and the cells
//! after it, one per argument. Arguments are examined in the order in which
//! they are written, and the first that cannot be used decides the fault. A
//! fault changes nothing but the status, so the pointer of a failed machine
//! names the instruction that failed.

use vstd::prelude::*;
use crate::word::{complement, low_byte, product_mod, sum_mod};

verus! {

/// Why a machine failed.
#[derive(Clone, Copy, Debug, PartialEq, Eq, Structural)]
pub enum Fault {
    /// A value was wanted and the argument cannot give one: the word is above
    /// 32775, the argument lies beyond the end of memory, or the value was to
    /// serve as the address of a memory read and is above 32767.
    InvalidOperand,
    /// A destination was wanted and the argument does not name one: a register
    /// was required and the word is not in 32768..=32775 or lies beyond the end
    /// of memory, or the address of a memory write is above 32767.
    InvalidWriteTarget,
    /// A pop found the stack empty.
    StackUnderflow,
    /// A remainder was asked for with divisor zero.
    DivZero,
    /// The word at the pointer is none of the opcodes 0 to 21, or the pointer
    /// lies beyond the end of memory, where no opcode is. A machine that was
    /// made lenient does not fail on a word above 21.
    UnknownOpcode,
    /// A byte of input was asked for after the input had been closed and used up.
    EofDuringInput,
    /// A program image of more than 65536 bytes was offered for loading.
    ProgramTooLarge,
}

/// The three states in which a machine can be observed.
#[derive(Clone, Copy, Debug, PartialEq, Eq, Structural)]
pub enum Status {
    Running,
    Halted,
    Failed(Fault),
}

/// Everything that a machine consists of.
pub struct MachineState {
    /// The 32768 memory cells, code and data alike.
    pub memory: Seq<u16>,
    /// The eight registers.
    pub registers: Seq<u16>,
    /// The stack, its top at the end.
    pub stack: Seq<u16>,
    /// The address of the next instruction.
    pub pointer: nat,
    pub status: Status,
    /// The bytes that were handed to the machine and not yet read by it.
    pub input: Seq<u8>,
    /// Whether the host has declared that no more input will come.
    pub input_closed: bool,
    /// The bytes that the machine wrote and the host has not yet collected.
    pub output: Seq<u8>,
    /// Whether a word above 21 at the pointer is a fault, as it is unless the
    /// host asked otherwise. Where it is not, such a word is passed over as
    /// if it were a `noop`.
    pub strict: bool,
}

impl MachineState {
    /// A state has as many memory cells and registers as the machine has, and
    /// a pointer that fits a 16-bit word.
    pub open spec fn well_formed(self) -> bool {
        &&& self.memory.len() == 32768
        &&& self.registers.len() == 8
        &&& self.pointer <= 65535
    }

    /// The state of a new machine: all cells and registers zero, an empty
    /// stack, the pointer at address 0, nothing read or written yet, strict
    /// about unknown opcodes.
    pub open spec fn initial() -> MachineState {
        MachineState {
            memory: Seq::new(32768, |i: int| 0u16),
            registers: Seq::new(8, |i: int| 0u16),
            stack: Seq::empty(),
            pointer: 0,
            status: Status::Running,
            input: Seq::empty(),
            input_closed: false,
            output: Seq::empty(),
            strict: true,
        }
    }

    /// The state with `words` written into memory from address 0 on.
    pub open spec fn with_program(self, words: Seq<u16>) -> MachineState {
        MachineState {
            memory: Seq::new(
                32768,
                |i: int|
                    if i < words.len() {
                        words[i]
                    } else {
                        self.memory[i]
                    },
            ),
            ..self
        }
    }

    /// The state after the host handed in `bytes` as further input.
    pub open spec fn with_input(self, bytes: Seq<u8>) -> MachineState {
        MachineState { input: self.input + bytes, ..self }
    }

    /// The same state, strict about unknown opcodes or not.
    pub open spec fn with_strict(self, strict: bool) -> MachineState {
        MachineState { strict, ..self }
    }

    /// The state after the host declared the input closed.
    pub open spec fn with_input_closed(self) -> MachineState {
        MachineState { input_closed: true, ..self }
    }

    /// The state after the host collected the output.
    pub open spec fn with_output_taken(self) -> MachineState {
        MachineState { output: Seq::empty(), ..self }
    }

    /// The same state, failed with `fault`.
    pub open spec fn failed(self, fault: Fault) -> MachineState {
        MachineState { status: Status::Failed(fault), ..self }
    }

    /// The same state, halted.
    pub open spec fn halted(self) -> MachineState {
        MachineState { status: Status::Halted, ..self }
    }

    /// The same state with the pointer at `target`.
    pub open spec fn jumped(self, target: nat) -> MachineState {
        MachineState { pointer: target, ..self }
    }

    /// The state after `value` went into register `index` and the pointer
    /// moved on by `length` cells.
    pub open spec fn stored(self, index: int, value: u16, length: nat) -> MachineState {
        MachineState {
            registers: self.registers.update(index, value),
            pointer: self.pointer + length,
            ..self
        }
    }

    /// The value that the word `word` stands for: itself up to 32767, the
    /// content of a register from 32768 to 32775, nothing above.
    pub open spec fn resolve(self, word: u16) -> Result<u16, Fault> {
        if word <= 32767 {
            Ok(word)
        } else if word <= 32775 {
            Ok(self.registers[word - 32768])
        } else {
            Err(Fault::InvalidOperand)
        }
    }

    /// The value of the argument in the memory cell `position`.
    pub open spec fn value_at(self, position: int) -> Result<u16, Fault> {
        if 0 <= position < 32768 {
            self.resolve(self.memory[position])
        } else {
            Err(Fault::InvalidOperand)
        }
    }

    /// The index of the register that the argument in the memory cell
    /// `position` names as a destination.
    pub open spec fn register_at(self, position: int) -> Result<int, Fault> {
        if 0 <= position < 32768 && 32768 <= self.memory[position] <= 32775 {
            Ok(self.memory[position] - 32768)
        } else {
            Err(Fault::InvalidWriteTarget)
        }
    }

    /// The value of argument `k` of the instruction at the pointer; the first
    /// argument has `k == 1`.
    pub open spec fn operand(self, k: int) -> Result<u16, Fault> {
        self.value_at(self.pointer + k)
    }

    /// The register that argument `k` of the instruction at the pointer names.
    pub open spec fn target(self, k: int) -> Result<int, Fault> {
        self.register_at(self.pointer + k)
    }

    /// The opcode word at the pointer.
    pub open spec fn opcode(self) -> u16
        recommends
            self.pointer < 32768,
    {
        self.memory[self.pointer as int]
    }

    /// Whether the machine is at an input instruction with a usable
    /// destination while no byte is at hand and more may still come. Such a
    /// machine stays as it is until the host hands it input or closes the input.
    pub open spec fn awaits_input(self) -> bool {
        &&& self.status == Status::Running
        &&& self.pointer < 32768
        &&& self.opcode() == 20
        &&& self.target(1) is Ok
        &&& self.input.len() == 0
        &&& !self.input_closed
    }

    /// Whether a step changes the state: the machine runs and does not wait
    /// for input.
    pub open spec fn active(self) -> bool {
        self.status == Status::Running && !self.awaits_input()
    }

    /// `set a b`: register a becomes the value of b.
    pub open spec fn after_set(self) -> MachineState {
        match self.target(1) {
            Err(f) => self.failed(f),
            Ok(a) => match self.operand(2) {
                Err(f) => self.failed(f),
                Ok(b) => self.stored(a, b, 3),
            },
        }
    }

    /// `push a`: the value of a goes onto the stack.
    pub open spec fn after_push(self) -> MachineState {
        match self.operand(1) {
            Err(f) => self.failed(f),
            Ok(a) => MachineState {
                stack: self.stack.push(a),
                pointer: self.pointer + 2,
                ..self
            },
        }
    }

    /// `pop a`: the top of the stack is taken off and goes into register a.
    pub open spec fn after_pop(self) -> MachineState {
        match self.target(1) {
            Err(f) => self.failed(f),
            Ok(a) => if self.stack.len() == 0 {
                self.failed(Fault::StackUnderflow)
            } else {
                MachineState { stack: self.stack.drop_last(), ..self.stored(a, self.stack.last(), 2) }
            },
        }
    }

    /// The instructions `op a b c` that put a function of the values of b and
    /// c into register a. `result` gives the function's value, or the fault
    /// that the two values cause.
    pub open spec fn after_binary(self, result: spec_fn(u16, u16) -> Result<u16, Fault>) -> MachineState {
        match self.target(1) {
            Err(f) => self.failed(f),
            Ok(a) => match self.operand(2) {
                Err(f) => self.failed(f),
                Ok(b) => match self.operand(3) {
                    Err(f) => self.failed(f),
                    Ok(c) => match result(b, c) {
                        Err(f) => self.failed(f),
                        Ok(r) => self.stored(a, r, 4),
                    },
                },
            },
        }
    }

    /// `jmp a`: the pointer becomes the value of a.
    pub open spec fn after_jmp(self) -> MachineState {
        match self.operand(1) {
            Err(f) => self.failed(f),
            Ok(a) => self.jumped(a as nat),
        }
    }

    /// `jt a b` (with `when_zero` false) and `jf a b` (with `when_zero` true):
    /// where the value of a is zero exactly if `when_zero`, the pointer becomes
    /// the value of b; else it moves on by 3, and b is not looked at.
    pub open spec fn after_branch(self, when_zero: bool) -> MachineState {
        match self.operand(1) {
            Err(f) => self.failed(f),
            Ok(a) => if (a == 0) == when_zero {
                match self.operand(2) {
                    Err(f) => self.failed(f),
                    Ok(b) => self.jumped(b as nat),
                }
            } else {
                self.jumped(self.pointer + 3)
            },
        }
    }

    /// `not a b`: register a becomes the 15-bit complement of the value of b.
    pub open spec fn after_not(self) -> MachineState {
        match self.target(1) {
            Err(f) => self.failed(f),
            Ok(a) => match self.operand(2) {
                Err(f) => self.failed(f),
                Ok(b) => self.stored(a, complement(b), 3),
            },
        }
    }

    /// `rmem a b`: register a becomes the content of the memory cell whose
    /// address is the value of b.
    pub open spec fn after_rmem(self) -> MachineState {
        match self.target(1) {
            Err(f) => self.failed(f),
            Ok(a) => match self.operand(2) {
                Err(f) => self.failed(f),
                Ok(b) => if b > 32767 {
                    self.failed(Fault::InvalidOperand)
                } else {
                    self.stored(a, self.memory[b as int], 3)
                },
            },
        }
    }

    /// `wmem a b`: the memory cell whose address is the value of a becomes the
    /// value of b.
    pub open spec fn after_wmem(self) -> MachineState {
        match self.operand(1) {
            Err(f) => self.failed(f),
            Ok(a) => if a > 32767 {
                self.failed(Fault::InvalidWriteTarget)
            } else {
                match self.operand(2) {
                    Err(f) => self.failed(f),
                    Ok(b) => MachineState {
                        memory: self.memory.update(a as int, b),
                        pointer: self.pointer + 3,
                        ..self
                    },
                }
            },
        }
    }

    /// `call a`: the address of the next instruction goes onto the stack and
    /// the pointer becomes the value of a.
    pub open spec fn after_call(self) -> MachineState {
        match self.operand(1) {
            Err(f) => self.failed(f),
            Ok(a) => MachineState {
                stack: self.stack.push((self.pointer + 2) as u16),
                pointer: a as nat,
                ..self
            },
        }
    }

    /// `ret`: the top of the stack is taken off and becomes the pointer; with
    /// an empty stack the machine halts.
    pub open spec fn after_ret(self) -> MachineState {
        if self.stack.len() == 0 {
            self.halted()
        } else {
            MachineState {
                stack: self.stack.drop_last(),
                pointer: self.stack.last() as nat,
                ..self
            }
        }
    }

    /// `out a`: the low eight bits of the value of a are written.
    pub open spec fn after_out(self) -> MachineState {
        match self.operand(1) {
            Err(f) => self.failed(f),
            Ok(a) => MachineState {
                output: self.output.push(low_byte(a)),
                pointer: self.pointer + 2,
                ..self
            },
        }
    }

    /// `in a`: the next byte of input goes into register a. Without a byte at
    /// hand the machine fails if the input is closed, and else stays as it is.
    pub open spec fn after_in(self) -> MachineState {
        match self.target(1) {
            Err(f) => self.failed(f),
            Ok(a) => if self.input.len() > 0 {
                MachineState { input: self.input.skip(1), ..self.stored(a, self.input[0] as u16, 2) }
            } else if self.input_closed {
                self.failed(Fault::EofDuringInput)
            } else {
                self
            },
        }
    }

    /// The state after the instruction `opcode` with its arguments at the
    /// pointer was carried out. A word above 21 is no instruction: the
    /// machine fails on it, unless it was made lenient and passes over it as
    /// over a `noop`.
    pub open spec fn execute(self, opcode: u16) -> MachineState {
        if opcode == 0 {
            self.halted()
        } else if opcode == 1 {
            self.after_set()
        } else if opcode == 2 {
            self.after_push()
        } else if opcode == 3 {
            self.after_pop()
        } else if opcode == 4 {
            self.after_binary(|b: u16, c: u16| equal_flag(b, c))
        } else if opcode == 5 {
            self.after_binary(|b: u16, c: u16| greater_flag(b, c))
        } else if opcode == 6 {
            self.after_jmp()
        } else if opcode == 7 {
            self.after_branch(false)
        } else if opcode == 8 {
            self.after_branch(true)
        } else if opcode == 9 {
            self.after_binary(|b: u16, c: u16| Ok(sum_mod(b, c)))
        } else if opcode == 10 {
            self.after_binary(|b: u16, c: u16| Ok(product_mod(b, c)))
        } else if opcode == 11 {
            self.after_binary(|b: u16, c: u16| remainder(b, c))
        } else if opcode == 12 {
            self.after_binary(|b: u16, c: u16| Ok(b & c))
        } else if opcode == 13 {
            self.after_binary(|b: u16, c: u16| Ok(b | c))
        } else if opcode == 14 {
            self.after_not()
        } else if opcode == 15 {
            self.after_rmem()
        } else if opcode == 16 {
            self.after_wmem()
        } else if opcode == 17 {
            self.after_call()
        } else if opcode == 18 {
            self.after_ret()
        } else if opcode == 19 {
            self.after_out()
        } else if opcode == 20 {
            self.after_in()
        } else if opcode == 21 || !self.strict {
            self.jumped(self.pointer + 1)
        } else {
            self.failed(Fault::UnknownOpcode)
        }
    }

    /// One step of the machine. A machine that is halted or has failed stays
    /// as it is; a running one carries out the instruction at its pointer.
    pub open spec fn step(self) -> MachineState {
        if self.status != Status::Running {
            self
        } else if self.pointer >= 32768 {
            self.failed(Fault::UnknownOpcode)
        } else {
            self.execute(self.opcode())
        }
    }

    /// The state after `n` steps.
    pub open spec fn steps(self, n: nat) -> MachineState
        decreases n,
    {
        if n == 0 {
            self
        } else {
            self.step().steps((n - 1) as nat)
        }
    }
}

/// A machine that is not active stays as it is, however many steps are taken.
pub proof fn lemma_inactive_steps(state: MachineState, n: nat)
    requires
        !state.active(),
    ensures
        state.steps(n) == state,
    decreases n,
{
    if n > 0 {
        assert(state.step() == state);
        lemma_inactive_steps(state, (n - 1) as nat);
    }
}

/// A step leaves a well-formed state well-formed.
pub proof fn lemma_step_well_formed(state: MachineState)
    requires
        state.well_formed(),
    ensures
        state.step().well_formed(),
{
}

/// Any number of steps leaves a well-formed state well-formed.
pub proof fn lemma_steps_well_formed(state: MachineState, n: nat)
    requires
        state.well_formed(),
    ensures
        state.steps(n).well_formed(),
    decreases n,
{
    if n > 0 {
        lemma_step_well_formed(state);
        lemma_steps_well_formed(state.step(), (n - 1) as nat);
    }
}

/// 1 where the two values are equal, else 0.
pub open spec fn equal_flag(b: u16, c: u16) -> Result<u16, Fault> {
    Ok(if b == c { 1u16 } else { 0u16 })
}

/// 1 where the first value is greater than the second, else 0.
pub open spec fn greater_flag(b: u16, c: u16) -> Result<u16, Fault> {
    Ok(if b > c { 1u16 } else { 0u16 })
}

/// The remainder of the first value by the second, which must not be zero.
pub open spec fn remainder(b: u16, c: u16) -> Result<u16, Fault> {
    if c == 0 {
        Err(Fault::DivZero)
    } else {
        Ok((b % c) as u16)
    }
}

} // verus!
