//! The executable machine. Each operation is proved to do to the machine's
//! view what the model says.

use vstd::prelude::*;
use std::collections::VecDeque;
use crate::model::{lemma_inactive_steps, Fault, MachineState, Status};
use crate::word::{
    add_words, complement_word, decode_words, from_binary, multiply_words, MAX_PROGRAM_BYTES,
    MEMORY_SIZE, REGISTER_COUNT,
};

verus! {

/// How a machine stands after it was run or stepped.
#[derive(Clone, Copy, Debug, PartialEq, Eq, Structural)]
pub enum Outcome {
    /// The machine has halted.
    Halted,
    /// The machine has failed.
    Failed(Fault),
    /// The machine is at an input instruction and has no byte to read.
    AwaitingInput,
    /// The machine runs and its next step can be taken.
    Runnable,
}

/// What a state looks like from outside.
pub open spec fn outcome_of(state: MachineState) -> Outcome {
    match state.status {
        Status::Halted => Outcome::Halted,
        Status::Failed(fault) => Outcome::Failed(fault),
        Status::Running => if state.awaits_input() {
            Outcome::AwaitingInput
        } else {
            Outcome::Runnable
        },
    }
}

/// A machine: memory, registers, stack, execution pointer, and the bytes
/// that wait to be read and to be collected.
pub struct VirtualMachine {
    memory: Vec<u16>,
    registers: Vec<u16>,
    stack: Vec<u16>,
    pointer: u16,
    status: Status,
    input: VecDeque<u8>,
    input_closed: bool,
    output: Vec<u8>,
    strict: bool,
}

impl View for VirtualMachine {
    type V = MachineState;

    closed spec fn view(&self) -> MachineState {
        MachineState {
            memory: self.memory@,
            registers: self.registers@,
            stack: self.stack@,
            pointer: self.pointer as nat,
            status: self.status,
            input: self.input@,
            input_closed: self.input_closed,
            output: self.output@,
            strict: self.strict,
        }
    }
}

impl VirtualMachine {
    /// A machine with all memory and registers zero, an empty stack and the
    /// pointer at address 0, which fails on a word that is no opcode.
    pub fn new() -> (vm: VirtualMachine)
        ensures
            vm@ == MachineState::initial(),
            vm@.well_formed(),
    {
        let vm = VirtualMachine {
            memory: vec![0u16; MEMORY_SIZE],
            registers: vec![0u16; REGISTER_COUNT],
            stack: Vec::new(),
            pointer: 0,
            status: Status::Running,
            input: VecDeque::new(),
            input_closed: false,
            output: Vec::new(),
            strict: true,
        };
        assert(vm@.memory =~= MachineState::initial().memory);
        assert(vm@.registers =~= MachineState::initial().registers);
        assert(vm@.input =~= MachineState::initial().input);
        vm
    }

    /// Makes the machine strict or lenient about words above 21 in the place
    /// of an opcode: a strict machine, as a new one is, fails on one with
    /// `UnknownOpcode`; a lenient machine passes over it.
    pub fn set_strict(&mut self, strict: bool)
        requires
            old(self)@.well_formed(),
        ensures
            final(self)@.well_formed(),
            final(self)@ == old(self)@.with_strict(strict),
    {
        self.strict = strict;
    }

    /// The memory cells.
    pub fn memory(&self) -> (cells: &[u16])
        requires
            self@.well_formed(),
        ensures
            cells@ == self@.memory,
            cells@.len() == 32768,
    {
        self.memory.as_slice()
    }

    /// The registers.
    pub fn registers(&self) -> (cells: &[u16])
        requires
            self@.well_formed(),
        ensures
            cells@ == self@.registers,
            cells@.len() == 8,
    {
        self.registers.as_slice()
    }

    /// The stack, its top at the end.
    pub fn stack(&self) -> (cells: &[u16])
        ensures
            cells@ == self@.stack,
    {
        self.stack.as_slice()
    }

    /// The address of the next instruction.
    pub fn pointer(&self) -> (p: u16)
        ensures
            p == self@.pointer,
    {
        self.pointer
    }

    /// Whether the machine runs, has halted or has failed.
    pub fn status(&self) -> (s: Status)
        ensures
            s == self@.status,
    {
        self.status
    }

    /// The bytes written so far and not yet taken.
    pub fn output(&self) -> (bytes: &[u8])
        ensures
            bytes@ == self@.output,
    {
        self.output.as_slice()
    }
}

impl VirtualMachine {
    /// The value of the argument in the memory cell `pos`: the word itself up
    /// to 32767, the content of the register that a word from 32768 to 32775
    /// names, and `InvalidOperand` for a word above or a cell beyond memory.
    pub fn decode(&self, pos: usize) -> (r: Result<u16, Fault>)
        requires
            self@.well_formed(),
        ensures
            r == self@.value_at(pos as int),
    {
        if pos >= MEMORY_SIZE {
            return Err(Fault::InvalidOperand);
        }
        let word: u16 = self.memory[pos];
        if word <= 32767 {
            Ok(word)
        } else if word <= 32775 {
            Ok(self.registers[(word - 32768) as usize])
        } else {
            Err(Fault::InvalidOperand)
        }
    }

    /// The index of the register that the argument in the memory cell `pos`
    /// names as a destination, and `InvalidWriteTarget` where it names none.
    pub fn destination(&self, pos: usize) -> (r: Result<usize, Fault>)
        requires
            self@.well_formed(),
        ensures
            match r {
                Ok(index) => index < 8 && self@.register_at(pos as int) == Ok::<int, Fault>(
                    index as int,
                ),
                Err(fault) => self@.register_at(pos as int) == Err::<int, Fault>(fault),
            },
    {
        if pos >= MEMORY_SIZE {
            return Err(Fault::InvalidWriteTarget);
        }
        let word: u16 = self.memory[pos];
        if 32768 <= word && word <= 32775 {
            Ok((word - 32768) as usize)
        } else {
            Err(Fault::InvalidWriteTarget)
        }
    }

    /// How the machine stands: halted, failed, waiting for input, or ready
    /// for its next step.
    pub fn outcome(&self) -> (r: Outcome)
        requires
            self@.well_formed(),
        ensures
            r == outcome_of(self@),
    {
        match self.status {
            Status::Halted => Outcome::Halted,
            Status::Failed(fault) => Outcome::Failed(fault),
            Status::Running => {
                if self.pointer < 32768 && self.memory[self.pointer as usize] == 20
                    && self.input.len() == 0 && !self.input_closed {
                    match self.destination(self.pointer as usize + 1) {
                        Ok(_) => Outcome::AwaitingInput,
                        Err(_) => Outcome::Runnable,
                    }
                } else {
                    Outcome::Runnable
                }
            },
        }
    }

    fn fail(&mut self, fault: Fault)
        requires
            old(self)@.well_formed(),
        ensures
            final(self)@.well_formed(),
            final(self)@ == old(self)@.failed(fault),
    {
        self.status = Status::Failed(fault);
    }

    fn jump(&mut self, target: u16)
        requires
            old(self)@.well_formed(),
        ensures
            final(self)@.well_formed(),
            final(self)@ == old(self)@.jumped(target as nat),
    {
        self.pointer = target;
    }

    fn store(&mut self, index: usize, value: u16, length: u16)
        requires
            old(self)@.well_formed(),
            index < 8,
            old(self)@.pointer < 32768,
            length <= 4,
        ensures
            final(self)@.well_formed(),
            final(self)@ == old(self)@.stored(index as int, value, length as nat),
    {
        self.registers[index] = value;
        self.pointer = self.pointer + length;
    }
}

impl VirtualMachine {
    /// The argument `k` cells after the pointer, as a value.
    fn operand(&self, k: usize) -> (r: Result<u16, Fault>)
        requires
            self@.well_formed(),
            k <= 3,
        ensures
            r == self@.operand(k as int),
    {
        self.decode(self.pointer as usize + k)
    }

    /// The argument `k` cells after the pointer, as a register to write to.
    fn target(&self, k: usize) -> (r: Result<usize, Fault>)
        requires
            self@.well_formed(),
            k <= 3,
        ensures
            match r {
                Ok(index) => index < 8 && self@.target(k as int) == Ok::<int, Fault>(index as int),
                Err(fault) => self@.target(k as int) == Err::<int, Fault>(fault),
            },
    {
        self.destination(self.pointer as usize + k)
    }

    fn exec_set(&mut self)
        requires
            old(self)@.well_formed(),
            old(self)@.pointer < 32768,
        ensures
            final(self)@.well_formed(),
            final(self)@ == old(self)@.after_set(),
    {
        match self.target(1) {
            Err(fault) => self.fail(fault),
            Ok(a) => match self.operand(2) {
                Err(fault) => self.fail(fault),
                Ok(b) => self.store(a, b, 3),
            },
        }
    }

    fn exec_push(&mut self)
        requires
            old(self)@.well_formed(),
            old(self)@.pointer < 32768,
        ensures
            final(self)@.well_formed(),
            final(self)@ == old(self)@.after_push(),
    {
        match self.operand(1) {
            Err(fault) => self.fail(fault),
            Ok(a) => {
                self.stack.push(a);
                self.pointer = self.pointer + 2;
            },
        }
    }

    fn exec_pop(&mut self)
        requires
            old(self)@.well_formed(),
            old(self)@.pointer < 32768,
        ensures
            final(self)@.well_formed(),
            final(self)@ == old(self)@.after_pop(),
    {
        match self.target(1) {
            Err(fault) => self.fail(fault),
            Ok(a) => match self.stack.pop() {
                None => self.fail(Fault::StackUnderflow),
                Some(top) => {
                    assert(self.stack@ == old(self).stack@.drop_last());
                    self.store(a, top, 2);
                },
            },
        }
    }

    /// The instructions that combine two values into a register: eq, gt, add,
    /// mult, mod, and, or.
    fn exec_binary(&mut self, opcode: u16)
        requires
            old(self)@.well_formed(),
            old(self)@.pointer < 32768,
            opcode == 4 || opcode == 5 || 9 <= opcode <= 13,
        ensures
            final(self)@.well_formed(),
            final(self)@ == old(self)@.execute(opcode),
    {
        let a: usize = match self.target(1) {
            Err(fault) => {
                self.fail(fault);
                return ;
            },
            Ok(a) => a,
        };
        let b: u16 = match self.operand(2) {
            Err(fault) => {
                self.fail(fault);
                return ;
            },
            Ok(b) => b,
        };
        let c: u16 = match self.operand(3) {
            Err(fault) => {
                self.fail(fault);
                return ;
            },
            Ok(c) => c,
        };
        if opcode == 4 {
            let flag: u16 = if b == c { 1 } else { 0 };
            self.store(a, flag, 4);
        } else if opcode == 5 {
            let flag: u16 = if b > c { 1 } else { 0 };
            self.store(a, flag, 4);
        } else if opcode == 9 {
            self.store(a, add_words(b, c), 4);
        } else if opcode == 10 {
            self.store(a, multiply_words(b, c), 4);
        } else if opcode == 11 {
            if c == 0 {
                self.fail(Fault::DivZero);
            } else {
                self.store(a, b % c, 4);
            }
        } else if opcode == 12 {
            self.store(a, b & c, 4);
        } else {
            self.store(a, b | c, 4);
        }
    }

    fn exec_jmp(&mut self)
        requires
            old(self)@.well_formed(),
            old(self)@.pointer < 32768,
        ensures
            final(self)@.well_formed(),
            final(self)@ == old(self)@.after_jmp(),
    {
        match self.operand(1) {
            Err(fault) => self.fail(fault),
            Ok(a) => self.jump(a),
        }
    }

    /// jt (`when_zero` false) and jf (`when_zero` true).
    fn exec_branch(&mut self, when_zero: bool)
        requires
            old(self)@.well_formed(),
            old(self)@.pointer < 32768,
        ensures
            final(self)@.well_formed(),
            final(self)@ == old(self)@.after_branch(when_zero),
    {
        match self.operand(1) {
            Err(fault) => self.fail(fault),
            Ok(a) => {
                if (a == 0) == when_zero {
                    match self.operand(2) {
                        Err(fault) => self.fail(fault),
                        Ok(b) => self.jump(b),
                    }
                } else {
                    let next: u16 = self.pointer + 3;
                    self.jump(next);
                }
            },
        }
    }

    fn exec_not(&mut self)
        requires
            old(self)@.well_formed(),
            old(self)@.pointer < 32768,
        ensures
            final(self)@.well_formed(),
            final(self)@ == old(self)@.after_not(),
    {
        match self.target(1) {
            Err(fault) => self.fail(fault),
            Ok(a) => match self.operand(2) {
                Err(fault) => self.fail(fault),
                Ok(b) => self.store(a, complement_word(b), 3),
            },
        }
    }

    fn exec_rmem(&mut self)
        requires
            old(self)@.well_formed(),
            old(self)@.pointer < 32768,
        ensures
            final(self)@.well_formed(),
            final(self)@ == old(self)@.after_rmem(),
    {
        match self.target(1) {
            Err(fault) => self.fail(fault),
            Ok(a) => match self.operand(2) {
                Err(fault) => self.fail(fault),
                Ok(b) => {
                    if b > 32767 {
                        self.fail(Fault::InvalidOperand);
                    } else {
                        let word: u16 = self.memory[b as usize];
                        self.store(a, word, 3);
                    }
                },
            },
        }
    }

    fn exec_wmem(&mut self)
        requires
            old(self)@.well_formed(),
            old(self)@.pointer < 32768,
        ensures
            final(self)@.well_formed(),
            final(self)@ == old(self)@.after_wmem(),
    {
        match self.operand(1) {
            Err(fault) => self.fail(fault),
            Ok(a) => {
                if a > 32767 {
                    self.fail(Fault::InvalidWriteTarget);
                } else {
                    match self.operand(2) {
                        Err(fault) => self.fail(fault),
                        Ok(b) => {
                            self.memory[a as usize] = b;
                            self.pointer = self.pointer + 3;
                        },
                    }
                }
            },
        }
    }

    fn exec_call(&mut self)
        requires
            old(self)@.well_formed(),
            old(self)@.pointer < 32768,
        ensures
            final(self)@.well_formed(),
            final(self)@ == old(self)@.after_call(),
    {
        match self.operand(1) {
            Err(fault) => self.fail(fault),
            Ok(a) => {
                let back: u16 = self.pointer + 2;
                self.stack.push(back);
                self.pointer = a;
            },
        }
    }

    fn exec_ret(&mut self)
        requires
            old(self)@.well_formed(),
        ensures
            final(self)@.well_formed(),
            final(self)@ == old(self)@.after_ret(),
    {
        match self.stack.pop() {
            None => {
                self.status = Status::Halted;
            },
            Some(top) => {
                assert(self.stack@ == old(self).stack@.drop_last());
                self.pointer = top;
            },
        }
    }

    fn exec_out(&mut self)
        requires
            old(self)@.well_formed(),
            old(self)@.pointer < 32768,
        ensures
            final(self)@.well_formed(),
            final(self)@ == old(self)@.after_out(),
    {
        match self.operand(1) {
            Err(fault) => self.fail(fault),
            Ok(a) => {
                self.output.push((a % 256) as u8);
                self.pointer = self.pointer + 2;
            },
        }
    }

    fn exec_in(&mut self)
        requires
            old(self)@.well_formed(),
            old(self)@.pointer < 32768,
        ensures
            final(self)@.well_formed(),
            final(self)@ == old(self)@.after_in(),
    {
        match self.target(1) {
            Err(fault) => self.fail(fault),
            Ok(a) => {
                match self.input.pop_front() {
                    Some(byte) => {
                        assert(self.input@ == old(self)@.input.skip(1));
                        self.store(a, byte as u16, 2);
                    },
                    None => {
                        if self.input_closed {
                            self.fail(Fault::EofDuringInput);
                        }
                    },
                }
            },
        }
    }

    /// Carries out one step: the instruction at the pointer, where the
    /// machine runs; nothing, where it has halted or failed. Says how the
    /// machine stands afterwards.
    pub fn exec(&mut self) -> (r: Outcome)
        requires
            old(self)@.well_formed(),
        ensures
            final(self)@.well_formed(),
            final(self)@ == old(self)@.step(),
            r == outcome_of(final(self)@),
    {
        match self.status {
            Status::Running => {},
            _ => {
                return self.outcome();
            },
        }
        if self.pointer >= 32768 {
            self.fail(Fault::UnknownOpcode);
            return self.outcome();
        }
        let opcode: u16 = self.memory[self.pointer as usize];
        if opcode == 0 {
            self.status = Status::Halted;
        } else if opcode == 1 {
            self.exec_set();
        } else if opcode == 2 {
            self.exec_push();
        } else if opcode == 3 {
            self.exec_pop();
        } else if opcode == 4 || opcode == 5 {
            self.exec_binary(opcode);
        } else if opcode == 6 {
            self.exec_jmp();
        } else if opcode == 7 {
            self.exec_branch(false);
        } else if opcode == 8 {
            self.exec_branch(true);
        } else if opcode <= 13 {
            self.exec_binary(opcode);
        } else if opcode == 14 {
            self.exec_not();
        } else if opcode == 15 {
            self.exec_rmem();
        } else if opcode == 16 {
            self.exec_wmem();
        } else if opcode == 17 {
            self.exec_call();
        } else if opcode == 18 {
            self.exec_ret();
        } else if opcode == 19 {
            self.exec_out();
        } else if opcode == 20 {
            self.exec_in();
        } else if opcode == 21 || !self.strict {
            let next: u16 = self.pointer + 1;
            self.jump(next);
        } else {
            self.fail(Fault::UnknownOpcode);
        }
        self.outcome()
    }
}

impl VirtualMachine {
    /// Writes `words` into memory from address 0 on and leaves the rest of the
    /// machine as it is. More than 32768 words are refused and nothing changes.
    pub fn load(&mut self, words: &[u16]) -> (r: Result<(), Fault>)
        requires
            old(self)@.well_formed(),
        ensures
            final(self)@.well_formed(),
            words@.len() > 32768 ==> r == Err::<(), Fault>(Fault::ProgramTooLarge) && final(self)@
                == old(self)@,
            words@.len() <= 32768 ==> r == Ok::<(), Fault>(()) && final(self)@
                == old(self)@.with_program(words@),
    {
        if words.len() > MEMORY_SIZE {
            return Err(Fault::ProgramTooLarge);
        }
        let mut i: usize = 0;
        assert(self@.memory =~= old(self)@.with_program(words@.take(0)).memory);
        while i < words.len()
            invariant
                words@.len() <= 32768,
                i <= words@.len(),
                self@.well_formed(),
                self@ == old(self)@.with_program(words@.take(i as int)),
            decreases words@.len() - i,
        {
            self.memory[i] = words[i];
            assert(self@.memory =~= old(self)@.with_program(words@.take(i + 1)).memory);
            i += 1;
        }
        assert(words@.take(i as int) =~= words@);
        Ok(())
    }

    /// Loads a program image: each pair of bytes, low byte first, is one
    /// word, a last single byte is a word of its own, and the words go into
    /// memory from address 0 on. An image of more than 65536 bytes is refused
    /// and nothing changes.
    pub fn init(&mut self, bytes: &[u8]) -> (r: Result<(), Fault>)
        requires
            old(self)@.well_formed(),
        ensures
            final(self)@.well_formed(),
            bytes@.len() > 65536 ==> r == Err::<(), Fault>(Fault::ProgramTooLarge) && final(self)@
                == old(self)@,
            bytes@.len() <= 65536 ==> r == Ok::<(), Fault>(()) && final(self)@
                == old(self)@.with_program(decode_words(bytes@)),
    {
        if bytes.len() > MAX_PROGRAM_BYTES {
            return Err(Fault::ProgramTooLarge);
        }
        let words: Vec<u16> = from_binary(bytes);
        self.load(words.as_slice())
    }

    /// Hands the machine further input, to be read after what it already has.
    pub fn feed(&mut self, bytes: &[u8])
        requires
            old(self)@.well_formed(),
        ensures
            final(self)@.well_formed(),
            final(self)@ == old(self)@.with_input(bytes@),
    {
        let mut i: usize = 0;
        while i < bytes.len()
            invariant
                i <= bytes@.len(),
                self@.well_formed(),
                self@ == old(self)@.with_input(bytes@.take(i as int)),
            decreases bytes@.len() - i,
        {
            self.input.push_back(bytes[i]);
            assert(self@.input =~= old(self)@.input + bytes@.take(i + 1));
            i += 1;
        }
        assert(bytes@.take(i as int) =~= bytes@);
    }

    /// Declares that no more input will come: an input instruction that
    /// finds no byte then fails instead of waiting.
    pub fn close_input(&mut self)
        requires
            old(self)@.well_formed(),
        ensures
            final(self)@.well_formed(),
            final(self)@ == old(self)@.with_input_closed(),
    {
        self.input_closed = true;
    }

    /// Hands out the bytes written since the last call, and forgets them.
    pub fn take_output(&mut self) -> (bytes: Vec<u8>)
        requires
            old(self)@.well_formed(),
        ensures
            final(self)@.well_formed(),
            bytes@ == old(self)@.output,
            final(self)@ == old(self)@.with_output_taken(),
    {
        let mut bytes: Vec<u8> = Vec::new();
        core::mem::swap(&mut self.output, &mut bytes);
        bytes
    }

    /// Takes up to `fuel` steps. A machine that halts, fails or comes to wait
    /// for input stays as it is for the steps that remain, so the machine ends
    /// in the state that `fuel` steps lead to. Says how it stands then;
    /// `Runnable` means that the steps were used up.
    pub fn run(&mut self, fuel: u64) -> (r: Outcome)
        requires
            old(self)@.well_formed(),
        ensures
            final(self)@.well_formed(),
            final(self)@ == old(self)@.steps(fuel as nat),
            r == outcome_of(final(self)@),
    {
        let mut left: u64 = fuel;
        let mut outcome: Outcome = self.outcome();
        while left > 0 && outcome == Outcome::Runnable
            invariant
                self@.well_formed(),
                outcome == outcome_of(self@),
                self@.steps(left as nat) == old(self)@.steps(fuel as nat),
            decreases left,
        {
            outcome = self.exec();
            left = left - 1;
        }
        proof {
            if left > 0 {
                lemma_inactive_steps(self@, left as nat);
            }
        }
        outcome
    }
}

} // verus!
