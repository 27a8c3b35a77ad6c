//! General properties of the transition function.

use vstd::prelude::*;
use crate::model::{Fault, MachineState, Status};
use crate::word::{
    complement, decode_words, encode_words, lemma_bitwise_range, lemma_complement_involution,
    lemma_decode_encode,
};

verus! {

/// Whether argument `k` of the instruction `opcode` is read as a value, and
/// not as the name of a register to write to.
pub open spec fn reads_value(opcode: u16, k: int) -> bool {
    ||| k == 1 && (opcode == 2 || opcode == 6 || opcode == 7 || opcode == 8 || opcode == 16
        || opcode == 17 || opcode == 19)
    ||| k == 2 && (opcode == 1 || opcode == 4 || opcode == 5 || opcode == 7 || opcode == 8 || (9
        <= opcode <= 16))
    ||| k == 3 && (opcode == 4 || opcode == 5 || (9 <= opcode <= 13))
}

/// Whether two states agree in everything but the memory cell `position`.
pub open spec fn agree_but_at(a: MachineState, b: MachineState, position: int) -> bool {
    &&& a.memory.len() == b.memory.len()
    &&& forall|j: int| 0 <= j < a.memory.len() && j != position ==> a.memory[j] == b.memory[j]
    &&& a.registers == b.registers
    &&& a.stack == b.stack
    &&& a.pointer == b.pointer
    &&& a.status == b.status
    &&& a.input == b.input
    &&& a.input_closed == b.input_closed
    &&& a.output == b.output
    &&& a.strict == b.strict
}

/// The cell `position` either holds the same word in both states, or holds
/// in each what stood there as the argument: the literal in the first, the
/// register's name in the second.
pub open spec fn written_alike_or_kept(
    a: MachineState,
    b: MachineState,
    position: int,
    value: u16,
    register: int,
) -> bool {
    ||| a.memory[position] == b.memory[position]
    ||| a.memory[position] == value && b.memory[position] == 32768 + register
}

/// The state in which argument `k` of the instruction at the pointer names
/// the register `register`.
pub open spec fn with_register_argument(state: MachineState, k: int, register: int) -> MachineState {
    MachineState {
        memory: state.memory.update(state.pointer + k, (32768 + register) as u16),
        ..state
    }
}

/// It makes no difference to an instruction whether an argument that it reads
/// as a value is the literal `value` or names a register that holds `value`:
/// both machines fail alike or end in states that agree in everything but the
/// cell of that argument, which holds the same in both where the instruction
/// wrote to it and is else as it was.
///
/// The one instruction of which this is not true is left out: an `rmem` that
/// reads the very cell in which its own address argument stands sees the
/// literal in one machine and the register's name in the other.
pub proof fn lemma_register_literal_symmetry(
    state: MachineState,
    k: int,
    register: int,
    value: u16,
)
    requires
        state.well_formed(),
        state.status == Status::Running,
        state.pointer < 32768,
        reads_value(state.opcode(), k),
        state.pointer + k < 32768,
        value <= 32767,
        state.memory[state.pointer + k] == value,
        0 <= register < 8,
        state.registers[register] == value,
        !(state.opcode() == 15 && value == state.pointer + 2),
    ensures
        agree_but_at(
            state.step(),
            with_register_argument(state, k, register).step(),
            state.pointer + k,
        ),
        written_alike_or_kept(
            state.step(),
            with_register_argument(state, k, register).step(),
            state.pointer + k,
            value,
            register,
        ),
{
    let other = with_register_argument(state, k, register);
    let position = state.pointer + k;
    assert(other.opcode() == state.opcode());
    assert(other.operand(k) == state.operand(k));
    assert forall|j: int| 1 <= j <= 3 && j != k implies other.operand(j) == state.operand(j)
        && other.target(j) == state.target(j) by {}
}

/// What `jt` and `jf` do is decided by whether the value of their first
/// argument is zero. Where the branch is taken (`jt` on a value other than
/// zero, `jf` on zero) the pointer becomes the value of the second argument;
/// where it is not, the pointer moves on by exactly 3. Nothing else changes.
pub proof fn lemma_conditional_jump(state: MachineState, condition: u16)
    requires
        state.well_formed(),
        state.status == Status::Running,
        state.pointer < 32768,
        state.opcode() == 7 || state.opcode() == 8,
        state.operand(1) == Ok::<u16, Fault>(condition),
    ensures
        (state.opcode() == 7) == (condition != 0) ==> state.step() == match state.operand(2) {
            Ok(destination) => state.jumped(destination as nat),
            Err(fault) => state.failed(fault),
        },
        (state.opcode() == 7) == (condition == 0) ==> state.step() == state.jumped(
            state.pointer + 3,
        ),
{
}

/// Taking one more step at the end is the same as taking it at the start.
pub proof fn lemma_steps_then_step(state: MachineState, n: nat)
    ensures
        state.steps(n + 1) == state.steps(n).step(),
    decreases n,
{
    if n > 0 {
        lemma_steps_then_step(state.step(), (n - 1) as nat);
        assert(state.steps(n + 1) == state.step().steps(n));
    } else {
        assert(state.steps(1) == state.step().steps(0));
    }
}

/// A step touches the stack at its top only: what lies below a depth that
/// the stack has before and after the step is the same before and after.
pub proof fn lemma_step_keeps_stack_below(state: MachineState, depth: int)
    requires
        0 <= depth <= state.stack.len(),
        depth <= state.step().stack.len(),
    ensures
        state.step().stack.take(depth) == state.stack.take(depth),
{
    assert(state.step().stack.take(depth) =~= state.stack.take(depth));
}

/// Steps during which the stack never gets lower than `depth` leave what lies
/// below `depth` as it was.
pub proof fn lemma_steps_keep_stack_below(state: MachineState, depth: int, n: nat)
    requires
        0 <= depth,
        forall|i: nat| i <= n ==> depth <= (#[trigger] state.steps(i)).stack.len(),
    ensures
        state.steps(n).stack.take(depth) == state.stack.take(depth),
    decreases n,
{
    if n > 0 {
        let m = (n - 1) as nat;
        assert(depth <= state.steps(m).stack.len());
        assert(depth <= state.steps(n).stack.len());
        lemma_steps_keep_stack_below(state, depth, m);
        lemma_steps_then_step(state, m);
        lemma_step_keeps_stack_below(state.steps(m), depth);
    } else {
        assert(depth <= state.steps(0).stack.len());
    }
}

/// The state as it would be if the word at `depth` had never been put on
/// the stack.
pub open spec fn without_stack_word(state: MachineState, depth: int) -> MachineState {
    MachineState { stack: state.stack.remove(depth), ..state }
}

/// Whether the instruction `opcode` puts a word on the stack or takes one off.
pub open spec fn uses_stack(opcode: u16) -> bool {
    opcode == 2 || opcode == 3 || opcode == 17 || opcode == 18
}

/// An instruction that neither pushes nor pops does the same whatever the
/// stack holds, and leaves the stack alone.
pub proof fn lemma_step_apart_from_stack(state: MachineState, stack: Seq<u16>)
    requires
        state.status == Status::Running,
        state.pointer < 32768,
        !uses_stack(state.opcode()),
    ensures
        (MachineState { stack, ..state }).step() == (MachineState { stack, ..state.step() }),
        state.step().stack == state.stack,
{
    let other = MachineState { stack, ..state };
    assert(other.opcode() == state.opcode());
    assert(other.target(1) == state.target(1));
    assert(other.operand(1) == state.operand(1));
    assert(other.operand(2) == state.operand(2));
    assert(other.operand(3) == state.operand(3));
}

/// A step does not look below the top of the stack: where a word of the
/// stack is still on it after the step, the step does to the machine without
/// that word what it does to the machine with it.
pub proof fn lemma_step_ignores_stack_below(state: MachineState, depth: int)
    requires
        0 <= depth < state.stack.len(),
        depth < state.step().stack.len(),
    ensures
        without_stack_word(state, depth).step() == without_stack_word(state.step(), depth),
{
    let lower = without_stack_word(state, depth);
    if state.status == Status::Running && state.pointer < 32768 {
        let opcode = state.opcode();
        assert(lower.opcode() == opcode);
        assert(lower.target(1) == state.target(1));
        assert(lower.operand(1) == state.operand(1));
        if opcode == 2 {
            if let Ok(word) = state.operand(1) {
                assert(state.stack.push(word).remove(depth) =~= lower.stack.push(word));
            }
            assert(lower.after_push() == without_stack_word(state.after_push(), depth));
        } else if opcode == 17 {
            let back = (state.pointer + 2) as u16;
            assert(state.stack.push(back).remove(depth) =~= lower.stack.push(back));
            assert(lower.after_call() == without_stack_word(state.after_call(), depth));
        } else if opcode == 3 {
            if state.target(1) is Ok {
                assert(state.stack.drop_last().remove(depth) =~= lower.stack.drop_last());
                assert(lower.stack.last() == state.stack.last());
            }
            assert(lower.after_pop() == without_stack_word(state.after_pop(), depth));
        } else if opcode == 18 {
            assert(state.stack.drop_last().remove(depth) =~= lower.stack.drop_last());
            assert(lower.stack.last() == state.stack.last());
            assert(lower.after_ret() == without_stack_word(state.after_ret(), depth));
        } else {
            lemma_step_apart_from_stack(state, lower.stack);
        }
    }
}

/// The same of any number of steps during which the word stays on the stack.
pub proof fn lemma_steps_ignore_stack_below(state: MachineState, depth: int, n: nat)
    requires
        0 <= depth,
        forall|i: nat| i <= n ==> depth < (#[trigger] state.steps(i)).stack.len(),
    ensures
        without_stack_word(state, depth).steps(n) == without_stack_word(state.steps(n), depth),
    decreases n,
{
    if n > 0 {
        let m = (n - 1) as nat;
        assert(depth < state.steps(m).stack.len());
        assert(depth < state.steps(n).stack.len());
        lemma_steps_ignore_stack_below(state, depth, m);
        lemma_steps_then_step(state, m);
        lemma_steps_then_step(without_stack_word(state, depth), m);
        lemma_step_ignores_stack_below(state.steps(m), depth);
    } else {
        assert(depth < state.steps(0).stack.len());
    }
}

/// A call comes back to where it was made, and the subroutine does what its
/// code would do without the call. Let a running machine be at a `call` whose
/// argument has the value `entry`. If during the `n` steps that follow the
/// call the stack never gets lower than it is right after the call, and the
/// machine then stands at a `ret` with the stack as high as right after the
/// call, then that `ret` puts the pointer two cells behind the `call`, and the
/// stack is again what it was before the call. In everything but the pointer
/// the machine is then what `n` steps make of the machine that was moved to
/// `entry` without a call: the same registers, memory, stack, input and output.
///
/// The condition on the stack is what keeps the return address in place: a
/// subroutine that leaves a word of its own on the stack returns to that word.
/// Calls within the subroutine are covered, as long as they come back.
pub proof fn lemma_call_returns(state: MachineState, entry: u16, n: nat)
    requires
        state.well_formed(),
        state.status == Status::Running,
        state.pointer < 32768,
        state.opcode() == 17,
        state.operand(1) == Ok::<u16, Fault>(entry),
        forall|i: nat|
            i <= n ==> (#[trigger] state.step().steps(i)).stack.len() > state.stack.len(),
        state.step().steps(n).stack.len() == state.stack.len() + 1,
        state.step().steps(n).status == Status::Running,
        state.step().steps(n).pointer < 32768,
        state.step().steps(n).opcode() == 18,
    ensures
        state.step().steps(n).step() == (MachineState {
            pointer: state.pointer + 2,
            stack: state.stack,
            ..state.step().steps(n)
        }),
        state.step().steps(n).step() == (MachineState {
            pointer: state.pointer + 2,
            ..state.jumped(entry as nat).steps(n)
        }),
{
    let called = state.step();
    let body = called.steps(n);
    let depth: int = state.stack.len() as int;
    assert(called.stack == state.stack.push((state.pointer + 2) as u16));
    lemma_steps_keep_stack_below(called, depth + 1, n);
    assert(body.stack.take(depth + 1) =~= body.stack);
    assert(called.stack.take(depth + 1) =~= called.stack);
    assert(body.stack == called.stack);
    assert(body.stack.drop_last() =~= state.stack);
    assert(body.stack.last() == state.pointer + 2);
    lemma_steps_ignore_stack_below(called, depth, n);
    assert(called.stack.remove(depth) =~= state.stack);
    assert(without_stack_word(called, depth) == state.jumped(entry as nat));
    assert(body.stack.remove(depth) =~= state.stack);
}

/// A word that is no opcode fails a strict machine, as a new machine is, and
/// changes nothing else; a lenient machine moves on by one cell.
pub proof fn lemma_unknown_opcode(state: MachineState)
    requires
        state.well_formed(),
        state.status == Status::Running,
        state.pointer < 32768,
        state.opcode() > 21,
    ensures
        state.strict ==> state.step() == state.failed(Fault::UnknownOpcode),
        !state.strict ==> state.step() == state.jumped(state.pointer + 1),
        MachineState::initial().strict,
{
}

/// A program image that was made by encoding `words` puts exactly `words`
/// into memory, from address 0 on, and leaves the cells behind them alone.
pub proof fn lemma_load_round_trip(state: MachineState, words: Seq<u16>)
    requires
        state.well_formed(),
        words.len() <= 32768,
    ensures
        state.with_program(decode_words(encode_words(words))) == state.with_program(words),
        state.with_program(words).memory.take(words.len() as int) == words,
        state.with_program(words).memory.skip(words.len() as int) == state.memory.skip(
            words.len() as int,
        ),
{
    lemma_decode_encode(words);
    assert(state.with_program(words).memory.take(words.len() as int) =~= words);
    assert(state.with_program(words).memory.skip(words.len() as int) =~= state.memory.skip(
        words.len() as int,
    ));
}


/// `add` and `mult` put the sum and the product of the values of their second
/// and third argument, reduced modulo 2^15, into the register that their first
/// argument names, and move the pointer on by 4.
pub proof fn lemma_arithmetic_is_modular(state: MachineState, a: int, b: u16, c: u16)
    requires
        state.well_formed(),
        state.status == Status::Running,
        state.pointer < 32768,
        state.opcode() == 9 || state.opcode() == 10,
        state.target(1) == Ok::<int, Fault>(a),
        state.operand(2) == Ok::<u16, Fault>(b),
        state.operand(3) == Ok::<u16, Fault>(c),
    ensures
        state.opcode() == 9 ==> state.step() == state.stored(a, ((b + c) % 32768) as u16, 4),
        state.opcode() == 10 ==> state.step() == state.stored(a, ((b * c) % 32768) as u16, 4),
        state.step().registers[a] < 32768,
{
}

/// `not` puts a word of 15 bits into its register, and two `not` in a row on
/// a word of 15 bits give that word back.
pub proof fn lemma_not_is_involution(state: MachineState, a: int, b: u16)
    requires
        state.well_formed(),
        state.status == Status::Running,
        state.pointer < 32768,
        state.opcode() == 14,
        state.target(1) == Ok::<int, Fault>(a),
        state.operand(2) == Ok::<u16, Fault>(b),
    ensures
        state.step() == state.stored(a, complement(b), 3),
        state.step().registers[a] < 32768,
        b < 32768 ==> complement(state.step().registers[a]) == b,
{
    lemma_complement_involution(b);
}

/// Whether every word of a sequence is below 2^15.
pub open spec fn all_in_range(words: Seq<u16>) -> bool {
    forall|i: int| 0 <= i < words.len() ==> words[i] < 32768
}

/// Whether the instruction at the pointer brings a word of 16 bits into a
/// register or onto the stack: an `rmem` that reads a memory cell holding a
/// word above 32767, as the cells of a program may, or a `call` in one of the
/// last two cells of memory, whose return address is above 32767.
pub open spec fn brings_wide_word(state: MachineState) -> bool {
    &&& state.status == Status::Running
    &&& state.pointer < 32768
    &&& {
        ||| state.opcode() == 15 && match state.operand(2) {
            Ok(address) => address < 32768 && state.memory[address as int] >= 32768,
            Err(_) => false,
        }
        ||| state.opcode() == 17 && state.pointer + 2 >= 32768
    }
}

/// Words stay within 15 bits. Where all registers and all words on the stack
/// are below 2^15, they are so after a step, and a memory cell that the step
/// changed holds a word below 2^15, unless the instruction brings a word of 16
/// bits in from the program's own cells.
pub proof fn lemma_step_keeps_words_in_range(state: MachineState)
    requires
        state.well_formed(),
        all_in_range(state.registers),
        all_in_range(state.stack),
        !brings_wide_word(state),
    ensures
        all_in_range(state.step().registers),
        all_in_range(state.step().stack),
        forall|j: int|
            0 <= j < 32768 ==> state.step().memory[j] == state.memory[j] || state.step().memory[j]
                < 32768,
{
    if state.status == Status::Running && state.pointer < 32768 {
        let opcode = state.opcode();
        assert forall|k: int| 1 <= k <= 3 implies match #[trigger] state.operand(k) {
            Ok(value) => value < 32768,
            Err(_) => true,
        } by {}
        if opcode == 12 || opcode == 13 {
            if state.operand(2) is Ok && state.operand(3) is Ok {
                lemma_bitwise_range(state.operand(2)->Ok_0, state.operand(3)->Ok_0);
            }
        }
        if opcode == 14 && state.operand(2) is Ok {
            lemma_complement_involution(state.operand(2)->Ok_0);
        }
    }
}

} // verus!
