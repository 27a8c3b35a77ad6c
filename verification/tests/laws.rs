use synacor_vm::vm::{Outcome, VirtualMachine};

fn loaded(words: &[u16]) -> VirtualMachine {
    let mut vm = VirtualMachine::new();
    assert_eq!(vm.load(words), Ok(()));
    vm
}

fn same_but_memory(a: &VirtualMachine, b: &VirtualMachine) {
    assert_eq!(a.registers(), b.registers());
    assert_eq!(a.stack(), b.stack());
    assert_eq!(a.pointer(), b.pointer());
    assert_eq!(a.status(), b.status());
    assert_eq!(a.output(), b.output());
}

#[test]
fn literal_and_register_argument_act_alike() {
    // each program sets r7 to 300 and then runs one instruction, once with
    // the literal 300 and once with r7 in the same place
    let cases: Vec<(Vec<u16>, usize)> = vec![
        (vec![1, 32768, 300], 2),
        (vec![2, 300], 1),
        (vec![4, 32768, 300, 300], 2),
        (vec![4, 32768, 300, 300], 3),
        (vec![5, 32768, 300, 7], 2),
        (vec![6, 300], 1),
        (vec![7, 300, 9], 1),
        (vec![7, 1, 300], 2),
        (vec![8, 300, 9], 1),
        (vec![8, 0, 300], 2),
        (vec![9, 32768, 300, 32700], 2),
        (vec![10, 32768, 500, 300], 3),
        (vec![11, 32768, 1000, 300], 3),
        (vec![11, 32768, 300, 0], 2),
        (vec![12, 32768, 300, 511], 2),
        (vec![13, 32768, 511, 300], 3),
        (vec![14, 32768, 300], 2),
        (vec![15, 32768, 300], 2),
        (vec![16, 300, 5], 1),
        (vec![16, 5, 300], 2),
        (vec![17, 300], 1),
        (vec![19, 300], 1),
    ];
    for (instruction, k) in cases {
        let mut with_literal: Vec<u16> = vec![1, 32775, 300];
        with_literal.extend_from_slice(&instruction);
        assert_eq!(with_literal[3 + k], 300);
        let mut with_register = with_literal.clone();
        with_register[3 + k] = 32775;
        let mut a = loaded(&with_literal);
        let mut b = loaded(&with_register);
        assert_eq!(a.run(2), b.run(2));
        same_but_memory(&a, &b);
        for j in 0..32768 {
            if j != 3 + k {
                assert_eq!(a.memory()[j], b.memory()[j]);
            }
        }
    }
}

#[test]
fn write_to_the_argument_cell_is_alike_too() {
    // wmem 4 <- 9 where cell 4 is the first argument of the wmem itself
    let mut a = loaded(&[1, 32775, 4, 16, 4, 9]);
    let mut b = loaded(&[1, 32775, 4, 16, 32775, 9]);
    assert_eq!(a.run(2), Outcome::Runnable);
    assert_eq!(b.run(2), Outcome::Runnable);
    same_but_memory(&a, &b);
    assert_eq!(a.memory(), b.memory());
    assert_eq!(a.memory()[4], 9);
}

#[test]
fn rmem_of_its_own_argument_sees_the_difference() {
    let mut a = loaded(&[1, 32775, 5, 15, 32768, 5]);
    let mut b = loaded(&[1, 32775, 5, 15, 32768, 32775]);
    a.run(2);
    b.run(2);
    assert_eq!(a.registers()[0], 5);
    assert_eq!(b.registers()[0], 32775);
}

#[test]
fn call_with_balanced_body_returns_behind_the_call() {
    // 0: push 11; 2: call 10; 4: halt; 10: push 5; push 6; pop r0; pop r1; out r0; ret
    let mut program: Vec<u16> = vec![2, 11, 17, 10, 0, 0, 0, 0, 0, 0];
    program.extend_from_slice(&[2, 5, 2, 6, 3, 32768, 3, 32769, 19, 32768, 18]);
    let mut vm = loaded(&program);
    assert_eq!(vm.run(1), Outcome::Runnable);
    let stack_before: Vec<u16> = vm.stack().to_vec();
    assert_eq!(vm.run(1), Outcome::Runnable);
    assert_eq!(vm.stack(), &[11u16, 4][..]);
    assert_eq!(vm.run(5), Outcome::Runnable);
    assert_eq!(vm.memory()[vm.pointer() as usize], 18);
    assert_eq!(vm.stack().len(), stack_before.len() + 1);
    assert_eq!(vm.run(1), Outcome::Runnable);
    assert_eq!(vm.pointer(), 2 + 2);
    assert_eq!(vm.stack(), &stack_before[..]);
    assert_eq!(&vm.registers()[0..2], &[6, 5][..]);
    assert_eq!(vm.output(), &[6u8][..]);
    assert_eq!(vm.run(1), Outcome::Halted);
}

#[test]
fn body_that_leaves_a_word_returns_to_that_word() {
    // 0: call 4; 2: halt; 4: push 7; ret; 7: out 33; halt
    let mut vm = loaded(&[17, 4, 0, 0, 2, 7, 18, 19, 33, 0]);
    assert_eq!(vm.run(3), Outcome::Runnable);
    assert_eq!(vm.pointer(), 7);
    assert_eq!(vm.stack(), &[2u16][..]);
}

#[test]
fn nested_calls_return_in_turn() {
    // 0: call 3; 2: halt; 3: call 6; 5: ret; 6: set r0 1; ret
    let mut vm = loaded(&[17, 3, 0, 17, 6, 18, 1, 32768, 1, 18]);
    assert_eq!(vm.run(4), Outcome::Runnable);
    assert_eq!(vm.pointer(), 5);
    assert_eq!(vm.stack(), &[2u16][..]);
    assert_eq!(vm.run(1), Outcome::Runnable);
    assert_eq!(vm.pointer(), 2);
    assert!(vm.stack().is_empty());
    assert_eq!(vm.run(10), Outcome::Halted);
    assert_eq!(vm.registers()[0], 1);
}

#[test]
fn fall_through_advances_by_exactly_three() {
    for pointer in [0u16, 100, 32764, 32765] {
        for (opcode, condition) in [(7u16, 0u16), (8, 1), (8, 32767)] {
            let mut vm = loaded(&[16, pointer, opcode, 16, pointer + 1, condition, 6, pointer]);
            if pointer == 0 {
                vm = loaded(&[opcode, condition, 50]);
            } else {
                assert_eq!(vm.run(3), Outcome::Runnable);
            }
            assert_eq!(vm.pointer(), pointer);
            let stack: Vec<u16> = vm.stack().to_vec();
            let registers: Vec<u16> = vm.registers().to_vec();
            let memory: Vec<u16> = vm.memory().to_vec();
            assert_eq!(vm.exec(), Outcome::Runnable);
            assert_eq!(vm.pointer(), pointer + 3);
            assert_eq!(vm.stack(), &stack[..]);
            assert_eq!(vm.registers(), &registers[..]);
            assert_eq!(vm.memory(), &memory[..]);
        }
    }
}

#[test]
fn taken_branch_goes_to_the_second_argument() {
    for (opcode, condition) in [(7u16, 1u16), (7, 32767), (8, 0)] {
        let mut vm = loaded(&[opcode, condition, 1234]);
        assert_eq!(vm.exec(), Outcome::Runnable);
        assert_eq!(vm.pointer(), 1234);
    }
    // through registers: r0 = 0, r1 = 77
    let mut vm = loaded(&[1, 32769, 77, 8, 32768, 32769]);
    assert_eq!(vm.run(2), Outcome::Runnable);
    assert_eq!(vm.pointer(), 77);
}

#[test]
fn run_is_the_same_as_stepping() {
    let program: Vec<u16> = vec![
        1, 32768, 5, 9, 32769, 32769, 32768, 9, 32768, 32768, 32767, 7, 32768, 3, 19, 32769, 0,
    ];
    for fuel in 0..20u64 {
        let mut a = loaded(&program);
        let mut b = loaded(&program);
        let by_run = a.run(fuel);
        let mut by_step = b.outcome();
        for _ in 0..fuel {
            by_step = b.exec();
        }
        assert_eq!(by_run, by_step);
        same_but_memory(&a, &b);
        assert_eq!(a.memory(), b.memory());
    }
    let mut vm = loaded(&program);
    assert_eq!(vm.run(1000), Outcome::Halted);
    assert_eq!(vm.registers()[1], 15);
    assert_eq!(vm.output(), &[15u8][..]);
}

#[test]
fn words_stay_within_fifteen_bits() {
    let mut vm = loaded(&[
        9, 32768, 32767, 32767, 10, 32769, 32767, 32767, 14, 32770, 0, 13, 32771, 32767, 21845,
        2, 32770, 3, 32772, 16, 100, 32770, 17, 25, 0, 18,
    ]);
    let mut steps = 0;
    while vm.exec() == Outcome::Runnable {
        steps += 1;
        assert!(vm.registers().iter().all(|&w| w < 32768));
        assert!(vm.stack().iter().all(|&w| w < 32768));
    }
    assert_eq!(steps, 9);
    assert_eq!(vm.memory()[100], 32767);
    assert_eq!(&vm.registers()[0..5], &[32766, 1, 32767, 32767, 32767][..]);
}

#[test]
fn subroutine_does_what_its_code_does_without_the_call() {
    // the body at 10: push 5; push 6; pop r0; pop r1; add r2 r0 r1; out r2; wmem 100 r2; ret
    let body: Vec<u16> = vec![
        2, 5, 2, 6, 3, 32768, 3, 32769, 9, 32770, 32768, 32769, 19, 32770, 16, 100, 32770, 18,
    ];
    let mut with_call: Vec<u16> = vec![17, 10, 0, 0, 0, 0, 0, 0, 0, 0];
    with_call.extend_from_slice(&body);
    let mut with_jump = with_call.clone();
    with_jump[0] = 6;
    let mut called = loaded(&with_call);
    let mut moved = loaded(&with_jump);
    // the call, seven instructions of the body, the ret
    assert_eq!(called.run(1 + 7 + 1), Outcome::Runnable);
    // the jump and the same seven instructions
    assert_eq!(moved.run(1 + 7), Outcome::Runnable);
    assert_eq!(called.pointer(), 2);
    assert_eq!(moved.memory()[moved.pointer() as usize], 18);
    assert_eq!(called.registers(), moved.registers());
    assert_eq!(called.stack(), moved.stack());
    assert!(called.stack().is_empty());
    assert_eq!(called.output(), moved.output());
    assert_eq!(&called.memory()[1..], &moved.memory()[1..]);
    assert_eq!(called.memory()[100], 11);
    assert_eq!(called.output(), &[11u8][..]);
}
