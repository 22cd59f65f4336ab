use spectrum_vm::vm::{FaultKind, RunOutcome, VM};

#[test]
fn load() {
    let mut vm = VM::new();
    vm.bytecode = vec![1, 1, 1, 244];
    vm.run(10_000);
    assert_eq!(vm.registers[1], 500)
}

#[test]
fn add() {
    let mut vm = VM::new();
    vm.registers[0] = 6;
    vm.registers[1] = 6;
    vm.bytecode = vec![2, 0, 1, 2];
    vm.run(10_000);
    assert_eq!(vm.registers[2], 12)
}

#[test]
fn sub() {
    let mut vm = VM::new();
    vm.registers[0] = 5;
    vm.registers[1] = 4;
    vm.bytecode = vec![3, 0, 1, 2];
    vm.run(10_000);
    assert_eq!(vm.registers[2], 1)
}

#[test]
fn mul() {
    let mut vm = VM::new();
    vm.registers[0] = 5;
    vm.registers[1] = 2;
    vm.bytecode = vec![4, 0, 1, 2];
    vm.run(10_000);
    assert_eq!(vm.registers[2], 10)
}

#[test]
fn div() {
    let mut vm = VM::new();
    vm.registers[0] = 10;
    vm.registers[1] = 3;
    vm.bytecode = vec![5, 0, 1, 2];
    vm.run(10_000);
    assert_eq!(vm.div_remainder, 1);
    assert_eq!(vm.registers[2], 3)
}

#[test]
fn div_by_0() {
    let mut vm = VM::new();
    vm.registers[0] = 2;
    vm.registers[1] = 0;
    vm.bytecode = vec![5, 0, 1, 2];
    vm.run(10_000);
    assert_eq!(vm.eq_flag, false)
}

#[test]
fn jmp() {
    let mut vm = VM::new();
    vm.registers[0] = 5;
    vm.bytecode = vec![14, 0, 0, 0];
    vm.run(10_000);
    assert_eq!(vm.program_counter, 5)
}

#[test]
fn jmpf() {
    let mut vm = VM::new();
    vm.registers[0] = 5;
    vm.bytecode = vec![15, 0, 0, 0];
    vm.run(10_000);
    assert_eq!(vm.program_counter, 7)
}

#[test]
fn jeq() {
    let mut vm = VM::new();
    vm.registers[0] = 5;
    vm.eq_flag = true;
    vm.bytecode = vec![12, 0, 0, 0];
    vm.run(10_000);
    assert_eq!(vm.program_counter, 5)
}

#[test]
fn jeq_falls_through_when_flag_clear() {
    let mut vm = VM::new();
    vm.registers[0] = 5;
    vm.eq_flag = false;
    vm.bytecode = vec![12, 0, 0, 0];
    let out = vm.run(10_000);
    assert_eq!(vm.program_counter, 4);
    assert_eq!(out, Some(RunOutcome::Exhausted));
}

#[test]
fn jneq_moves_only_on_clear_flag() {
    let mut vm = VM::new();
    vm.registers[0] = 8;
    vm.eq_flag = false;
    vm.bytecode = vec![13, 0, 0, 0];
    vm.run(10_000);
    assert_eq!(vm.program_counter, 8);

    let mut vm = VM::new();
    vm.registers[0] = 8;
    vm.eq_flag = true;
    vm.bytecode = vec![13, 0, 0, 0];
    vm.run(10_000);
    assert_eq!(vm.program_counter, 4);
}

#[test]
fn jmpb_subtracts_from_counter() {
    let mut vm = VM::new();
    // start at the JMPB at offset 8; it lands on the halt at offset 4
    vm.registers[0] = 6;
    vm.bytecode = vec![0, 0, 0, 0, 0, 0, 0, 0, 16, 0, 0, 0];
    vm.program_counter = 8;
    let out = vm.run(10_000);
    // 8 + 2 - 6 == 4: the halt at offset 4 stops the run
    assert_eq!(out, Some(RunOutcome::Halted));
    assert_eq!(vm.program_counter, 5);
}

#[test]
fn jmpb_underflow_faults() {
    let mut vm = VM::new();
    vm.registers[0] = 100;
    vm.bytecode = vec![16, 0, 0, 0];
    let out = vm.run(10_000);
    assert_eq!(
        out,
        Some(RunOutcome::Faulted { kind: FaultKind::BackwardJumpUnderflow, at: 0 })
    );
}

#[test]
fn divide_by_zero_reports_fault_and_preserves_dest() {
    let mut vm = VM::new();
    vm.registers[0] = 2;
    vm.registers[1] = 0;
    vm.registers[2] = 99;
    vm.bytecode = vec![5, 0, 1, 2];
    let out = vm.run(10_000);
    assert_eq!(
        out,
        Some(RunOutcome::Faulted { kind: FaultKind::DivideByZero, at: 0 })
    );
    assert_eq!(vm.registers[2], 99);
}

#[test]
fn division_satisfies_quotient_remainder_identity() {
    let mut vm = VM::new();
    vm.registers[0] = 10;
    vm.registers[1] = -3;
    vm.bytecode = vec![5, 0, 1, 2];
    vm.run(10_000);
    assert_eq!(vm.registers[2], -3);
    assert_eq!(vm.div_remainder, 1);
    assert_eq!(10, vm.registers[2] * vm.registers[1] + vm.div_remainder as i32);
}

#[test]
fn register_index_out_of_range_faults() {
    let mut vm = VM::new();
    vm.bytecode = vec![2, 40, 0, 0];
    let out = vm.run(10_000);
    assert_eq!(
        out,
        Some(RunOutcome::Faulted { kind: FaultKind::RegisterIndexOutOfRange, at: 0 })
    );
}

#[test]
fn unmapped_opcode_faults_but_nop_halts() {
    let mut vm = VM::new();
    vm.bytecode = vec![200, 0, 0, 0];
    let out = vm.run(10_000);
    assert_eq!(
        out,
        Some(RunOutcome::Faulted { kind: FaultKind::UnmappedOpcode, at: 0 })
    );

    let mut vm = VM::new();
    vm.bytecode = vec![24, 0, 0, 0];
    let out = vm.run(10_000);
    assert_eq!(out, Some(RunOutcome::Halted));
}

#[test]
fn truncated_instruction_faults() {
    let mut vm = VM::new();
    vm.bytecode = vec![2, 0, 1];
    let out = vm.run(10_000);
    assert_eq!(
        out,
        Some(RunOutcome::Faulted { kind: FaultKind::ProgramCounterOutOfRange, at: 0 })
    );
}

#[test]
fn inc_and_dec_adjust_by_one() {
    let mut vm = VM::new();
    vm.registers[3] = 41;
    vm.bytecode = vec![17, 3, 0, 0, 18, 3, 0, 0, 18, 3, 0, 0];
    let out = vm.run(10_000);
    assert_eq!(out, Some(RunOutcome::Exhausted));
    assert_eq!(vm.registers[3], 40);
}

#[test]
fn add_wraps_on_overflow() {
    let mut vm = VM::new();
    vm.registers[0] = i32::MAX;
    vm.registers[1] = 1;
    vm.bytecode = vec![2, 0, 1, 2];
    vm.run(10_000);
    assert_eq!(vm.registers[2], i32::MIN);
}

#[test]
fn comparisons_set_flag() {
    // GT: 7 > 3 sets the flag; LE: 7 < 3 clears it
    let mut vm = VM::new();
    vm.registers[0] = 7;
    vm.registers[1] = 3;
    vm.bytecode = vec![8, 0, 1, 0];
    vm.run(10_000);
    assert_eq!(vm.eq_flag, true);
    vm.program_counter = 0;
    vm.bytecode = vec![10, 0, 1, 0];
    vm.run(10_000);
    assert_eq!(vm.eq_flag, false);
}

#[test]
fn heap_allocate_grows_zero_filled_and_is_idempotent() {
    let mut vm = VM::new();
    vm.registers[0] = 1024;
    vm.bytecode = vec![19, 0, 0, 0];
    let out = vm.run(10_000);
    assert_eq!(out, Some(RunOutcome::Exhausted));
    assert_eq!(vm.heap.len(), 1024);
    assert!(vm.heap.iter().all(|b| *b == 0));
    // re-running with the same size leaves the length unchanged
    vm.program_counter = 0;
    vm.run(10_000);
    assert_eq!(vm.heap.len(), 1024);
}

#[test]
fn load_installs_or_extends_program() {
    let mut vm = VM::new();
    vm.load(vec![1, 0, 0, 7], false);
    assert_eq!(vm.bytecode, vec![1, 0, 0, 7]);
    vm.load(vec![0, 0, 0, 0], true);
    assert_eq!(vm.bytecode, vec![1, 0, 0, 7, 0, 0, 0, 0]);
    vm.load(vec![24, 0, 0, 0], false);
    assert_eq!(vm.bytecode, vec![24, 0, 0, 0]);
}

#[test]
fn run_budget_reports_still_running() {
    // an unconditional jump to offset 0 spins forever; the budget stops it
    let mut vm = VM::new();
    vm.registers[0] = 0;
    vm.bytecode = vec![14, 0, 0, 0];
    let out = vm.run(1000);
    assert_eq!(out, None);
    assert_eq!(vm.program_counter, 0);
}

#[test]
fn heap_allocate_negative_faults() {
    let mut vm = VM::new();
    vm.registers[0] = -1;
    vm.bytecode = vec![19, 0, 0, 0];
    let out = vm.run(10_000);
    assert_eq!(
        out,
        Some(RunOutcome::Faulted { kind: FaultKind::HeapAccessOutOfRange, at: 0 })
    );
    assert_eq!(vm.heap.len(), 0);
}

#[test]
fn jump_to_negative_target_faults() {
    let mut vm = VM::new();
    vm.registers[0] = -5;
    vm.bytecode = vec![14, 0, 0, 0];
    let out = vm.run(10_000);
    assert_eq!(
        out,
        Some(RunOutcome::Faulted { kind: FaultKind::ProgramCounterOutOfRange, at: 0 })
    );
}
