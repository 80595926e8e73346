use regvm::arith::{ArithOp, FloatRequest};
use regvm::codec::{assemble, encode};
use regvm::error::ErrorKind;
use regvm::instruction::Instruction;
use regvm::machine::{RunResult, Status};
use regvm::value::Value;
use regvm::vm::VirtualMachine;

fn machine_for(instrs: Vec<Instruction>, heap_size: usize) -> VirtualMachine {
    VirtualMachine::new(assemble(&instrs), heap_size)
}

fn address_of(instrs: &Vec<Instruction>, index: usize) -> usize {
    assemble(&instrs[..index].to_vec()).len()
}

#[test]
fn a_new_machine_is_ready_and_zeroed() {
    let vm = VirtualMachine::new(vec![1, 2, 3], 5);
    assert_eq!(vm.status(), Status::Ready);
    assert!(!vm.executing());
    assert_eq!(vm.ip(), 0);
    assert_eq!(vm.steps(), 0);
    assert_eq!(vm.step_limit(), u64::MAX);
    assert!(!vm.eq_flag());
    assert!(!vm.gt_flag());
    assert_eq!(vm.heap_size(), 5);
    assert!(vm.stack().is_empty());
    assert!(vm.call_stack().is_empty());
    assert_eq!(vm.program(), &vec![1, 2, 3]);
    for reg in 0..8 {
        assert_eq!(vm.read(reg), Ok(Value::U8(0)));
    }
    for addr in 0..5 {
        assert_eq!(vm.load(addr), Ok(Value::U8(0)));
    }
}

#[test]
fn a_machine_may_have_an_empty_heap() {
    let mut vm = VirtualMachine::new(Vec::new(), 0);
    assert_eq!(vm.heap_size(), 0);
    assert_eq!(vm.load(0), Err(ErrorKind::AddressOutOfBounds));
    assert_eq!(vm.store(0, Value::U8(1)), Err(ErrorKind::AddressOutOfBounds));
}

#[test]
fn register_write_then_read_round_trips() {
    let mut vm = VirtualMachine::new(Vec::new(), 0);
    let values = vec![
        Value::Empty,
        Value::U8(7),
        Value::I8(-7),
        Value::U16(7),
        Value::I16(-7),
        Value::U32(7),
        Value::I32(-7),
        Value::U64(7),
        Value::I64(-7),
        Value::U128(7),
        Value::I128(-7),
        Value::F32(1.5f32.to_bits()),
        Value::F64(f64::NAN.to_bits()),
    ];
    for reg in 0..8 {
        for value in values.iter() {
            assert_eq!(vm.write(reg, *value), Ok(()));
            assert_eq!(vm.read(reg), Ok(*value));
        }
    }
}

#[test]
fn register_write_leaves_the_other_registers() {
    let mut vm = VirtualMachine::new(Vec::new(), 0);
    for reg in 0..8 {
        vm.write(reg, Value::U64(reg as u64 * 10)).unwrap();
    }
    vm.write(3, Value::I8(-3)).unwrap();
    for reg in 0..8 {
        let expected = if reg == 3 { Value::I8(-3) } else { Value::U64(reg as u64 * 10) };
        assert_eq!(vm.read(reg), Ok(expected));
    }
}

#[test]
fn register_numbers_from_eight_on_are_invalid() {
    let mut vm = VirtualMachine::new(Vec::new(), 0);
    for reg in [8, 9, 255, usize::MAX] {
        assert_eq!(vm.read(reg), Err(ErrorKind::InvalidRegister));
        assert_eq!(vm.write(reg, Value::U8(1)), Err(ErrorKind::InvalidRegister));
    }
    for reg in 0..8 {
        assert_eq!(vm.read(reg), Ok(Value::U8(0)));
    }
}

#[test]
fn heap_store_then_load_round_trips() {
    let mut vm = VirtualMachine::new(Vec::new(), 16);
    for addr in 0..16 {
        assert_eq!(vm.store(addr, Value::I64(-(addr as i64))), Ok(()));
        assert_eq!(vm.load(addr), Ok(Value::I64(-(addr as i64))));
    }
    vm.store(5, Value::Empty).unwrap();
    for addr in 0..16 {
        let expected = if addr == 5 { Value::Empty } else { Value::I64(-(addr as i64)) };
        assert_eq!(vm.load(addr), Ok(expected));
    }
    assert_eq!(vm.heap_size(), 16);
}

#[test]
fn heap_addresses_from_the_size_on_are_out_of_bounds() {
    let mut vm = VirtualMachine::new(Vec::new(), 4);
    for addr in [4, 5, 1000, usize::MAX] {
        assert_eq!(vm.load(addr), Err(ErrorKind::AddressOutOfBounds));
        assert_eq!(vm.store(addr, Value::U8(1)), Err(ErrorKind::AddressOutOfBounds));
    }
    assert_eq!(vm.heap_size(), 4);
    assert_eq!(vm.load(3), Ok(Value::U8(0)));
}

#[test]
fn push_then_pop_round_trips() {
    let mut vm = VirtualMachine::new(Vec::new(), 0);
    vm.push(Value::I32(1));
    vm.push(Value::F32(2));
    vm.push(Value::Empty);
    assert_eq!(vm.stack(), &vec![Value::I32(1), Value::F32(2), Value::Empty]);
    assert_eq!(vm.pop(), Ok(Value::Empty));
    assert_eq!(vm.pop(), Ok(Value::F32(2)));
    vm.push(Value::U8(9));
    assert_eq!(vm.pop(), Ok(Value::U8(9)));
    assert_eq!(vm.pop(), Ok(Value::I32(1)));
    assert!(vm.stack().is_empty());
}

#[test]
fn pop_from_the_empty_stack_underflows() {
    let mut vm = VirtualMachine::new(Vec::new(), 0);
    assert_eq!(vm.pop(), Err(ErrorKind::StackUnderflow));
    vm.push(Value::U8(1));
    assert_eq!(vm.pop(), Ok(Value::U8(1)));
    assert_eq!(vm.pop(), Err(ErrorKind::StackUnderflow));
    assert_eq!(vm.pop(), Err(ErrorKind::StackUnderflow));
    assert!(vm.stack().is_empty());
}

#[test]
fn store_load_pop_scenario() {
    let mut vm = machine_for(
        vec![
            Instruction::Vstore(2, Value::I32(7)),
            Instruction::Vload(2),
            Instruction::Vpop(0),
        ],
        4,
    );
    let mut sink = Vec::new();
    assert_eq!(vm.run(&mut sink), RunResult::Halted);
    assert_eq!(vm.read(0), Ok(Value::I32(7)));
    assert_eq!(vm.status(), Status::Halted);
    assert_eq!(vm.load(2), Ok(Value::I32(7)));
    assert!(vm.stack().is_empty());
    assert_eq!(vm.steps(), 3);
    assert_eq!(vm.ip(), vm.program().len());
    assert!(sink.is_empty());
}

#[test]
fn abort_alone_halts_after_one_step() {
    let mut vm = VirtualMachine::new(encode(Instruction::Abort), 0);
    assert_eq!(vm.status(), Status::Ready);
    let mut sink = Vec::new();
    assert_eq!(vm.run(&mut sink), RunResult::Halted);
    assert_eq!(vm.status(), Status::Halted);
    assert_eq!(vm.steps(), 1);
    assert_eq!(vm.ip(), 0);
}

#[test]
fn abort_halts_by_single_steps() {
    let mut vm = VirtualMachine::new(encode(Instruction::Abort), 0);
    assert_eq!(vm.step(), None);
    assert_eq!(vm.status(), Status::Ready);
    assert_eq!(vm.steps(), 0);
    vm.start();
    assert_eq!(vm.status(), Status::Running);
    assert!(vm.executing());
    assert_eq!(vm.step(), None);
    assert_eq!(vm.status(), Status::Halted);
    assert_eq!(vm.steps(), 1);
    assert_eq!(vm.step(), None);
    assert_eq!(vm.steps(), 1);
}

#[test]
fn abort_stops_what_follows() {
    let mut vm = machine_for(
        vec![Instruction::Mov(0, Value::U8(1)), Instruction::Abort, Instruction::Mov(0, Value::U8(2))],
        0,
    );
    assert_eq!(vm.run(&mut Vec::new()), RunResult::Halted);
    assert_eq!(vm.read(0), Ok(Value::U8(1)));
    assert_eq!(vm.steps(), 2);
}

#[test]
fn the_empty_program_halts_without_a_step() {
    let mut vm = VirtualMachine::new(Vec::new(), 0);
    assert_eq!(vm.run(&mut Vec::new()), RunResult::Halted);
    assert_eq!(vm.steps(), 0);
    assert_eq!(vm.status(), Status::Halted);
}

#[test]
fn a_jump_to_itself_runs_into_the_step_ceiling() {
    let instrs = vec![Instruction::Mov(1, Value::U64(0)), Instruction::Jmp(1)];
    let target = address_of(&instrs, 1);
    let mut instrs = instrs;
    instrs[0] = Instruction::Mov(1, Value::U64(target as u64));
    let mut vm = machine_for(instrs, 0);
    vm.set_step_limit(1000);
    assert_eq!(
        vm.run(&mut Vec::new()),
        RunResult::Faulted { ip: target, kind: ErrorKind::StepLimitExceeded }
    );
    assert_eq!(vm.steps(), 1000);
    assert_eq!(vm.ip(), target);
    assert_eq!(vm.status(), Status::Faulted { ip: target, kind: ErrorKind::StepLimitExceeded });
    assert_eq!(vm.read(1), Ok(Value::U64(target as u64)));
}

#[test]
fn a_step_ceiling_of_zero_lets_nothing_run() {
    let mut vm = machine_for(vec![Instruction::Nop], 0);
    vm.set_step_limit(0);
    assert_eq!(
        vm.run(&mut Vec::new()),
        RunResult::Faulted { ip: 0, kind: ErrorKind::StepLimitExceeded }
    );
    assert_eq!(vm.steps(), 0);
}

#[test]
fn a_program_as_long_as_the_ceiling_halts() {
    let mut vm = machine_for(vec![Instruction::Nop, Instruction::Nop, Instruction::Nop], 0);
    vm.set_step_limit(3);
    assert_eq!(vm.run(&mut Vec::new()), RunResult::Halted);
    assert_eq!(vm.steps(), 3);
}

#[test]
fn a_finished_machine_stays_as_it_is() {
    let mut vm = machine_for(vec![Instruction::Mov(0, Value::U8(1)), Instruction::Vpop(0)], 0);
    let fault = RunResult::Faulted { ip: 11, kind: ErrorKind::StackUnderflow };
    assert_eq!(vm.run(&mut Vec::new()), fault);
    assert_eq!(vm.steps(), 2);
    assert_eq!(vm.run(&mut Vec::new()), fault);
    assert_eq!(vm.steps(), 2);
    vm.start();
    assert_eq!(vm.status(), Status::Faulted { ip: 11, kind: ErrorKind::StackUnderflow });
    assert!(!vm.resume(Value::F32(0)));
}

#[test]
fn compare_sets_the_flags() {
    let mut vm = VirtualMachine::new(Vec::new(), 0);
    vm.write(0, Value::I32(5)).unwrap();
    vm.write(1, Value::I32(5)).unwrap();
    vm.write(2, Value::I32(-5)).unwrap();
    assert_eq!(vm.execute(Instruction::Cmp(0, 1), 17), Ok(None));
    assert!(vm.eq_flag());
    assert!(!vm.gt_flag());
    assert_eq!(vm.ip(), 17);
    assert_eq!(vm.execute(Instruction::Cmp(0, 2), 34), Ok(None));
    assert!(!vm.eq_flag());
    assert!(vm.gt_flag());
    assert_eq!(vm.execute(Instruction::Cmp(2, 0), 51), Ok(None));
    assert!(!vm.eq_flag());
    assert!(!vm.gt_flag());
    assert_eq!(vm.ip(), 51);
    assert!(vm.stack().is_empty());
    assert_eq!(vm.read(0), Ok(Value::I32(5)));
}

#[test]
fn compare_of_mismatched_registers_faults_and_keeps_the_flags() {
    let mut vm = VirtualMachine::new(Vec::new(), 0);
    vm.write(0, Value::U8(5)).unwrap();
    vm.write(1, Value::I8(5)).unwrap();
    vm.execute(Instruction::Cmp(0, 0), 1).unwrap();
    assert_eq!(vm.execute(Instruction::Cmp(0, 1), 2), Err(ErrorKind::TypeMismatch));
    assert!(vm.eq_flag());
    assert_eq!(vm.ip(), 1);
    assert_eq!(vm.execute(Instruction::Cmp(0, 8), 2), Err(ErrorKind::InvalidRegister));
    assert_eq!(vm.execute(Instruction::Cmp(8, 0), 2), Err(ErrorKind::InvalidRegister));
}

#[test]
fn conditional_jumps_follow_the_flags() {
    let mut vm = VirtualMachine::new(Vec::new(), 0);
    vm.write(7, Value::U16(500)).unwrap();
    vm.write(0, Value::U8(1)).unwrap();
    vm.write(1, Value::U8(2)).unwrap();
    // equal
    vm.execute(Instruction::Cmp(0, 0), 0).unwrap();
    vm.execute(Instruction::Je(7), 9).unwrap();
    assert_eq!(vm.ip(), 500);
    vm.execute(Instruction::Jne(7), 9).unwrap();
    assert_eq!(vm.ip(), 9);
    vm.execute(Instruction::Jg(7), 10).unwrap();
    assert_eq!(vm.ip(), 10);
    vm.execute(Instruction::Jl(7), 11).unwrap();
    assert_eq!(vm.ip(), 11);
    // greater
    vm.execute(Instruction::Cmp(1, 0), 0).unwrap();
    vm.execute(Instruction::Je(7), 9).unwrap();
    assert_eq!(vm.ip(), 9);
    vm.execute(Instruction::Jne(7), 10).unwrap();
    assert_eq!(vm.ip(), 500);
    vm.execute(Instruction::Jl(7), 11).unwrap();
    assert_eq!(vm.ip(), 11);
    vm.execute(Instruction::Jg(7), 12).unwrap();
    assert_eq!(vm.ip(), 500);
    // less
    vm.execute(Instruction::Cmp(0, 1), 0).unwrap();
    vm.execute(Instruction::Je(7), 9).unwrap();
    assert_eq!(vm.ip(), 9);
    vm.execute(Instruction::Jg(7), 10).unwrap();
    assert_eq!(vm.ip(), 10);
    vm.execute(Instruction::Jne(7), 11).unwrap();
    assert_eq!(vm.ip(), 500);
    vm.execute(Instruction::Nop, 12).unwrap();
    vm.execute(Instruction::Jl(7), 13).unwrap();
    assert_eq!(vm.ip(), 500);
}

#[test]
fn a_jump_not_taken_does_not_look_at_its_register() {
    let mut vm = VirtualMachine::new(Vec::new(), 0);
    vm.write(0, Value::F32(0)).unwrap();
    assert_eq!(vm.execute(Instruction::Je(0), 5), Ok(None));
    assert_eq!(vm.ip(), 5);
    assert_eq!(vm.execute(Instruction::Jg(99), 6), Ok(None));
    assert_eq!(vm.ip(), 6);
    assert_eq!(vm.execute(Instruction::Jne(0), 7), Err(ErrorKind::TypeMismatch));
    assert_eq!(vm.execute(Instruction::Jl(99), 7), Err(ErrorKind::InvalidRegister));
    assert_eq!(vm.ip(), 6);
}

#[test]
fn a_jump_needs_an_address_in_its_register() {
    let mut vm = VirtualMachine::new(Vec::new(), 0);
    let bad = vec![
        Value::Empty,
        Value::I8(-1),
        Value::I64(-1),
        Value::F32(3),
        Value::F64(3),
        Value::U128(u128::MAX),
    ];
    for value in bad {
        vm.write(0, value).unwrap();
        assert_eq!(vm.execute(Instruction::Jmp(0), 1), Err(ErrorKind::TypeMismatch));
        assert_eq!(vm.execute(Instruction::Call(0), 1), Err(ErrorKind::TypeMismatch));
        assert_eq!(vm.ip(), 0);
        assert!(vm.call_stack().is_empty());
    }
    assert_eq!(vm.execute(Instruction::Jmp(8), 1), Err(ErrorKind::InvalidRegister));
    vm.write(0, Value::I16(300)).unwrap();
    assert_eq!(vm.execute(Instruction::Jmp(0), 1), Ok(None));
    assert_eq!(vm.ip(), 300);
}

#[test]
fn a_jump_beyond_the_program_halts_the_run() {
    let mut vm = machine_for(
        vec![Instruction::Mov(0, Value::U32(100_000)), Instruction::Jmp(0), Instruction::Mov(1, Value::U8(1))],
        0,
    );
    assert_eq!(vm.run(&mut Vec::new()), RunResult::Halted);
    assert_eq!(vm.ip(), 100_000);
    assert_eq!(vm.read(1), Ok(Value::U8(0)));
    assert_eq!(vm.steps(), 2);
}

#[test]
fn call_then_ret_goes_on_after_the_call() {
    let mut vm = VirtualMachine::new(Vec::new(), 0);
    for target in [0usize, 1, 77, 4096] {
        vm.write(2, Value::U64(target as u64)).unwrap();
        let before = vm.ip();
        assert_eq!(vm.execute(Instruction::Call(2), before + 9), Ok(None));
        assert_eq!(vm.ip(), target);
        assert_eq!(vm.call_stack(), &vec![before + 9]);
        assert_eq!(vm.execute(Instruction::Ret, target + 1), Ok(None));
        assert_eq!(vm.ip(), before + 9);
        assert!(vm.call_stack().is_empty());
    }
}

#[test]
fn calls_nest() {
    let mut vm = VirtualMachine::new(Vec::new(), 0);
    vm.write(0, Value::U8(100)).unwrap();
    vm.write(1, Value::U8(200)).unwrap();
    vm.execute(Instruction::Call(0), 9).unwrap();
    vm.execute(Instruction::Call(1), 109).unwrap();
    assert_eq!(vm.call_stack(), &vec![9, 109]);
    assert_eq!(vm.ip(), 200);
    vm.execute(Instruction::Ret, 201).unwrap();
    assert_eq!(vm.ip(), 109);
    vm.execute(Instruction::Ret, 110).unwrap();
    assert_eq!(vm.ip(), 9);
    assert_eq!(vm.execute(Instruction::Ret, 10), Err(ErrorKind::CallStackUnderflow));
    assert_eq!(vm.ip(), 9);
}

#[test]
fn a_subroutine_runs_and_returns() {
    // 0: mov r0, <sub>   1: call r0   2: abort   3 (sub): vpush 5   4: ret
    let mut instrs = vec![
        Instruction::Mov(0, Value::U64(0)),
        Instruction::Call(0),
        Instruction::Abort,
        Instruction::Vpush(Value::U8(5)),
        Instruction::Ret,
    ];
    let sub = address_of(&instrs, 3);
    let abort = address_of(&instrs, 2);
    instrs[0] = Instruction::Mov(0, Value::U64(sub as u64));
    let mut vm = machine_for(instrs, 0);
    assert_eq!(vm.run(&mut Vec::new()), RunResult::Halted);
    assert_eq!(vm.stack(), &vec![Value::U8(5)]);
    assert_eq!(vm.ip(), abort);
    assert_eq!(vm.steps(), 5);
    assert!(vm.call_stack().is_empty());
}

#[test]
fn data_pushes_cannot_touch_the_return_address() {
    let mut vm = VirtualMachine::new(Vec::new(), 0);
    vm.write(0, Value::U8(50)).unwrap();
    vm.execute(Instruction::Call(0), 9).unwrap();
    vm.execute(Instruction::Vpush(Value::U64(1234)), 51).unwrap();
    vm.execute(Instruction::Vpop(1), 52).unwrap();
    vm.execute(Instruction::Vpush(Value::U64(99)), 53).unwrap();
    vm.execute(Instruction::Ret, 54).unwrap();
    assert_eq!(vm.ip(), 9);
    assert_eq!(vm.stack(), &vec![Value::U64(99)]);
}

#[test]
fn ret_without_call_faults() {
    let mut vm = machine_for(vec![Instruction::Nop, Instruction::Ret], 0);
    assert_eq!(
        vm.run(&mut Vec::new()),
        RunResult::Faulted { ip: 1, kind: ErrorKind::CallStackUnderflow }
    );
    assert_eq!(vm.ip(), 1);
    assert_eq!(vm.steps(), 2);
}

#[test]
fn moves_copy_values() {
    let mut vm = VirtualMachine::new(Vec::new(), 2);
    assert_eq!(vm.execute(Instruction::Mov(3, Value::I16(-9)), 1), Ok(None));
    assert_eq!(vm.read(3), Ok(Value::I16(-9)));
    assert_eq!(vm.execute(Instruction::Movr(4, 3), 2), Ok(None));
    assert_eq!(vm.read(4), Ok(Value::I16(-9)));
    assert_eq!(vm.read(3), Ok(Value::I16(-9)));
    assert_eq!(vm.ip(), 2);
    assert_eq!(vm.execute(Instruction::Mov(8, Value::U8(0)), 3), Err(ErrorKind::InvalidRegister));
    assert_eq!(vm.execute(Instruction::Movr(8, 0), 3), Err(ErrorKind::InvalidRegister));
    assert_eq!(vm.execute(Instruction::Movr(0, 8), 3), Err(ErrorKind::InvalidRegister));
    assert_eq!(vm.ip(), 2);
}

#[test]
fn heap_instructions_move_values() {
    let mut vm = VirtualMachine::new(Vec::new(), 3);
    vm.execute(Instruction::Vstore(1, Value::U16(11)), 1).unwrap();
    assert_eq!(vm.load(1), Ok(Value::U16(11)));
    vm.execute(Instruction::Vloadr(5, 1), 2).unwrap();
    assert_eq!(vm.read(5), Ok(Value::U16(11)));
    vm.execute(Instruction::Mov(6, Value::I8(-4)), 3).unwrap();
    vm.execute(Instruction::Vstorer(2, 6), 4).unwrap();
    assert_eq!(vm.load(2), Ok(Value::I8(-4)));
    vm.execute(Instruction::Vload(2), 5).unwrap();
    assert_eq!(vm.stack(), &vec![Value::I8(-4)]);
    assert_eq!(vm.ip(), 5);
    assert_eq!(vm.execute(Instruction::Vstore(3, Value::U8(1)), 6), Err(ErrorKind::AddressOutOfBounds));
    assert_eq!(vm.execute(Instruction::Vload(3), 6), Err(ErrorKind::AddressOutOfBounds));
    assert_eq!(vm.execute(Instruction::Vstorer(3, 0), 6), Err(ErrorKind::AddressOutOfBounds));
    assert_eq!(vm.execute(Instruction::Vstorer(0, 8), 6), Err(ErrorKind::InvalidRegister));
    assert_eq!(vm.execute(Instruction::Vstorer(3, 8), 6), Err(ErrorKind::InvalidRegister));
    assert_eq!(vm.execute(Instruction::Vloadr(0, 3), 6), Err(ErrorKind::AddressOutOfBounds));
    assert_eq!(vm.execute(Instruction::Vloadr(8, 0), 6), Err(ErrorKind::InvalidRegister));
    assert_eq!(vm.execute(Instruction::Vloadr(8, 3), 6), Err(ErrorKind::AddressOutOfBounds));
    assert_eq!(vm.ip(), 5);
    assert_eq!(vm.stack(), &vec![Value::I8(-4)]);
}

#[test]
fn stack_instructions_move_values() {
    let mut vm = VirtualMachine::new(Vec::new(), 0);
    vm.execute(Instruction::Vpush(Value::U32(3)), 1).unwrap();
    vm.execute(Instruction::Mov(1, Value::I64(-1)), 2).unwrap();
    vm.execute(Instruction::Vpushr(1), 3).unwrap();
    assert_eq!(vm.stack(), &vec![Value::U32(3), Value::I64(-1)]);
    vm.execute(Instruction::Vpop(2), 4).unwrap();
    assert_eq!(vm.read(2), Ok(Value::I64(-1)));
    assert_eq!(vm.stack(), &vec![Value::U32(3)]);
    assert_eq!(vm.execute(Instruction::Vpop(8), 5), Err(ErrorKind::InvalidRegister));
    assert_eq!(vm.stack(), &vec![Value::U32(3)]);
    assert_eq!(vm.execute(Instruction::Vpushr(8), 5), Err(ErrorKind::InvalidRegister));
    vm.execute(Instruction::Vpop(0), 5).unwrap();
    assert_eq!(vm.execute(Instruction::Vpop(0), 6), Err(ErrorKind::StackUnderflow));
    assert_eq!(vm.execute(Instruction::Vpop(8), 6), Err(ErrorKind::StackUnderflow));
    assert_eq!(vm.ip(), 5);
}

#[test]
fn binary_instructions_push_and_leave_the_registers() {
    let mut vm = VirtualMachine::new(Vec::new(), 0);
    vm.write(0, Value::U8(200)).unwrap();
    vm.write(1, Value::U8(100)).unwrap();
    vm.execute(Instruction::Add(0, 1), 1).unwrap();
    vm.execute(Instruction::Sub(1, 0), 2).unwrap();
    vm.execute(Instruction::Mul(0, 1), 3).unwrap();
    vm.execute(Instruction::Div(0, 1), 4).unwrap();
    vm.execute(Instruction::And(0, 1), 5).unwrap();
    vm.execute(Instruction::Or(0, 1), 6).unwrap();
    vm.execute(Instruction::Xor(0, 1), 7).unwrap();
    vm.execute(Instruction::Shr(0, Value::I32(3)), 8).unwrap();
    vm.execute(Instruction::Shl(1, Value::U64(2)), 9).unwrap();
    assert_eq!(
        vm.stack(),
        &vec![
            Value::U8(44),
            Value::U8(156),
            Value::U8(32),
            Value::U8(2),
            Value::U8(200 & 100),
            Value::U8(200 | 100),
            Value::U8(200 ^ 100),
            Value::U8(25),
            Value::U8(144),
        ]
    );
    assert_eq!(vm.read(0), Ok(Value::U8(200)));
    assert_eq!(vm.read(1), Ok(Value::U8(100)));
    assert_eq!(vm.ip(), 9);
    assert!(!vm.eq_flag());
}

#[test]
fn binary_instructions_fault_without_a_trace() {
    let mut vm = VirtualMachine::new(Vec::new(), 0);
    vm.write(0, Value::U8(1)).unwrap();
    vm.write(1, Value::I8(1)).unwrap();
    vm.write(2, Value::U8(0)).unwrap();
    assert_eq!(vm.execute(Instruction::Add(0, 1), 1), Err(ErrorKind::TypeMismatch));
    assert_eq!(vm.execute(Instruction::Sub(0, 1), 1), Err(ErrorKind::TypeMismatch));
    assert_eq!(vm.execute(Instruction::Mul(1, 0), 1), Err(ErrorKind::TypeMismatch));
    assert_eq!(vm.execute(Instruction::Div(1, 0), 1), Err(ErrorKind::TypeMismatch));
    assert_eq!(vm.execute(Instruction::Div(0, 2), 1), Err(ErrorKind::DivisionByZero));
    assert_eq!(vm.execute(Instruction::And(0, 1), 1), Err(ErrorKind::TypeMismatch));
    assert_eq!(vm.execute(Instruction::Or(0, 8), 1), Err(ErrorKind::InvalidRegister));
    assert_eq!(vm.execute(Instruction::Xor(8, 0), 1), Err(ErrorKind::InvalidRegister));
    assert_eq!(vm.execute(Instruction::Shl(0, Value::U8(8)), 1), Err(ErrorKind::ShiftOverflow));
    assert_eq!(vm.execute(Instruction::Shr(0, Value::I8(-1)), 1), Err(ErrorKind::ShiftOverflow));
    assert_eq!(vm.execute(Instruction::Shr(0, Value::F32(1)), 1), Err(ErrorKind::TypeMismatch));
    assert_eq!(vm.execute(Instruction::Shr(9, Value::U8(1)), 1), Err(ErrorKind::InvalidRegister));
    assert!(vm.stack().is_empty());
    assert_eq!(vm.ip(), 0);
    assert_eq!(vm.status(), Status::Ready);
}

#[test]
fn prints_hand_values_to_the_sink() {
    let mut vm = machine_for(
        vec![
            Instruction::Mov(0, Value::I32(-3)),
            Instruction::Vstore(1, Value::F64(2.5f64.to_bits())),
            Instruction::Printr(0),
            Instruction::Printv(1),
            Instruction::Printr(7),
        ],
        2,
    );
    let mut sink = vec![Value::Empty];
    assert_eq!(vm.run(&mut sink), RunResult::Halted);
    assert_eq!(
        sink,
        vec![Value::Empty, Value::I32(-3), Value::F64(2.5f64.to_bits()), Value::U8(0)]
    );
    assert_eq!(vm.read(0), Ok(Value::I32(-3)));
    assert_eq!(vm.load(1), Ok(Value::F64(2.5f64.to_bits())));
    assert!(vm.stack().is_empty());
}

#[test]
fn a_print_changes_nothing_but_the_instruction_pointer() {
    let mut vm = VirtualMachine::new(Vec::new(), 1);
    vm.write(0, Value::U8(4)).unwrap();
    assert_eq!(vm.execute(Instruction::Printr(0), 9), Ok(Some(Value::U8(4))));
    assert_eq!(vm.execute(Instruction::Printv(0), 18), Ok(Some(Value::U8(0))));
    assert_eq!(vm.ip(), 18);
    assert_eq!(vm.read(0), Ok(Value::U8(4)));
    assert!(vm.stack().is_empty());
    assert_eq!(vm.execute(Instruction::Printr(8), 27), Err(ErrorKind::InvalidRegister));
    assert_eq!(vm.execute(Instruction::Printv(1), 27), Err(ErrorKind::AddressOutOfBounds));
    assert_eq!(vm.ip(), 18);
}

#[test]
fn every_fault_is_reported_with_its_address() {
    let cases: Vec<(Vec<Instruction>, usize, ErrorKind)> = vec![
        (vec![Instruction::Nop, Instruction::Printr(8)], 1, ErrorKind::InvalidRegister),
        (vec![Instruction::Nop, Instruction::Vload(4)], 1, ErrorKind::AddressOutOfBounds),
        (vec![Instruction::Nop, Instruction::Vpop(0)], 1, ErrorKind::StackUnderflow),
        (vec![Instruction::Nop, Instruction::Ret], 1, ErrorKind::CallStackUnderflow),
        (vec![Instruction::Nop, Instruction::Div(0, 1)], 1, ErrorKind::DivisionByZero),
        (
            vec![Instruction::Nop, Instruction::Shl(0, Value::U8(8))],
            1,
            ErrorKind::ShiftOverflow,
        ),
        (
            vec![Instruction::Mov(1, Value::I8(0)), Instruction::Add(0, 1)],
            11,
            ErrorKind::TypeMismatch,
        ),
    ];
    for (instrs, ip, kind) in cases {
        let mut vm = machine_for(instrs, 4);
        assert_eq!(vm.run(&mut Vec::new()), RunResult::Faulted { ip, kind });
        assert_eq!(vm.status(), Status::Faulted { ip, kind });
        assert_eq!(vm.ip(), ip);
        assert_eq!(vm.steps(), 2);
        assert!(!vm.executing());
    }
}

#[test]
fn malformed_bytes_are_a_decode_fault() {
    let mut program = encode(Instruction::Nop);
    program.push(200);
    let mut vm = VirtualMachine::new(program, 0);
    assert_eq!(
        vm.run(&mut Vec::new()),
        RunResult::Faulted { ip: 1, kind: ErrorKind::DecodeError }
    );
    assert_eq!(vm.steps(), 1);

    let mut program = encode(Instruction::Mov(0, Value::U64(1)));
    program.pop();
    let mut vm = VirtualMachine::new(program, 0);
    assert_eq!(
        vm.run(&mut Vec::new()),
        RunResult::Faulted { ip: 0, kind: ErrorKind::DecodeError }
    );
    assert_eq!(vm.steps(), 0);

    let mut vm = VirtualMachine::new(vec![24, 77], 0);
    assert_eq!(
        vm.run(&mut Vec::new()),
        RunResult::Faulted { ip: 0, kind: ErrorKind::DecodeError }
    );
}

#[test]
fn float_arithmetic_suspends_the_machine() {
    let lhs = Value::F32(1.5f32.to_bits());
    let rhs = Value::F32(2.25f32.to_bits());
    let mut vm = machine_for(
        vec![
            Instruction::Mov(0, lhs),
            Instruction::Mov(1, rhs),
            Instruction::Add(0, 1),
            Instruction::Vpop(2),
        ],
        0,
    );
    let request = FloatRequest { op: ArithOp::Add, lhs, rhs };
    assert_eq!(vm.run(&mut Vec::new()), RunResult::Suspended(request));
    assert_eq!(vm.status(), Status::Suspended(request));
    assert!(vm.stack().is_empty());
    assert_eq!(vm.steps(), 3);
    // a second run without an answer changes nothing
    assert_eq!(vm.run(&mut Vec::new()), RunResult::Suspended(request));
    assert_eq!(vm.steps(), 3);
    // an answer of the wrong kind is refused
    assert!(!vm.resume(Value::F64(0)));
    assert!(!vm.resume(Value::U32(0)));
    assert!(!vm.resume(Value::Empty));
    assert_eq!(vm.status(), Status::Suspended(request));
    assert!(vm.stack().is_empty());
    let sum = f32::from_bits(1.5f32.to_bits()) + f32::from_bits(2.25f32.to_bits());
    assert!(vm.resume(Value::F32(sum.to_bits())));
    assert_eq!(vm.status(), Status::Running);
    assert_eq!(vm.stack(), &vec![Value::F32(3.75f32.to_bits())]);
    assert_eq!(vm.run(&mut Vec::new()), RunResult::Halted);
    assert_eq!(vm.read(2), Ok(Value::F32(3.75f32.to_bits())));
    assert_eq!(vm.steps(), 4);
}

#[test]
fn float_division_by_zero_faults_without_a_request() {
    let mut vm = machine_for(
        vec![
            Instruction::Mov(0, Value::F64(1.0f64.to_bits())),
            Instruction::Mov(1, Value::F64((-0.0f64).to_bits())),
            Instruction::Div(0, 1),
        ],
        0,
    );
    let ip = vm.program().len() - 17;
    assert_eq!(
        vm.run(&mut Vec::new()),
        RunResult::Faulted { ip, kind: ErrorKind::DivisionByZero }
    );
}

#[test]
fn resume_is_refused_unless_suspended() {
    let mut vm = VirtualMachine::new(Vec::new(), 0);
    assert!(!vm.resume(Value::F32(0)));
    vm.start();
    assert!(!vm.resume(Value::F32(0)));
    assert!(vm.stack().is_empty());
    assert_eq!(vm.status(), Status::Running);
}

#[test]
fn float_compare_runs_inside_the_machine() {
    let mut vm = VirtualMachine::new(Vec::new(), 0);
    vm.write(0, Value::F64(2.5f64.to_bits())).unwrap();
    vm.write(1, Value::F64((-2.5f64).to_bits())).unwrap();
    vm.write(2, Value::F64(f64::NAN.to_bits())).unwrap();
    vm.execute(Instruction::Cmp(0, 1), 1).unwrap();
    assert!(vm.gt_flag() && !vm.eq_flag());
    vm.execute(Instruction::Cmp(1, 0), 1).unwrap();
    assert!(!vm.gt_flag() && !vm.eq_flag());
    vm.execute(Instruction::Cmp(0, 0), 1).unwrap();
    assert!(!vm.gt_flag() && vm.eq_flag());
    vm.execute(Instruction::Cmp(2, 2), 1).unwrap();
    assert!(!vm.gt_flag() && !vm.eq_flag());
}

#[test]
fn a_counting_loop_runs_to_its_end() {
    // r0 counts from 0 to 10: add r0, r1; vpop r0; cmp r0, r2; jne r3
    let mut instrs = vec![
        Instruction::Mov(0, Value::U32(0)),
        Instruction::Mov(1, Value::U32(1)),
        Instruction::Mov(2, Value::U32(10)),
        Instruction::Mov(3, Value::U64(0)),
        Instruction::Add(0, 1),
        Instruction::Vpop(0),
        Instruction::Cmp(0, 2),
        Instruction::Jne(3),
        Instruction::Printr(0),
    ];
    let top = address_of(&instrs, 4);
    instrs[3] = Instruction::Mov(3, Value::U64(top as u64));
    let mut vm = machine_for(instrs, 0);
    let mut sink = Vec::new();
    assert_eq!(vm.run(&mut sink), RunResult::Halted);
    assert_eq!(sink, vec![Value::U32(10)]);
    assert_eq!(vm.read(0), Ok(Value::U32(10)));
    assert_eq!(vm.steps(), 4 + 10 * 4 + 1);
    assert!(vm.eq_flag());
}

#[test]
fn set_step_limit_changes_only_the_ceiling() {
    let mut vm = VirtualMachine::new(vec![0, 0], 1);
    vm.set_step_limit(1);
    assert_eq!(vm.step_limit(), 1);
    assert_eq!(vm.status(), Status::Ready);
    assert_eq!(vm.ip(), 0);
    assert_eq!(
        vm.run(&mut Vec::new()),
        RunResult::Faulted { ip: 1, kind: ErrorKind::StepLimitExceeded }
    );
    assert_eq!(vm.steps(), 1);
}
