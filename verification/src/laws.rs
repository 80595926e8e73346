//! What holds of the machine in general, proved from its model.
use vstd::prelude::*;
use crate::arith::{exact, spec_arithmetic, ArithOp, FloatRequest, Outcome};
use crate::codec::{encoding, lemma_decode_encoding, spec_decode_next};
use crate::compare::{spec_compare, Flags};
use crate::error::ErrorKind;
use crate::instruction::{Address, Instruction, Reg};
use crate::machine::{Machine, Status, REGISTERS};
use crate::value::Value;

verus! {

// The memory model.

/// A value written to a register is the value read from it, and no other
/// register is changed by the write.
pub proof fn lemma_write_then_read(m: Machine, reg: Reg, value: Value)
    requires
        m.wf(),
        reg < REGISTERS,
    ensures
        m.write(reg, value) is Ok,
        m.write(reg, value)->Ok_0.read(reg) == Ok::<Value, ErrorKind>(value),
        forall|other: Reg|
            other != reg ==> #[trigger] m.write(reg, value)->Ok_0.read(other) == m.read(other),
{
}

/// A value stored in a heap slot is the value loaded from it, and no other
/// slot is changed by the store.
pub proof fn lemma_store_then_load(m: Machine, addr: Address, value: Value)
    requires
        addr < m.heap.len(),
    ensures
        m.store(addr, value) is Ok,
        m.store(addr, value)->Ok_0.load(addr) == Ok::<Value, ErrorKind>(value),
        forall|other: Address|
            other != addr ==> #[trigger] m.store(addr, value)->Ok_0.load(other) == m.load(other),
{
}

/// A value pushed is the value popped, and the pop leaves the machine as
/// it was before the push.
pub proof fn lemma_push_then_pop(m: Machine, value: Value)
    ensures
        m.push(value).pop() == Ok::<(Value, Machine), ErrorKind>((value, m)),
{
    assert(m.stack.push(value).drop_last() =~= m.stack);
    assert(m.push(value).pop()->Ok_0.1 =~= m);
}

/// A pop from the empty stack is a `StackUnderflow`: no value comes of it.
pub proof fn lemma_pop_empty(m: Machine)
    requires
        m.stack.len() == 0,
    ensures
        m.pop() == Err::<(Value, Machine), ErrorKind>(ErrorKind::StackUnderflow),
{
}

// Comparison.

/// A value that is not a NaN compares equal to itself and not greater.
pub proof fn lemma_compare_same(a: Value)
    requires
        !a.is_nan(),
    ensures
        spec_compare(a, a) == Ok::<Flags, ErrorKind>(Flags { eq: true, gt: false }),
{
}

/// Of two values of one variant, neither a NaN, the one with the greater
/// place in the order compares greater and not equal.
pub proof fn lemma_compare_greater(a: Value, b: Value)
    requires
        a.kind() == b.kind(),
        a.order_key() is Some,
        b.order_key() is Some,
        a.order_key()->Some_0 > b.order_key()->Some_0,
    ensures
        spec_compare(a, b) == Ok::<Flags, ErrorKind>(Flags { eq: false, gt: true }),
{
}

/// The compare instruction on two registers that hold the same value, not
/// a NaN, sets the equal flag and clears the greater flag; on two registers
/// that hold integers of one variant, the first the greater, it clears the
/// equal flag and sets the greater flag. Nothing else but the instruction
/// pointer changes.
pub proof fn lemma_compare_sets_flags(m: Machine, a: Reg, b: Reg, next: Address)
    requires
        m.read(a) is Ok,
        m.read(b) is Ok,
        m.read(a)->Ok_0.kind() == m.read(b)->Ok_0.kind(),
    ensures
        m.read(a) == m.read(b) && !m.read(a)->Ok_0.is_nan() ==> m.execute(
            Instruction::Cmp(a, b),
            next,
        ) == Ok::<(Machine, Option<Value>), ErrorKind>(
            (Machine { eq_flag: true, gt_flag: false, ip: next, ..m }, None),
        ),
        m.read(a)->Ok_0.kind().is_integer() && m.read(a)->Ok_0.payload() > m.read(
            b,
        )->Ok_0.payload() ==> m.execute(Instruction::Cmp(a, b), next) == Ok::<
            (Machine, Option<Value>),
            ErrorKind,
        >((Machine { eq_flag: false, gt_flag: true, ip: next, ..m }, None)),
{
}

// Arithmetic.

/// Arithmetic on operands of different variants is a `TypeMismatch`,
/// whatever the operation and the payloads.
pub proof fn lemma_mismatch_faults(op: ArithOp, lhs: Value, rhs: Value)
    requires
        lhs.kind() != rhs.kind(),
    ensures
        spec_arithmetic(op, lhs, rhs) == Err::<Outcome, ErrorKind>(ErrorKind::TypeMismatch),
{
}

/// Adding an unsigned to a signed 8-bit integer is a `TypeMismatch`, for
/// every pair of them.
pub proof fn lemma_add_u8_i8_faults(x: u8, y: i8)
    ensures
        spec_arithmetic(ArithOp::Add, Value::U8(x), Value::I8(y)) == Err::<Outcome, ErrorKind>(
            ErrorKind::TypeMismatch,
        ),
        spec_arithmetic(ArithOp::Add, Value::I8(y), Value::U8(x)) == Err::<Outcome, ErrorKind>(
            ErrorKind::TypeMismatch,
        ),
{
}

/// Dividing by a zero of the dividend's variant is a `DivisionByZero`: no
/// value and no request comes of it.
pub proof fn lemma_div_by_zero_faults(lhs: Value, rhs: Value)
    requires
        lhs.kind() == rhs.kind(),
        rhs.is_zero(),
    ensures
        spec_arithmetic(ArithOp::Div, lhs, rhs) == Err::<Outcome, ErrorKind>(
            ErrorKind::DivisionByZero,
        ),
{
}

/// A request that arithmetic hands out is for the operation and the
/// operands it was given, which are floats of one width, and is never for
/// a division by a zero.
pub proof fn lemma_request_is_sound(op: ArithOp, lhs: Value, rhs: Value)
    requires
        spec_arithmetic(op, lhs, rhs) is Ok,
        spec_arithmetic(op, lhs, rhs)->Ok_0 is Deferred,
    ensures
        spec_arithmetic(op, lhs, rhs)->Ok_0->Deferred_0 == (FloatRequest { op, lhs, rhs }),
        lhs.kind().is_float(),
        lhs.kind() == rhs.kind(),
        op == ArithOp::Div ==> !rhs.is_zero(),
{
}

/// An arithmetic result on integers is an integer of the operands'
/// variant.
pub proof fn lemma_arithmetic_keeps_kind(op: ArithOp, lhs: Value, rhs: Value)
    requires
        spec_arithmetic(op, lhs, rhs) is Ok,
        lhs.kind().is_integer(),
    ensures
        spec_arithmetic(op, lhs, rhs)->Ok_0 is Value,
        spec_arithmetic(op, lhs, rhs)->Ok_0->Value_0.kind() == lhs.kind(),
        spec_arithmetic(op, lhs, rhs)->Ok_0->Value_0.payload() == lhs.kind().wrap(
            exact(op, lhs.payload(), rhs.payload()),
        ),
{
    lhs.kind().lemma_wrap(exact(op, lhs.payload(), rhs.payload()));
}

// Calls.

/// A call followed at once by a return goes on at the instruction after
/// the call, with the machine otherwise as it was before the call.
pub proof fn lemma_call_then_ret(m: Machine, reg: Reg, next: Address, after: Address)
    requires
        m.execute(Instruction::Call(reg), next) is Ok,
    ensures
        m.execute(Instruction::Call(reg), next)->Ok_0.0.execute(Instruction::Ret, after) == Ok::<
            (Machine, Option<Value>),
            ErrorKind,
        >((m.at(next), None)),
{
    let called = m.execute(Instruction::Call(reg), next)->Ok_0.0;
    assert(called.calls.drop_last() =~= m.calls);
    assert(called.execute(Instruction::Ret, after)->Ok_0.0 =~= m.at(next));
}

/// A return with no open call is a `CallStackUnderflow`.
pub proof fn lemma_ret_without_call(m: Machine, after: Address)
    requires
        m.calls.len() == 0,
    ensures
        m.execute(Instruction::Ret, after) == Err::<(Machine, Option<Value>), ErrorKind>(
            ErrorKind::CallStackUnderflow,
        ),
{
}

// What instructions leave alone.

/// No instruction changes the number of registers or of heap slots, so a
/// well-formed state stays well formed and a heap keeps the size it was
/// made with.
pub proof fn lemma_execute_keeps_shape(m: Machine, instr: Instruction, next: Address)
    requires
        m.wf(),
        m.execute(instr, next) is Ok,
    ensures
        m.execute(instr, next)->Ok_0.0.wf(),
        m.execute(instr, next)->Ok_0.0.heap.len() == m.heap.len(),
{
    lemma_execute_keeps_lengths(m, instr, next);
    m.lemma_execute_keeps(instr, next);
}

/// No instruction changes the number of registers or of heap slots.
proof fn lemma_execute_keeps_lengths(m: Machine, instr: Instruction, next: Address)
    requires
        m.registers.len() == REGISTERS,
        m.execute(instr, next) is Ok,
    ensures
        m.execute(instr, next)->Ok_0.0.registers.len() == m.registers.len(),
        m.execute(instr, next)->Ok_0.0.heap.len() == m.heap.len(),
{
}

/// The flags are set by the compare instruction and by no other.
pub proof fn lemma_flags_kept(m: Machine, instr: Instruction, next: Address)
    requires
        m.execute(instr, next) is Ok,
        !(instr is Cmp),
    ensures
        m.execute(instr, next)->Ok_0.0.eq_flag == m.eq_flag,
        m.execute(instr, next)->Ok_0.0.gt_flag == m.gt_flag,
{
}

/// The print instructions hand out a value and change nothing but the
/// instruction pointer; no other instruction hands out anything.
pub proof fn lemma_prints_only_observe(m: Machine, instr: Instruction, next: Address)
    requires
        m.execute(instr, next) is Ok,
    ensures
        instr is Printr || instr is Printv ==> m.execute(instr, next)->Ok_0.0 == m.at(next)
            && m.execute(instr, next)->Ok_0.1 is Some,
        !(instr is Printr || instr is Printv) ==> m.execute(instr, next)->Ok_0.1 is None,
{
}

/// A binary operation that does not suspend the machine pushes exactly one
/// value, writes no register and goes on to the next instruction.
pub proof fn lemma_binary_pushes(m: Machine, instr: Instruction, next: Address)
    requires
        m.execute(instr, next) is Ok,
        instr is Add || instr is Sub || instr is Mul || instr is Div || instr is And || instr is Or
            || instr is Xor || instr is Shl || instr is Shr,
        !(m.execute(instr, next)->Ok_0.0.status is Suspended),
    ensures
        m.execute(instr, next)->Ok_0.0.registers == m.registers,
        m.execute(instr, next)->Ok_0.0.stack.len() == m.stack.len() + 1,
        m.execute(instr, next)->Ok_0.0.stack.drop_last() == m.stack,
        m.execute(instr, next)->Ok_0.0.ip == next,
{
    match instr {
        Instruction::Add(a, b) => lemma_arithmetic_pushes(m, ArithOp::Add, a, b, next),
        Instruction::Sub(a, b) => lemma_arithmetic_pushes(m, ArithOp::Sub, a, b, next),
        Instruction::Mul(a, b) => lemma_arithmetic_pushes(m, ArithOp::Mul, a, b, next),
        Instruction::Div(a, b) => lemma_arithmetic_pushes(m, ArithOp::Div, a, b, next),
        Instruction::And(a, b) | Instruction::Or(a, b) | Instruction::Xor(a, b) => {
            let after = m.execute(instr, next)->Ok_0.0;
            assert(after.stack.drop_last() =~= m.stack);
        },
        Instruction::Shl(reg, amount) | Instruction::Shr(reg, amount) => {
            let after = m.execute(instr, next)->Ok_0.0;
            assert(after.stack.drop_last() =~= m.stack);
        },
        _ => {},
    }
}

/// An arithmetic instruction that does not suspend the machine pushes
/// exactly one value and writes no register.
proof fn lemma_arithmetic_pushes(m: Machine, op: ArithOp, a: Reg, b: Reg, next: Address)
    requires
        m.arithmetic(op, a, b, next) is Ok,
        !(m.arithmetic(op, a, b, next)->Ok_0.status is Suspended),
    ensures
        m.arithmetic(op, a, b, next)->Ok_0.registers == m.registers,
        m.arithmetic(op, a, b, next)->Ok_0.stack.len() == m.stack.len() + 1,
        m.arithmetic(op, a, b, next)->Ok_0.stack.drop_last() == m.stack,
        m.arithmetic(op, a, b, next)->Ok_0.ip == next,
{
    let after = m.arithmetic(op, a, b, next)->Ok_0;
    let (lhs, rhs) = m.operands(a, b)->Ok_0;
    match spec_arithmetic(op, lhs, rhs) {
        Ok(Outcome::Value(value)) => {
            assert(after == m.vpush(value, next));
            assert(after.stack.drop_last() =~= m.stack);
        },
        _ => {},
    }
}

// Runs.

/// A run ends in a state that is not running, with the program and the
/// step ceiling it began with, and with no more steps counted than the
/// ceiling allows (or than were counted before, if that was more).
pub proof fn lemma_run_ends(m: Machine, out: Seq<Value>)
    ensures
        m.run(out).0.status != Status::Running,
        m.run(out).0.step_limit == m.step_limit,
        m.run(out).0.program == m.program,
        m.run(out).0.steps <= m.step_limit || m.run(out).0.steps == m.steps,
        m.steps <= m.run(out).0.steps,
    decreases m.fuel(),
{
    if m.status == Status::Running {
        m.lemma_step_uses_fuel();
        let (stepped, emitted) = m.step();
        lemma_step_counts(m);
        lemma_run_ends(
            stepped,
            match emitted {
                Some(value) => out.push(value),
                None => out,
            },
        );
    }
}

/// A step counts at most one instruction, and none beyond the ceiling.
pub proof fn lemma_step_counts(m: Machine)
    ensures
        m.step().0.steps == m.steps || (m.step().0.steps == m.steps + 1 && m.steps
            < m.step_limit),
{
    if m.status == Status::Running {
        match spec_decode_next(m.program, m.ip) {
            Ok((instr, next)) => {
                if m.steps < m.step_limit {
                    let counted = Machine { steps: (m.steps + 1) as u64, ..m };
                    counted.lemma_execute_keeps(instr, next);
                }
            },
            Err(_) => {},
        }
    }
}

/// The program that is one abort instruction takes a machine from ready
/// to halted in exactly one step, and changes nothing else.
pub proof fn lemma_abort_halts(heap_size: nat, out: Seq<Value>)
    ensures
        Machine::initial(encoding(Instruction::Abort), heap_size).start().run(out) == (
            Machine {
                status: Status::Halted,
                steps: 1,
                ..Machine::initial(encoding(Instruction::Abort), heap_size)
            },
            out,
        ),
{
    let program = encoding(Instruction::Abort);
    let m = Machine::initial(program, heap_size).start();
    assert(program.subrange(0, program.len() as int) =~= program);
    lemma_decode_encoding(program, 0, Instruction::Abort);
    let (halted, emitted) = m.step();
    assert(halted == Machine { status: Status::Halted, steps: 1, ..m });
    assert(m.run(out) == halted.run(out));
}

/// A jump to its own address never ends of itself: a machine that stands
/// on one runs until the step ceiling is reached and then faults with
/// `StepLimitExceeded` at that address, having changed nothing but its
/// step count.
pub proof fn lemma_self_jump_hits_ceiling(m: Machine, reg: Reg, out: Seq<Value>)
    requires
        m.status == Status::Running,
        spec_decode_next(m.program, m.ip) is Ok,
        spec_decode_next(m.program, m.ip)->Ok_0.0 == Instruction::Jmp(reg),
        m.target(reg) == Ok::<Address, ErrorKind>(m.ip),
    ensures
        m.run(out) == (
            Machine {
                status: Status::Faulted { ip: m.ip, kind: ErrorKind::StepLimitExceeded },
                steps: if m.steps >= m.step_limit {
                    m.steps
                } else {
                    m.step_limit
                },
                ..m
            },
            out,
        ),
    decreases m.fuel(),
{
    m.lemma_step_uses_fuel();
    let (stepped, emitted) = m.step();
    if m.steps >= m.step_limit {
        assert(stepped == m.fault(ErrorKind::StepLimitExceeded));
        assert(m.run(out) == stepped.run(out));
    } else {
        assert(stepped == Machine { steps: (m.steps + 1) as u64, ..m });
        assert(emitted is None);
        lemma_self_jump_hits_ceiling(stepped, reg, out);
        assert(m.run(out) == stepped.run(out));
    }
}

} // verus!
