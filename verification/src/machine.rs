//! The mathematical model of the machine: its state as plain sequences,
//! and what each instruction makes of a state.
//!
//! Everything here is specification. The executable machine in
//! [`crate::vm`] has a view of this type, and its contracts say that it
//! does what these functions say.
use vstd::prelude::*;
use crate::arith::{spec_arithmetic, ArithOp, FloatRequest, Outcome};
use crate::bitwise::{spec_bitwise, spec_shift, BitOp, ShiftOp};
use crate::codec::{spec_decode_next, DecodeError};
use crate::compare::spec_compare;
use crate::error::ErrorKind;
use crate::instruction::{Address, Instruction, Reg};
use crate::value::Value;

verus! {

/// The number of registers.
pub const REGISTERS: usize = 8;

/// Where a machine is in its life.
#[derive(Clone, Copy, Debug, PartialEq, Eq, Structural)]
pub enum Status {
    /// Constructed and not yet started.
    Ready,
    /// Executing instructions.
    Running,
    /// Waiting for the host to carry out an operation on floats and to
    /// resume the machine with the result.
    Suspended(FloatRequest),
    /// Ended by an abort instruction or by running off the end of the
    /// program.
    Halted,
    /// Ended by a fault of kind `kind`, raised by the instruction at `ip`.
    Faulted { ip: Address, kind: ErrorKind },
}

/// How a run ended, or why it stopped.
#[derive(Clone, Copy, Debug, PartialEq, Eq, Structural)]
pub enum RunResult {
    /// The machine halted.
    Halted,
    /// The instruction at `ip` raised a fault of kind `kind`.
    Faulted { ip: Address, kind: ErrorKind },
    /// The machine waits for the host to carry out this operation on
    /// floats and to resume it with the result.
    Suspended(FloatRequest),
}

impl Status {
    /// What a run that stops in this status reports; `None` for a status
    /// in which no run stops.
    pub open spec fn outcome(self) -> Option<RunResult> {
        match self {
            Status::Ready | Status::Running => None,
            Status::Suspended(request) => Some(RunResult::Suspended(request)),
            Status::Halted => Some(RunResult::Halted),
            Status::Faulted { ip, kind } => Some(RunResult::Faulted { ip, kind }),
        }
    }
}

/// The state of a machine.
#[verifier::ext_equal]
pub struct Machine {
    /// The program: never changed.
    pub program: Seq<u8>,
    /// The register file: `REGISTERS` values.
    pub registers: Seq<Value>,
    /// The operand stack, its top last.
    pub stack: Seq<Value>,
    /// The heap: as many values as the machine was made with.
    pub heap: Seq<Value>,
    /// The return addresses of the open calls, the innermost last.
    pub calls: Seq<Address>,
    /// The address of the next instruction.
    pub ip: Address,
    /// Set by the last comparison: its operands were equal.
    pub eq_flag: bool,
    /// Set by the last comparison: its left operand was the greater.
    pub gt_flag: bool,
    pub status: Status,
    /// How many instructions were dispatched so far.
    pub steps: u64,
    /// How many instructions may be dispatched at most.
    pub step_limit: u64,
}

/// What dispatching one instruction gives: the next state, and the value
/// handed to the observer if the instruction was a print.
pub type Effect = Result<(Machine, Option<Value>), ErrorKind>;

/// An effect that hands nothing to the observer.
pub open spec fn silent(r: Result<Machine, ErrorKind>) -> Effect {
    match r {
        Ok(m) => Ok((m, None)),
        Err(kind) => Err(kind),
    }
}

impl Machine {
    /// The state of a machine made with `program` and `heap_size`: every
    /// register and every heap slot holds the unsigned 8-bit zero, both
    /// stacks are empty, both flags are clear, the instruction pointer is
    /// at the start, and no limit worth the name is put on the steps.
    pub open spec fn initial(program: Seq<u8>, heap_size: nat) -> Machine {
        Machine {
            program,
            registers: Seq::new(REGISTERS as nat, |i: int| Value::U8(0)),
            stack: Seq::empty(),
            heap: Seq::new(heap_size, |i: int| Value::U8(0)),
            calls: Seq::empty(),
            ip: 0,
            eq_flag: false,
            gt_flag: false,
            status: Status::Ready,
            steps: 0,
            step_limit: u64::MAX,
        }
    }

    /// What holds of the state of every machine: it has its eight
    /// registers, and its program and its heap are no longer than an
    /// address can say.
    pub open spec fn wf(self) -> bool {
        &&& self.registers.len() == REGISTERS
        &&& self.program.len() <= usize::MAX
        &&& self.heap.len() <= usize::MAX
    }

    // The memory model.

    /// The content of register `reg`.
    pub open spec fn read(self, reg: Reg) -> Result<Value, ErrorKind> {
        if reg < REGISTERS {
            Ok(self.registers[reg as int])
        } else {
            Err(ErrorKind::InvalidRegister)
        }
    }

    /// The state with `value` in register `reg`.
    pub open spec fn write(self, reg: Reg, value: Value) -> Result<Machine, ErrorKind> {
        if reg < REGISTERS {
            Ok(Machine { registers: self.registers.update(reg as int, value), ..self })
        } else {
            Err(ErrorKind::InvalidRegister)
        }
    }

    /// The content of the heap slot `addr`.
    pub open spec fn load(self, addr: Address) -> Result<Value, ErrorKind> {
        if addr < self.heap.len() {
            Ok(self.heap[addr as int])
        } else {
            Err(ErrorKind::AddressOutOfBounds)
        }
    }

    /// The state with `value` in the heap slot `addr`.
    pub open spec fn store(self, addr: Address, value: Value) -> Result<Machine, ErrorKind> {
        if addr < self.heap.len() {
            Ok(Machine { heap: self.heap.update(addr as int, value), ..self })
        } else {
            Err(ErrorKind::AddressOutOfBounds)
        }
    }

    /// The state with `value` on top of the stack.
    pub open spec fn push(self, value: Value) -> Machine {
        Machine { stack: self.stack.push(value), ..self }
    }

    /// The top of the stack, and the state without it.
    pub open spec fn pop(self) -> Result<(Value, Machine), ErrorKind> {
        if self.stack.len() > 0 {
            Ok((self.stack.last(), Machine { stack: self.stack.drop_last(), ..self }))
        } else {
            Err(ErrorKind::StackUnderflow)
        }
    }

    // Control.

    /// The state with the instruction pointer at `ip`.
    pub open spec fn at(self, ip: Address) -> Machine {
        Machine { ip, ..self }
    }

    /// The address held in register `reg`.
    pub open spec fn target(self, reg: Reg) -> Result<Address, ErrorKind> {
        match self.read(reg) {
            Ok(value) => value.address(),
            Err(kind) => Err(kind),
        }
    }

    /// A jump to the address in `reg` where `taken`, else a step on to
    /// `next` that does not look at `reg`.
    pub open spec fn jump_if(self, taken: bool, reg: Reg, next: Address) -> Result<
        Machine,
        ErrorKind,
    > {
        if taken {
            match self.target(reg) {
                Ok(ip) => Ok(self.at(ip)),
                Err(kind) => Err(kind),
            }
        } else {
            Ok(self.at(next))
        }
    }

    /// A call: `next` is remembered, and the address in `reg` is where
    /// execution goes on.
    pub open spec fn call(self, reg: Reg, next: Address) -> Result<Machine, ErrorKind> {
        match self.target(reg) {
            Ok(ip) => Ok(Machine { calls: self.calls.push(next), ip, ..self }),
            Err(kind) => Err(kind),
        }
    }

    /// A return: execution goes on at the address the innermost open call
    /// remembered, and that call is closed.
    pub open spec fn ret(self) -> Result<Machine, ErrorKind> {
        if self.calls.len() > 0 {
            Ok(Machine { calls: self.calls.drop_last(), ip: self.calls.last(), ..self })
        } else {
            Err(ErrorKind::CallStackUnderflow)
        }
    }

    // Data movement.

    /// `value` goes to register `reg`.
    pub open spec fn mov(self, reg: Reg, value: Value, next: Address) -> Result<
        Machine,
        ErrorKind,
    > {
        match self.write(reg, value) {
            Ok(m) => Ok(m.at(next)),
            Err(kind) => Err(kind),
        }
    }

    /// The content of register `src` goes to register `dst`.
    pub open spec fn movr(self, dst: Reg, src: Reg, next: Address) -> Result<Machine, ErrorKind> {
        match self.read(src) {
            Ok(value) => self.mov(dst, value, next),
            Err(kind) => Err(kind),
        }
    }

    /// `value` goes to the heap slot `addr`.
    pub open spec fn vstore(self, addr: Address, value: Value, next: Address) -> Result<
        Machine,
        ErrorKind,
    > {
        match self.store(addr, value) {
            Ok(m) => Ok(m.at(next)),
            Err(kind) => Err(kind),
        }
    }

    /// The content of register `reg` goes to the heap slot `addr`.
    pub open spec fn vstorer(self, addr: Address, reg: Reg, next: Address) -> Result<
        Machine,
        ErrorKind,
    > {
        match self.read(reg) {
            Ok(value) => self.vstore(addr, value, next),
            Err(kind) => Err(kind),
        }
    }

    /// `value` goes on the stack.
    pub open spec fn vpush(self, value: Value, next: Address) -> Machine {
        self.push(value).at(next)
    }

    /// The content of the heap slot `addr` goes on the stack.
    pub open spec fn vload(self, addr: Address, next: Address) -> Result<Machine, ErrorKind> {
        match self.load(addr) {
            Ok(value) => Ok(self.vpush(value, next)),
            Err(kind) => Err(kind),
        }
    }

    /// The content of the heap slot `addr` goes to register `reg`.
    pub open spec fn vloadr(self, reg: Reg, addr: Address, next: Address) -> Result<
        Machine,
        ErrorKind,
    > {
        match self.load(addr) {
            Ok(value) => self.mov(reg, value, next),
            Err(kind) => Err(kind),
        }
    }

    /// The content of register `reg` goes on the stack.
    pub open spec fn vpushr(self, reg: Reg, next: Address) -> Result<Machine, ErrorKind> {
        match self.read(reg) {
            Ok(value) => Ok(self.vpush(value, next)),
            Err(kind) => Err(kind),
        }
    }

    /// The top of the stack goes to register `reg`.
    pub open spec fn vpop(self, reg: Reg, next: Address) -> Result<Machine, ErrorKind> {
        match self.pop() {
            Ok((value, m)) => m.mov(reg, value, next),
            Err(kind) => Err(kind),
        }
    }

    // Computation.

    /// The contents of the registers `a` and `b`.
    pub open spec fn operands(self, a: Reg, b: Reg) -> Result<(Value, Value), ErrorKind> {
        match self.read(a) {
            Ok(lhs) => match self.read(b) {
                Ok(rhs) => Ok((lhs, rhs)),
                Err(kind) => Err(kind),
            },
            Err(kind) => Err(kind),
        }
    }

    /// The flags are set by comparing register `a` with register `b`.
    pub open spec fn compare(self, a: Reg, b: Reg, next: Address) -> Result<Machine, ErrorKind> {
        match self.operands(a, b) {
            Ok((lhs, rhs)) => match spec_compare(lhs, rhs) {
                Ok(flags) => Ok(Machine { eq_flag: flags.eq, gt_flag: flags.gt, ip: next, ..self }),
                Err(kind) => Err(kind),
            },
            Err(kind) => Err(kind),
        }
    }

    /// The result of `op` on the registers `a` and `b` goes on the stack.
    /// Where they hold floats, the machine is suspended on the request to
    /// compute it instead; the host pushes the result when it resumes the
    /// machine.
    pub open spec fn arithmetic(self, op: ArithOp, a: Reg, b: Reg, next: Address) -> Result<
        Machine,
        ErrorKind,
    > {
        match self.operands(a, b) {
            Ok((lhs, rhs)) => match spec_arithmetic(op, lhs, rhs) {
                Ok(Outcome::Value(value)) => Ok(self.vpush(value, next)),
                Ok(Outcome::Deferred(request)) => Ok(
                    Machine { status: Status::Suspended(request), ip: next, ..self },
                ),
                Err(kind) => Err(kind),
            },
            Err(kind) => Err(kind),
        }
    }

    /// The result of the bitwise `op` on the registers `a` and `b` goes on
    /// the stack.
    pub open spec fn bitwise(self, op: BitOp, a: Reg, b: Reg, next: Address) -> Result<
        Machine,
        ErrorKind,
    > {
        match self.operands(a, b) {
            Ok((lhs, rhs)) => match spec_bitwise(op, lhs, rhs) {
                Ok(value) => Ok(self.vpush(value, next)),
                Err(kind) => Err(kind),
            },
            Err(kind) => Err(kind),
        }
    }

    /// Register `reg` shifted by `amount` goes on the stack.
    pub open spec fn shift(self, dir: ShiftOp, reg: Reg, amount: Value, next: Address) -> Result<
        Machine,
        ErrorKind,
    > {
        match self.read(reg) {
            Ok(value) => match spec_shift(dir, value, amount) {
                Ok(shifted) => Ok(self.vpush(shifted, next)),
                Err(kind) => Err(kind),
            },
            Err(kind) => Err(kind),
        }
    }

    // Observation.

    /// The content of register `reg` is handed to the observer.
    pub open spec fn printr(self, reg: Reg, next: Address) -> Effect {
        match self.read(reg) {
            Ok(value) => Ok((self.at(next), Some(value))),
            Err(kind) => Err(kind),
        }
    }

    /// The content of the heap slot `addr` is handed to the observer.
    pub open spec fn printv(self, addr: Address, next: Address) -> Effect {
        match self.load(addr) {
            Ok(value) => Ok((self.at(next), Some(value))),
            Err(kind) => Err(kind),
        }
    }

    /// What dispatching `instr` makes of this state, where `next` is the
    /// address of the instruction that follows it in the program. A fault
    /// leaves no trace in the state: the result is the fault alone.
    pub open spec fn execute(self, instr: Instruction, next: Address) -> Effect {
        match instr {
            Instruction::Nop => Ok((self.at(next), None)),
            Instruction::Mov(reg, value) => silent(self.mov(reg, value, next)),
            Instruction::Movr(dst, src) => silent(self.movr(dst, src, next)),
            Instruction::Jmp(reg) => silent(self.jump_if(true, reg, next)),
            Instruction::Je(reg) => silent(self.jump_if(self.eq_flag, reg, next)),
            Instruction::Jne(reg) => silent(self.jump_if(!self.eq_flag, reg, next)),
            Instruction::Jg(reg) => silent(self.jump_if(self.gt_flag, reg, next)),
            Instruction::Jl(reg) => silent(
                self.jump_if(!self.eq_flag && !self.gt_flag, reg, next),
            ),
            Instruction::Cmp(a, b) => silent(self.compare(a, b, next)),
            Instruction::Printr(reg) => self.printr(reg, next),
            Instruction::Printv(addr) => self.printv(addr, next),
            Instruction::Vstore(addr, value) => silent(self.vstore(addr, value, next)),
            Instruction::Vload(addr) => silent(self.vload(addr, next)),
            Instruction::Vstorer(addr, reg) => silent(self.vstorer(addr, reg, next)),
            Instruction::Vloadr(reg, addr) => silent(self.vloadr(reg, addr, next)),
            Instruction::Add(a, b) => silent(self.arithmetic(ArithOp::Add, a, b, next)),
            Instruction::Sub(a, b) => silent(self.arithmetic(ArithOp::Sub, a, b, next)),
            Instruction::Mul(a, b) => silent(self.arithmetic(ArithOp::Mul, a, b, next)),
            Instruction::Div(a, b) => silent(self.arithmetic(ArithOp::Div, a, b, next)),
            Instruction::And(a, b) => silent(self.bitwise(BitOp::And, a, b, next)),
            Instruction::Or(a, b) => silent(self.bitwise(BitOp::Or, a, b, next)),
            Instruction::Xor(a, b) => silent(self.bitwise(BitOp::Xor, a, b, next)),
            Instruction::Shr(reg, amount) => silent(self.shift(ShiftOp::Shr, reg, amount, next)),
            Instruction::Shl(reg, amount) => silent(self.shift(ShiftOp::Shl, reg, amount, next)),
            Instruction::Vpush(value) => Ok((self.vpush(value, next), None)),
            Instruction::Vpushr(reg) => silent(self.vpushr(reg, next)),
            Instruction::Vpop(reg) => silent(self.vpop(reg, next)),
            Instruction::Call(reg) => silent(self.call(reg, next)),
            Instruction::Ret => silent(self.ret()),
            Instruction::Abort => Ok((Machine { status: Status::Halted, ..self }, None)),
        }
    }

    // The engine.

    /// The state after a start: a ready machine runs, any other is as it
    /// was.
    pub open spec fn start(self) -> Machine {
        if self.status == Status::Ready {
            Machine { status: Status::Running, ..self }
        } else {
            self
        }
    }

    /// The state after the fault `kind` at the current instruction.
    pub open spec fn fault(self, kind: ErrorKind) -> Machine {
        Machine { status: Status::Faulted { ip: self.ip, kind }, ..self }
    }

    /// Whether `result` answers the request that the machine is suspended
    /// on: it is a float of the width of the operands.
    pub open spec fn answers(self, result: Value) -> bool {
        match self.status {
            Status::Suspended(request) => result.kind() == request.lhs.kind(),
            _ => false,
        }
    }

    /// The state after the host has answered the request with `result`:
    /// the result is on the stack and the machine runs again. Where
    /// `result` does not answer the request, or there is none, the state
    /// is as it was.
    pub open spec fn resume(self, result: Value) -> Machine {
        if self.answers(result) {
            Machine { status: Status::Running, ..self.push(result) }
        } else {
            self
        }
    }

    /// One step of the engine, and the value it hands to the observer.
    ///
    /// A machine that is not running stays as it is. A running machine
    /// decodes the instruction at its instruction pointer. At the end of
    /// the program it halts; where the bytes are malformed it faults with
    /// `DecodeError`; where the step ceiling is reached it faults with
    /// `StepLimitExceeded`. Otherwise the step is counted and the
    /// instruction dispatched, and a fault of the instruction is recorded
    /// with the instruction's address.
    pub open spec fn step(self) -> (Machine, Option<Value>) {
        if self.status != Status::Running {
            (self, None)
        } else {
            match spec_decode_next(self.program, self.ip) {
                Err(DecodeError::EndOfProgram) => (Machine { status: Status::Halted, ..self }, None),
                Err(_) => (self.fault(ErrorKind::DecodeError), None),
                Ok((instr, next)) => if self.steps >= self.step_limit {
                    (self.fault(ErrorKind::StepLimitExceeded), None)
                } else {
                    let counted = Machine { steps: (self.steps + 1) as u64, ..self };
                    match counted.execute(instr, next) {
                        Ok(effect) => effect,
                        Err(kind) => (counted.fault(kind), None),
                    }
                },
            }
        }
    }

    /// How many more steps a running machine can take at most, plus one;
    /// zero for a machine that is not running.
    pub open spec fn fuel(self) -> nat {
        if self.status != Status::Running {
            0
        } else if self.steps >= self.step_limit {
            1
        } else {
            (1 + self.step_limit - self.steps) as nat
        }
    }

    /// Dispatching an instruction neither counts a step nor moves the
    /// ceiling, nor does it touch the program.
    pub proof fn lemma_execute_keeps(self, instr: Instruction, next: Address)
        ensures
            match self.execute(instr, next) {
                Ok((m, _)) => m.steps == self.steps && m.step_limit == self.step_limit
                    && m.program == self.program,
                Err(_) => true,
            },
    {
    }

    /// Every step of a running machine uses up fuel.
    pub proof fn lemma_step_uses_fuel(self)
        requires
            self.status == Status::Running,
        ensures
            self.step().0.fuel() < self.fuel(),
            self.step().0.step_limit == self.step_limit,
            self.step().0.program == self.program,
    {
        match spec_decode_next(self.program, self.ip) {
            Ok((instr, next)) => {
                if self.steps < self.step_limit {
                    let counted = Machine { steps: (self.steps + 1) as u64, ..self };
                    counted.lemma_execute_keeps(instr, next);
                }
            },
            Err(_) => {},
        }
    }

    /// A run: steps are taken until the machine is no longer running. The
    /// result is the state it ends in and `out` followed by the values
    /// handed to the observer on the way, in order.
    pub open spec fn run(self, out: Seq<Value>) -> (Machine, Seq<Value>)
        decreases self.fuel(),
    {
        if self.status != Status::Running {
            (self, out)
        } else {
            proof {
                self.lemma_step_uses_fuel();
            }
            let (m, emitted) = self.step();
            m.run(
                match emitted {
                    Some(value) => out.push(value),
                    None => out,
                },
            )
        }
    }
}

} // verus!
