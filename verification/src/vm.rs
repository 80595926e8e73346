//! The executable machine.
//!
//! [`VirtualMachine`] owns its registers, stacks, heap and program. Its
//! view is a [`Machine`], and every method says in its contract what
//! becomes of that view.
use vstd::prelude::*;
use crate::arith::{arithmetic, ArithOp, Outcome};
use crate::bitwise::{bitwise, shift, BitOp, ShiftOp};
use crate::codec::{decode_next, DecodeError};
use crate::compare::compare;
use crate::error::ErrorKind;
use crate::instruction::{Address, Instruction, Reg};
use crate::machine::{Machine, RunResult, Status, REGISTERS};
use crate::value::Value;

verus! {

/// A register-based virtual machine: eight registers, an operand stack, a
/// heap of fixed size, a call stack, two comparison flags, and the program
/// it executes.
#[derive(Debug)]
pub struct VirtualMachine {
    registers: [Value; 8],
    ip: Address,
    program: Vec<u8>,
    stack: Vec<Value>,
    data: Vec<Value>,
    call_stack: Vec<Address>,
    status: Status,
    eq_flag: bool,
    gt_flag: bool,
    steps: u64,
    step_limit: u64,
}

impl View for VirtualMachine {
    type V = Machine;

    closed spec fn view(&self) -> Machine {
        Machine {
            program: self.program@,
            registers: self.registers@,
            stack: self.stack@,
            heap: self.data@,
            calls: self.call_stack@,
            ip: self.ip,
            eq_flag: self.eq_flag,
            gt_flag: self.gt_flag,
            status: self.status,
            steps: self.steps,
            step_limit: self.step_limit,
        }
    }
}

impl VirtualMachine {
    /// A machine for `program` with a heap of `heap_size` slots, ready to
    /// run: see [`Machine::initial`].
    pub fn new(program: Vec<u8>, heap_size: usize) -> (vm: VirtualMachine)
        ensures
            vm@ == Machine::initial(program@, heap_size as nat),
    {
        let vm = VirtualMachine {
            registers: [Value::U8(0);8],
            ip: 0,
            program,
            stack: Vec::new(),
            data: vec![Value::U8(0); heap_size],
            call_stack: Vec::new(),
            status: Status::Ready,
            eq_flag: false,
            gt_flag: false,
            steps: 0,
            step_limit: u64::MAX,
        };
        proof {
            let m = Machine::initial(program@, heap_size as nat);
            assert(vm@.registers =~= m.registers);
            assert(vm@.heap =~= m.heap);
            assert(vm@.stack =~= m.stack);
            assert(vm@.calls =~= m.calls);
        }
        vm
    }

    /// The state of every machine is well formed.
    pub proof fn lemma_view_wf(&self)
        ensures
            self@.wf(),
    {
        assert(self.program.len() <= usize::MAX);
        assert(self.data.len() <= usize::MAX);
    }

    // The memory model.

    /// Reads register `reg`; `InvalidRegister` unless `reg` is in `0..8`.
    pub fn read(&self, reg: Reg) -> (r: Result<Value, ErrorKind>)
        ensures
            r == self@.read(reg),
    {
        if reg < REGISTERS {
            Ok(self.registers[reg])
        } else {
            Err(ErrorKind::InvalidRegister)
        }
    }

    /// Writes `value` to register `reg`; `InvalidRegister`, and nothing
    /// written, unless `reg` is in `0..8`.
    pub fn write(&mut self, reg: Reg, value: Value) -> (r: Result<(), ErrorKind>)
        ensures
            match old(self)@.write(reg, value) {
                Ok(m) => r is Ok && final(self)@ == m,
                Err(kind) => r == Err::<(), ErrorKind>(kind) && final(self)@ == old(self)@,
            },
    {
        if reg < REGISTERS {
            self.registers[reg] = value;
            assert(self@.registers =~= old(self)@.registers.update(reg as int, value));
            Ok(())
        } else {
            Err(ErrorKind::InvalidRegister)
        }
    }

    /// Reads the heap slot `addr`; `AddressOutOfBounds` unless `addr` is
    /// below the heap's size.
    pub fn load(&self, addr: Address) -> (r: Result<Value, ErrorKind>)
        ensures
            r == self@.load(addr),
    {
        if addr < self.data.len() {
            Ok(self.data[addr])
        } else {
            Err(ErrorKind::AddressOutOfBounds)
        }
    }

    /// Writes `value` to the heap slot `addr`; `AddressOutOfBounds`, and
    /// nothing written, unless `addr` is below the heap's size.
    pub fn store(&mut self, addr: Address, value: Value) -> (r: Result<(), ErrorKind>)
        ensures
            match old(self)@.store(addr, value) {
                Ok(m) => r is Ok && final(self)@ == m,
                Err(kind) => r == Err::<(), ErrorKind>(kind) && final(self)@ == old(self)@,
            },
    {
        if addr < self.data.len() {
            self.data[addr] = value;
            Ok(())
        } else {
            Err(ErrorKind::AddressOutOfBounds)
        }
    }

    /// Pushes `value` on the operand stack.
    pub fn push(&mut self, value: Value)
        ensures
            final(self)@ == old(self)@.push(value),
    {
        self.stack.push(value);
    }

    /// Pops the top of the operand stack; `StackUnderflow`, and nothing
    /// changed, where the stack is empty.
    pub fn pop(&mut self) -> (r: Result<Value, ErrorKind>)
        ensures
            match old(self)@.pop() {
                Ok((value, m)) => r == Ok::<Value, ErrorKind>(value) && final(self)@ == m,
                Err(kind) => r == Err::<Value, ErrorKind>(kind) && final(self)@ == old(self)@,
            },
    {
        match self.stack.pop() {
            Some(value) => Ok(value),
            None => Err(ErrorKind::StackUnderflow),
        }
    }

    // Dispatch.

    /// The address held in register `reg`.
    fn target(&self, reg: Reg) -> (r: Result<Address, ErrorKind>)
        ensures
            r == self@.target(reg),
    {
        self.read(reg)?.address()
    }

    /// The contents of the registers `a` and `b`.
    fn operands(&self, a: Reg, b: Reg) -> (r: Result<(Value, Value), ErrorKind>)
        ensures
            r == self@.operands(a, b),
    {
        let lhs = self.read(a)?;
        let rhs = self.read(b)?;
        Ok((lhs, rhs))
    }

    /// Pushes `value` and moves on to `next`.
    fn vpush(&mut self, value: Value, next: Address)
        ensures
            final(self)@ == old(self)@.vpush(value, next),
    {
        self.stack.push(value);
        self.ip = next;
    }

    /// Dispatches one decoded instruction, where `next` is the address of
    /// the instruction that follows it in the program.
    ///
    /// On success the machine is in the state that [`Machine::execute`]
    /// gives, and the result is the value that a print instruction hands
    /// to the observer, if `instr` is one. On a fault the machine is as it
    /// was, and the result is the fault.
    ///
    /// This is the whole of what an instruction does; it neither looks at
    /// the machine's status nor counts the step. [`VirtualMachine::step`]
    /// does both.
    pub fn execute(&mut self, instr: Instruction, next: Address) -> (r: Result<
        Option<Value>,
        ErrorKind,
    >)
        ensures
            match old(self)@.execute(instr, next) {
                Ok((m, emitted)) => r == Ok::<Option<Value>, ErrorKind>(emitted) && final(self)@
                    == m,
                Err(kind) => r == Err::<Option<Value>, ErrorKind>(kind) && final(self)@ == old(
                    self,
                )@,
            },
    {
        match instr {
            Instruction::Nop => {
                self.ip = next;
            },
            Instruction::Mov(reg, value) => {
                self.write(reg, value)?;
                self.ip = next;
            },
            Instruction::Movr(dst, src) => {
                let value = self.read(src)?;
                self.write(dst, value)?;
                self.ip = next;
            },
            Instruction::Jmp(reg) => {
                self.ip = self.target(reg)?;
            },
            Instruction::Je(reg) => {
                self.ip = if self.eq_flag {
                    self.target(reg)?
                } else {
                    next
                };
            },
            Instruction::Jne(reg) => {
                self.ip = if !self.eq_flag {
                    self.target(reg)?
                } else {
                    next
                };
            },
            Instruction::Jg(reg) => {
                self.ip = if self.gt_flag {
                    self.target(reg)?
                } else {
                    next
                };
            },
            Instruction::Jl(reg) => {
                self.ip = if !self.eq_flag && !self.gt_flag {
                    self.target(reg)?
                } else {
                    next
                };
            },
            Instruction::Cmp(a, b) => {
                let (lhs, rhs) = self.operands(a, b)?;
                let flags = compare(lhs, rhs)?;
                self.eq_flag = flags.eq;
                self.gt_flag = flags.gt;
                self.ip = next;
            },
            Instruction::Printr(reg) => {
                let value = self.read(reg)?;
                self.ip = next;
                return Ok(Some(value));
            },
            Instruction::Printv(addr) => {
                let value = self.load(addr)?;
                self.ip = next;
                return Ok(Some(value));
            },
            Instruction::Vstore(addr, value) => {
                self.store(addr, value)?;
                self.ip = next;
            },
            Instruction::Vload(addr) => {
                let value = self.load(addr)?;
                self.vpush(value, next);
            },
            Instruction::Vstorer(addr, reg) => {
                let value = self.read(reg)?;
                self.store(addr, value)?;
                self.ip = next;
            },
            Instruction::Vloadr(reg, addr) => {
                let value = self.load(addr)?;
                self.write(reg, value)?;
                self.ip = next;
            },
            Instruction::Add(a, b) => {
                self.arithmetic(ArithOp::Add, a, b, next)?;
            },
            Instruction::Sub(a, b) => {
                self.arithmetic(ArithOp::Sub, a, b, next)?;
            },
            Instruction::Mul(a, b) => {
                self.arithmetic(ArithOp::Mul, a, b, next)?;
            },
            Instruction::Div(a, b) => {
                self.arithmetic(ArithOp::Div, a, b, next)?;
            },
            Instruction::And(a, b) => {
                let (lhs, rhs) = self.operands(a, b)?;
                let value = bitwise(BitOp::And, lhs, rhs)?;
                self.vpush(value, next);
            },
            Instruction::Or(a, b) => {
                let (lhs, rhs) = self.operands(a, b)?;
                let value = bitwise(BitOp::Or, lhs, rhs)?;
                self.vpush(value, next);
            },
            Instruction::Xor(a, b) => {
                let (lhs, rhs) = self.operands(a, b)?;
                let value = bitwise(BitOp::Xor, lhs, rhs)?;
                self.vpush(value, next);
            },
            Instruction::Shr(reg, amount) => {
                let value = shift(ShiftOp::Shr, self.read(reg)?, amount)?;
                self.vpush(value, next);
            },
            Instruction::Shl(reg, amount) => {
                let value = shift(ShiftOp::Shl, self.read(reg)?, amount)?;
                self.vpush(value, next);
            },
            Instruction::Vpush(value) => {
                self.vpush(value, next);
            },
            Instruction::Vpushr(reg) => {
                let value = self.read(reg)?;
                self.vpush(value, next);
            },
            Instruction::Vpop(reg) => {
                if self.stack.len() == 0 {
                    return Err(ErrorKind::StackUnderflow);
                }
                if reg >= REGISTERS {
                    return Err(ErrorKind::InvalidRegister);
                }
                let value = self.pop()?;
                self.write(reg, value)?;
                self.ip = next;
            },
            Instruction::Call(reg) => {
                let ip = self.target(reg)?;
                self.call_stack.push(next);
                self.ip = ip;
            },
            Instruction::Ret => {
                match self.call_stack.pop() {
                    Some(ip) => {
                        self.ip = ip;
                    },
                    None => {
                        return Err(ErrorKind::CallStackUnderflow);
                    },
                }
            },
            Instruction::Abort => {
                self.status = Status::Halted;
            },
        }
        Ok(None)
    }

    /// Dispatches an arithmetic instruction: see [`Machine::arithmetic`].
    fn arithmetic(&mut self, op: ArithOp, a: Reg, b: Reg, next: Address) -> (r: Result<
        (),
        ErrorKind,
    >)
        ensures
            match old(self)@.arithmetic(op, a, b, next) {
                Ok(m) => r is Ok && final(self)@ == m,
                Err(kind) => r == Err::<(), ErrorKind>(kind) && final(self)@ == old(self)@,
            },
    {
        let (lhs, rhs) = self.operands(a, b)?;
        match arithmetic(op, lhs, rhs)? {
            Outcome::Value(value) => {
                self.vpush(value, next);
            },
            Outcome::Deferred(request) => {
                self.status = Status::Suspended(request);
                self.ip = next;
            },
        }
        Ok(())
    }

    // The engine.

    /// Whether the machine is executing instructions.
    pub fn executing(&self) -> (r: bool)
        ensures
            r == (self@.status == Status::Running),
    {
        match self.status {
            Status::Running => true,
            _ => false,
        }
    }

    /// Starts a ready machine; any other machine is left as it is.
    pub fn start(&mut self)
        ensures
            final(self)@ == old(self)@.start(),
    {
        match self.status {
            Status::Ready => {
                self.status = Status::Running;
            },
            _ => {},
        }
    }

    /// Puts the ceiling on the number of instructions that the machine
    /// dispatches in its life at `limit`. A machine is made with the
    /// ceiling `u64::MAX`.
    pub fn set_step_limit(&mut self, limit: u64)
        ensures
            final(self)@ == (Machine { step_limit: limit, ..old(self)@ }),
    {
        self.step_limit = limit;
    }

    /// Resumes a suspended machine with the result of the operation it
    /// asked for: `result` is pushed and the machine runs again. The
    /// answer is `false`, and nothing is changed, unless the machine is
    /// suspended and `result` is a float of the width it asked for.
    pub fn resume(&mut self, result: Value) -> (accepted: bool)
        ensures
            accepted == old(self)@.answers(result),
            final(self)@ == old(self)@.resume(result),
    {
        match self.status {
            Status::Suspended(request) => {
                if result.kind() == request.lhs.kind() {
                    self.stack.push(result);
                    self.status = Status::Running;
                    true
                } else {
                    false
                }
            },
            _ => false,
        }
    }

    /// Records the fault `kind` at the current instruction.
    fn fault(&mut self, kind: ErrorKind)
        ensures
            final(self)@ == old(self)@.fault(kind),
    {
        self.status = Status::Faulted { ip: self.ip, kind };
    }

    /// Takes one step: see [`Machine::step`]. The result is the value
    /// that the step hands to the observer, if any.
    pub fn step(&mut self) -> (emitted: Option<Value>)
        ensures
            (final(self)@, emitted) == old(self)@.step(),
    {
        if !self.executing() {
            return None;
        }
        match decode_next(&self.program, self.ip) {
            Err(DecodeError::EndOfProgram) => {
                self.status = Status::Halted;
                None
            },
            Err(_) => {
                self.fault(ErrorKind::DecodeError);
                None
            },
            Ok((instr, next)) => {
                if self.steps >= self.step_limit {
                    self.fault(ErrorKind::StepLimitExceeded);
                    None
                } else {
                    self.steps = self.steps + 1;
                    match self.execute(instr, next) {
                        Ok(emitted) => emitted,
                        Err(kind) => {
                            self.fault(kind);
                            None
                        },
                    }
                }
            },
        }
    }

    /// Runs the machine: starts it if it is ready, and takes steps until
    /// it is no longer running. Every value that a print instruction
    /// hands out on the way is appended to `sink`, in order.
    ///
    /// The run ends when the machine has halted or faulted, and stops when
    /// the machine is suspended on an operation on floats; the result says
    /// which. It always ends: a machine dispatches at most as many
    /// instructions as its step ceiling allows.
    pub fn run(&mut self, sink: &mut Vec<Value>) -> (r: RunResult)
        ensures
            (final(self)@, final(sink)@) == old(self)@.start().run(old(sink)@),
            final(self)@.status.outcome() == Some(r),
    {
        self.start();
        while self.executing()
            invariant
                self@.status != Status::Ready,
                self@.run(sink@) == old(self)@.start().run(old(sink)@),
            decreases self@.fuel(),
        {
            proof {
                self@.lemma_step_uses_fuel();
            }
            match self.step() {
                Some(value) => {
                    sink.push(value);
                },
                None => {},
            }
        }
        match self.status {
            Status::Faulted { ip, kind } => RunResult::Faulted { ip, kind },
            Status::Suspended(request) => RunResult::Suspended(request),
            _ => RunResult::Halted,
        }
    }

    // Inspection.

    /// The address of the next instruction.
    pub fn ip(&self) -> (r: Address)
        ensures
            r == self@.ip,
    {
        self.ip
    }

    /// Where the machine is in its life.
    pub fn status(&self) -> (r: Status)
        ensures
            r == self@.status,
    {
        self.status
    }

    /// The flag that the last comparison set if its operands were equal.
    pub fn eq_flag(&self) -> (r: bool)
        ensures
            r == self@.eq_flag,
    {
        self.eq_flag
    }

    /// The flag that the last comparison set if its left operand was the
    /// greater.
    pub fn gt_flag(&self) -> (r: bool)
        ensures
            r == self@.gt_flag,
    {
        self.gt_flag
    }

    /// How many instructions the machine has dispatched.
    pub fn steps(&self) -> (r: u64)
        ensures
            r == self@.steps,
    {
        self.steps
    }

    /// How many instructions the machine may dispatch at most.
    pub fn step_limit(&self) -> (r: u64)
        ensures
            r == self@.step_limit,
    {
        self.step_limit
    }

    /// The number of heap slots.
    pub fn heap_size(&self) -> (r: usize)
        ensures
            r == self@.heap.len(),
    {
        self.data.len()
    }

    /// The operand stack, its top last.
    pub fn stack(&self) -> (r: &Vec<Value>)
        ensures
            r@ == self@.stack,
    {
        &self.stack
    }

    /// The return addresses of the open calls, the innermost last.
    pub fn call_stack(&self) -> (r: &Vec<Address>)
        ensures
            r@ == self@.calls,
    {
        &self.call_stack
    }

    /// The program.
    pub fn program(&self) -> (r: &Vec<u8>)
        ensures
            r@ == self@.program,
    {
        &self.program
    }
}

} // verus!
