//! The instruction set.
use vstd::prelude::*;
use crate::value::Value;

verus! {

/// A register number. The machine has the registers `0..8`; an
/// instruction that names another one faults when it runs.
pub type Reg = usize;

/// An address: an index into the heap for the storage instructions, an
/// offset into the program for the instruction pointer and the jumps.
pub type Address = usize;

/// One decoded instruction.
///
/// The binary operations read two registers and push their result on the
/// operand stack; no register is written unless a later `Vpop` does it.
#[derive(Clone, Copy, Debug, PartialEq, Eq, Structural)]
pub enum Instruction {
    /// Does nothing.
    Nop,
    /// Writes the immediate to the register.
    Mov(Reg, Value),
    /// Copies the second register to the first.
    Movr(Reg, Reg),
    /// Jumps to the address held in the register.
    Jmp(Reg),
    /// Jumps if the last comparison found its operands equal.
    Je(Reg),
    /// Jumps if the last comparison found its operands not equal.
    Jne(Reg),
    /// Jumps if the last comparison found the left operand greater.
    Jg(Reg),
    /// Jumps if the last comparison found the left operand neither equal
    /// nor greater.
    Jl(Reg),
    /// Compares the first register with the second and sets the flags.
    Cmp(Reg, Reg),
    /// Hands the register's content to the observer.
    Printr(Reg),
    /// Hands the heap slot's content to the observer.
    Printv(Address),
    /// Stores the immediate in the heap slot.
    Vstore(Address, Value),
    /// Pushes the heap slot's content on the stack.
    Vload(Address),
    /// Stores the register's content in the heap slot.
    Vstorer(Address, Reg),
    /// Loads the heap slot's content into the register.
    Vloadr(Reg, Address),
    /// Pushes the sum of the two registers.
    Add(Reg, Reg),
    /// Pushes the first register less the second.
    Sub(Reg, Reg),
    /// Pushes the product of the two registers.
    Mul(Reg, Reg),
    /// Pushes the first register divided by the second.
    Div(Reg, Reg),
    /// Pushes the bitwise and of the two registers.
    And(Reg, Reg),
    /// Pushes the bitwise or of the two registers.
    Or(Reg, Reg),
    /// Pushes the bitwise exclusive or of the two registers.
    Xor(Reg, Reg),
    /// Pushes the register shifted right by the immediate.
    Shr(Reg, Value),
    /// Pushes the register shifted left by the immediate.
    Shl(Reg, Value),
    /// Pushes the immediate.
    Vpush(Value),
    /// Pushes the register's content.
    Vpushr(Reg),
    /// Pops the top of the stack into the register.
    Vpop(Reg),
    /// Remembers the address of the next instruction and jumps to the
    /// address held in the register.
    Call(Reg),
    /// Jumps to the address that the last open call remembered.
    Ret,
    /// Halts the machine.
    Abort,
}

} // verus!
