//! The faults a run can end in.
use vstd::prelude::*;

verus! {

/// Why an instruction could not be carried out. Every fault is fatal to the
/// run: the engine records it together with the address of the instruction
/// that raised it and stops.
#[derive(Clone, Copy, Debug, PartialEq, Eq, Structural)]
pub enum ErrorKind {
    /// The operands of a binary operation carry different variants, an
    /// operand carries no number at all, or a register that should hold an
    /// address does not hold one.
    TypeMismatch,
    /// A register index outside `0..8`.
    InvalidRegister,
    /// A heap address at or beyond the heap's size.
    AddressOutOfBounds,
    /// A pop from the empty operand stack.
    StackUnderflow,
    /// A return with no call to return from.
    CallStackUnderflow,
    /// A division whose divisor is zero.
    DivisionByZero,
    /// A shift by a negative amount or by at least the operand's bit width.
    ShiftOverflow,
    /// The bytes at the instruction pointer do not encode an instruction.
    DecodeError,
    /// The next instruction would exceed the configured step ceiling.
    StepLimitExceeded,
}

} // verus!
