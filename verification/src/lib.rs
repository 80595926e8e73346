//! A register-based virtual machine core with machine-checked contracts.
//!
//! The machine has eight typed registers, an operand stack, a fixed-size
//! heap of values, a call stack of return addresses and two comparison
//! flags. Programs are byte buffers; every instruction is decoded from the
//! buffer at the instruction pointer and dispatched against that state.
//!
//! Every executable function carries a contract stated over a mathematical
//! model: values are a kind and an integer payload ([`value`]), the machine
//! is a record of sequences ([`machine::Machine`]), and a program is a
//! sequence of bytes with a decoding ([`codec`]). The general properties
//! of the instruction set are proved in [`laws`].
//!
//! Floats are carried as IEEE-754 bit patterns. The machine stores, moves
//! and compares them itself. It does not round: an arithmetic instruction
//! on floats suspends the machine on a [`arith::FloatRequest`], which the
//! host carries out and answers with [`vm::VirtualMachine::resume`].
pub mod error;
pub mod value;
pub mod bits;
pub mod arith;
pub mod bitwise;
pub mod compare;
pub mod instruction;
pub mod bytes;
pub mod codec;
pub mod machine;
pub mod vm;
pub mod laws;

pub use error::ErrorKind;
pub use instruction::Instruction;
pub use machine::{RunResult, Status};
pub use value::{Kind, Value};
pub use vm::VirtualMachine;
