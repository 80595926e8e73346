//! Arithmetic on values: addition, subtraction, multiplication, division.
//!
//! Both operands must carry the same variant. On integers the result wraps
//! around in two's complement at the operands' width; division truncates
//! toward zero. On floats the core checks the operands and the divisor and
//! then hands the operation out as a [`FloatRequest`]: it holds bit
//! patterns and does not round.
use vstd::prelude::*;
use vstd::arithmetic::div_mod::lemma_div_basics;
use crate::error::ErrorKind;
use crate::value::{Kind, Value};

verus! {

/// The four arithmetic operations.
#[derive(Clone, Copy, Debug, PartialEq, Eq, Structural)]
pub enum ArithOp {
    Add,
    Sub,
    Mul,
    Div,
}

/// An arithmetic operation on two floats of one width, for the host of the
/// machine to carry out. `lhs` and `rhs` are both `F32` or both `F64`, and
/// where `op` is `Div`, `rhs` is neither zero nor negative zero.
#[derive(Clone, Copy, Debug, PartialEq, Eq, Structural)]
pub struct FloatRequest {
    pub op: ArithOp,
    pub lhs: Value,
    pub rhs: Value,
}

/// What an arithmetic operation on two well-typed operands comes to.
#[derive(Clone, Copy, Debug, PartialEq, Eq, Structural)]
pub enum Outcome {
    /// The operands were integers: this is the result.
    Value(Value),
    /// The operands were floats: the result is whatever IEEE-754 makes of
    /// this request.
    Deferred(FloatRequest),
}

/// The quotient of `a` by `b` rounded toward zero, for `b != 0`.
pub open spec fn truncated_quotient(a: int, b: int) -> int {
    if a >= 0 {
        if b > 0 {
            a / b
        } else {
            -(a / (-b))
        }
    } else {
        if b > 0 {
            -((-a) / b)
        } else {
            (-a) / (-b)
        }
    }
}

/// The result of `op` on the integers `a` and `b`, before any wraparound.
pub open spec fn exact(op: ArithOp, a: int, b: int) -> int {
    match op {
        ArithOp::Add => a + b,
        ArithOp::Sub => a - b,
        ArithOp::Mul => a * b,
        ArithOp::Div => truncated_quotient(a, b),
    }
}

impl Value {
    /// Whether this value is a zero: the integer 0, or a float that is
    /// `0.0` or `-0.0`. `Empty` is not a zero.
    pub open spec fn spec_is_zero(&self) -> bool {
        match *self {
            Value::Empty => false,
            Value::F32(x) => x == 0 || x == 0x8000_0000u32,
            Value::F64(x) => x == 0 || x == 0x8000_0000_0000_0000u64,
            _ => self.payload() == 0,
        }
    }

    /// Whether this value is a zero: the integer 0, or a float that is
    /// `0.0` or `-0.0`. `Empty` is not a zero.
    #[verifier::when_used_as_spec(spec_is_zero)]
    pub fn is_zero(&self) -> (z: bool)
        ensures
            z == self.spec_is_zero(),
    {
        match *self {
            Value::Empty => false,
            Value::U8(x) => x == 0,
            Value::I8(x) => x == 0,
            Value::U16(x) => x == 0,
            Value::I16(x) => x == 0,
            Value::U32(x) => x == 0,
            Value::I32(x) => x == 0,
            Value::U64(x) => x == 0,
            Value::I64(x) => x == 0,
            Value::U128(x) => x == 0,
            Value::I128(x) => x == 0,
            Value::F32(x) => x == 0 || x == 0x8000_0000u32,
            Value::F64(x) => x == 0 || x == 0x8000_0000_0000_0000u64,
        }
    }
}

/// What `op` on `lhs` and `rhs` comes to.
///
/// * Operands of different variants, or two `Empty` operands, are a
///   `TypeMismatch`.
/// * Otherwise a division by a zero is a `DivisionByZero`.
/// * Otherwise two floats give the request to compute `op` on them.
/// * Otherwise the operands are integers of one kind, and the result is the
///   value of that kind that the exact result wraps around to.
pub open spec fn spec_arithmetic(op: ArithOp, lhs: Value, rhs: Value) -> Result<
    Outcome,
    ErrorKind,
> {
    let kind = lhs.kind();
    if kind != rhs.kind() || kind == Kind::Empty {
        Err(ErrorKind::TypeMismatch)
    } else if op == ArithOp::Div && rhs.is_zero() {
        Err(ErrorKind::DivisionByZero)
    } else if kind.is_float() {
        Ok(Outcome::Deferred(FloatRequest { op, lhs, rhs }))
    } else {
        Ok(Outcome::Value(Value::of(kind, kind.wrap(exact(op, lhs.payload(), rhs.payload())))))
    }
}

fn arith_u8(op: ArithOp, a: u8, b: u8) -> (r: u8)
    requires
        op == ArithOp::Div ==> b != 0,
    ensures
        r == Kind::U8.wrap(exact(op, a as int, b as int)),
{
    match op {
        ArithOp::Add => a.wrapping_add(b),
        ArithOp::Sub => a.wrapping_sub(b),
        ArithOp::Mul => a.wrapping_mul(b),
        ArithOp::Div => a / b,
    }
}

fn arith_u16(op: ArithOp, a: u16, b: u16) -> (r: u16)
    requires
        op == ArithOp::Div ==> b != 0,
    ensures
        r == Kind::U16.wrap(exact(op, a as int, b as int)),
{
    match op {
        ArithOp::Add => a.wrapping_add(b),
        ArithOp::Sub => a.wrapping_sub(b),
        ArithOp::Mul => a.wrapping_mul(b),
        ArithOp::Div => a / b,
    }
}

fn arith_u32(op: ArithOp, a: u32, b: u32) -> (r: u32)
    requires
        op == ArithOp::Div ==> b != 0,
    ensures
        r == Kind::U32.wrap(exact(op, a as int, b as int)),
{
    match op {
        ArithOp::Add => a.wrapping_add(b),
        ArithOp::Sub => a.wrapping_sub(b),
        ArithOp::Mul => a.wrapping_mul(b),
        ArithOp::Div => a / b,
    }
}

fn arith_u64(op: ArithOp, a: u64, b: u64) -> (r: u64)
    requires
        op == ArithOp::Div ==> b != 0,
    ensures
        r == Kind::U64.wrap(exact(op, a as int, b as int)),
{
    match op {
        ArithOp::Add => a.wrapping_add(b),
        ArithOp::Sub => a.wrapping_sub(b),
        ArithOp::Mul => a.wrapping_mul(b),
        ArithOp::Div => a / b,
    }
}

fn arith_u128(op: ArithOp, a: u128, b: u128) -> (r: u128)
    requires
        op == ArithOp::Div ==> b != 0,
    ensures
        r == Kind::U128.wrap(exact(op, a as int, b as int)),
{
    match op {
        ArithOp::Add => a.wrapping_add(b),
        ArithOp::Sub => a.wrapping_sub(b),
        ArithOp::Mul => a.wrapping_mul(b),
        ArithOp::Div => a / b,
    }
}

fn arith_i8(op: ArithOp, a: i8, b: i8) -> (r: i8)
    requires
        op == ArithOp::Div ==> b != 0,
    ensures
        r == Kind::I8.wrap(exact(op, a as int, b as int)),
{
    match op {
        ArithOp::Add => a.wrapping_add(b),
        ArithOp::Sub => a.wrapping_sub(b),
        ArithOp::Mul => a.wrapping_mul(b),
        ArithOp::Div => {
            proof {
                lemma_div_basics(b as int);
                lemma_div_basics(-(b as int));
            }
            match a.checked_div(b) {
                Some(q) => q,
                None => i8::MIN,
            }
        },
    }
}

fn arith_i16(op: ArithOp, a: i16, b: i16) -> (r: i16)
    requires
        op == ArithOp::Div ==> b != 0,
    ensures
        r == Kind::I16.wrap(exact(op, a as int, b as int)),
{
    match op {
        ArithOp::Add => a.wrapping_add(b),
        ArithOp::Sub => a.wrapping_sub(b),
        ArithOp::Mul => a.wrapping_mul(b),
        ArithOp::Div => {
            proof {
                lemma_div_basics(b as int);
                lemma_div_basics(-(b as int));
            }
            match a.checked_div(b) {
                Some(q) => q,
                None => i16::MIN,
            }
        },
    }
}

fn arith_i32(op: ArithOp, a: i32, b: i32) -> (r: i32)
    requires
        op == ArithOp::Div ==> b != 0,
    ensures
        r == Kind::I32.wrap(exact(op, a as int, b as int)),
{
    match op {
        ArithOp::Add => a.wrapping_add(b),
        ArithOp::Sub => a.wrapping_sub(b),
        ArithOp::Mul => a.wrapping_mul(b),
        ArithOp::Div => {
            proof {
                lemma_div_basics(b as int);
                lemma_div_basics(-(b as int));
            }
            match a.checked_div(b) {
                Some(q) => q,
                None => i32::MIN,
            }
        },
    }
}

fn arith_i64(op: ArithOp, a: i64, b: i64) -> (r: i64)
    requires
        op == ArithOp::Div ==> b != 0,
    ensures
        r == Kind::I64.wrap(exact(op, a as int, b as int)),
{
    match op {
        ArithOp::Add => a.wrapping_add(b),
        ArithOp::Sub => a.wrapping_sub(b),
        ArithOp::Mul => a.wrapping_mul(b),
        ArithOp::Div => {
            proof {
                lemma_div_basics(b as int);
                lemma_div_basics(-(b as int));
            }
            match a.checked_div(b) {
                Some(q) => q,
                None => i64::MIN,
            }
        },
    }
}

fn arith_i128(op: ArithOp, a: i128, b: i128) -> (r: i128)
    requires
        op == ArithOp::Div ==> b != 0,
    ensures
        r == Kind::I128.wrap(exact(op, a as int, b as int)),
{
    match op {
        ArithOp::Add => a.wrapping_add(b),
        ArithOp::Sub => a.wrapping_sub(b),
        ArithOp::Mul => a.wrapping_mul(b),
        ArithOp::Div => {
            proof {
                lemma_div_basics(b as int);
                lemma_div_basics(-(b as int));
            }
            match a.checked_div(b) {
                Some(q) => q,
                None => i128::MIN,
            }
        },
    }
}

/// Carries out `op` on `lhs` and `rhs`, or says why it cannot.
pub fn arithmetic(op: ArithOp, lhs: Value, rhs: Value) -> (r: Result<Outcome, ErrorKind>)
    ensures
        r == spec_arithmetic(op, lhs, rhs),
{
    if lhs.kind() != rhs.kind() {
        return Err(ErrorKind::TypeMismatch);
    }
    if op == ArithOp::Div && rhs.is_zero() {
        return match lhs {
            Value::Empty => Err(ErrorKind::TypeMismatch),
            _ => Err(ErrorKind::DivisionByZero),
        };
    }
    match (lhs, rhs) {
        (Value::U8(a), Value::U8(b)) => Ok(Outcome::Value(Value::U8(arith_u8(op, a, b)))),
        (Value::I8(a), Value::I8(b)) => Ok(Outcome::Value(Value::I8(arith_i8(op, a, b)))),
        (Value::U16(a), Value::U16(b)) => Ok(Outcome::Value(Value::U16(arith_u16(op, a, b)))),
        (Value::I16(a), Value::I16(b)) => Ok(Outcome::Value(Value::I16(arith_i16(op, a, b)))),
        (Value::U32(a), Value::U32(b)) => Ok(Outcome::Value(Value::U32(arith_u32(op, a, b)))),
        (Value::I32(a), Value::I32(b)) => Ok(Outcome::Value(Value::I32(arith_i32(op, a, b)))),
        (Value::U64(a), Value::U64(b)) => Ok(Outcome::Value(Value::U64(arith_u64(op, a, b)))),
        (Value::I64(a), Value::I64(b)) => Ok(Outcome::Value(Value::I64(arith_i64(op, a, b)))),
        (Value::U128(a), Value::U128(b)) => Ok(Outcome::Value(Value::U128(arith_u128(op, a, b)))),
        (Value::I128(a), Value::I128(b)) => Ok(Outcome::Value(Value::I128(arith_i128(op, a, b)))),
        (Value::F32(_), Value::F32(_)) => Ok(Outcome::Deferred(FloatRequest { op, lhs, rhs })),
        (Value::F64(_), Value::F64(_)) => Ok(Outcome::Deferred(FloatRequest { op, lhs, rhs })),
        _ => Err(ErrorKind::TypeMismatch),
    }
}

} // verus!
