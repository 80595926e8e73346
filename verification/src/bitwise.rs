//! Bitwise operations and shifts on integer values.
//!
//! The bitwise operations take two integers of one variant. A shift takes
//! an integer of any variant and an amount that is an integer of any
//! variant; the amount is read as the number it denotes and must lie in
//! `0..width`, where `width` is the bit width of the shifted operand.
//! Floats and `Empty` have no bits to operate on: they are a
//! `TypeMismatch`.
use vstd::prelude::*;
use vstd::arithmetic::power2::pow2;
use crate::error::ErrorKind;
use crate::bits::{
    bit,
    lemma_bits_i128,
    lemma_bits_i16,
    lemma_bits_i32,
    lemma_bits_i64,
    lemma_bits_i8,
    lemma_bits_u128,
    lemma_bits_u16,
    lemma_bits_u32,
    lemma_bits_u64,
    lemma_bits_u8,
    lemma_shl_i128,
    lemma_shl_i16,
    lemma_shl_i32,
    lemma_shl_i64,
    lemma_shl_i8,
    lemma_shl_u128,
    lemma_shl_u16,
    lemma_shl_u32,
    lemma_shl_u64,
    lemma_shl_u8,
    lemma_shr_i128,
    lemma_shr_i16,
    lemma_shr_i32,
    lemma_shr_i64,
    lemma_shr_i8,
    lemma_shr_u128,
    lemma_shr_u16,
    lemma_shr_u32,
    lemma_shr_u64,
    lemma_shr_u8,
};
use crate::value::Value;

verus! {

/// The three bitwise operations.
#[derive(Clone, Copy, Debug, PartialEq, Eq, Structural)]
pub enum BitOp {
    And,
    Or,
    Xor,
}

/// The two shift directions. A right shift of a signed integer is
/// arithmetic: it keeps the sign.
#[derive(Clone, Copy, Debug, PartialEq, Eq, Structural)]
pub enum ShiftOp {
    Shl,
    Shr,
}

/// What `op` on `lhs` and `rhs` comes to: the bitwise combination of two
/// integers of one variant, in that variant; a `TypeMismatch` for any other
/// pair of operands.
pub open spec fn spec_bitwise(op: BitOp, lhs: Value, rhs: Value) -> Result<Value, ErrorKind> {
    match (lhs, rhs) {
        (Value::U8(a), Value::U8(b)) => Ok(
            Value::U8(
                match op {
                    BitOp::And => a & b,
                    BitOp::Or => a | b,
                    BitOp::Xor => a ^ b,
                },
            ),
        ),
        (Value::I8(a), Value::I8(b)) => Ok(
            Value::I8(
                match op {
                    BitOp::And => a & b,
                    BitOp::Or => a | b,
                    BitOp::Xor => a ^ b,
                },
            ),
        ),
        (Value::U16(a), Value::U16(b)) => Ok(
            Value::U16(
                match op {
                    BitOp::And => a & b,
                    BitOp::Or => a | b,
                    BitOp::Xor => a ^ b,
                },
            ),
        ),
        (Value::I16(a), Value::I16(b)) => Ok(
            Value::I16(
                match op {
                    BitOp::And => a & b,
                    BitOp::Or => a | b,
                    BitOp::Xor => a ^ b,
                },
            ),
        ),
        (Value::U32(a), Value::U32(b)) => Ok(
            Value::U32(
                match op {
                    BitOp::And => a & b,
                    BitOp::Or => a | b,
                    BitOp::Xor => a ^ b,
                },
            ),
        ),
        (Value::I32(a), Value::I32(b)) => Ok(
            Value::I32(
                match op {
                    BitOp::And => a & b,
                    BitOp::Or => a | b,
                    BitOp::Xor => a ^ b,
                },
            ),
        ),
        (Value::U64(a), Value::U64(b)) => Ok(
            Value::U64(
                match op {
                    BitOp::And => a & b,
                    BitOp::Or => a | b,
                    BitOp::Xor => a ^ b,
                },
            ),
        ),
        (Value::I64(a), Value::I64(b)) => Ok(
            Value::I64(
                match op {
                    BitOp::And => a & b,
                    BitOp::Or => a | b,
                    BitOp::Xor => a ^ b,
                },
            ),
        ),
        (Value::U128(a), Value::U128(b)) => Ok(
            Value::U128(
                match op {
                    BitOp::And => a & b,
                    BitOp::Or => a | b,
                    BitOp::Xor => a ^ b,
                },
            ),
        ),
        (Value::I128(a), Value::I128(b)) => Ok(
            Value::I128(
                match op {
                    BitOp::And => a & b,
                    BitOp::Or => a | b,
                    BitOp::Xor => a ^ b,
                },
            ),
        ),
        _ => Err(ErrorKind::TypeMismatch),
    }
}

/// What `op` makes of two bits.
pub open spec fn combine(op: BitOp, a: bool, b: bool) -> bool {
    match op {
        BitOp::And => a && b,
        BitOp::Or => a || b,
        BitOp::Xor => a != b,
    }
}

/// The result of a bitwise operation is of the operands' variant, and
/// each of its bits is what the operation makes of the operands' bits in
/// that place.
pub proof fn lemma_bitwise_bits(op: BitOp, lhs: Value, rhs: Value, i: nat)
    requires
        spec_bitwise(op, lhs, rhs) is Ok,
        i < lhs.kind().bits(),
    ensures
        spec_bitwise(op, lhs, rhs)->Ok_0.kind() == lhs.kind(),
        bit(spec_bitwise(op, lhs, rhs)->Ok_0.payload(), i) == combine(
            op,
            bit(lhs.payload(), i),
            bit(rhs.payload(), i),
        ),
{
    match (lhs, rhs) {
        (Value::U8(a), Value::U8(b)) => lemma_bits_u8(a, b, i as u32),
        (Value::I8(a), Value::I8(b)) => lemma_bits_i8(a, b, i as u32),
        (Value::U16(a), Value::U16(b)) => lemma_bits_u16(a, b, i as u32),
        (Value::I16(a), Value::I16(b)) => lemma_bits_i16(a, b, i as u32),
        (Value::U32(a), Value::U32(b)) => lemma_bits_u32(a, b, i as u32),
        (Value::I32(a), Value::I32(b)) => lemma_bits_i32(a, b, i as u32),
        (Value::U64(a), Value::U64(b)) => lemma_bits_u64(a, b, i as u32),
        (Value::I64(a), Value::I64(b)) => lemma_bits_i64(a, b, i as u32),
        (Value::U128(a), Value::U128(b)) => lemma_bits_u128(a, b, i as u32),
        (Value::I128(a), Value::I128(b)) => lemma_bits_i128(a, b, i as u32),
        _ => {},
    }
}

/// Carries out the bitwise operation `op` on `lhs` and `rhs`.
pub fn bitwise(op: BitOp, lhs: Value, rhs: Value) -> (r: Result<Value, ErrorKind>)
    ensures
        r == spec_bitwise(op, lhs, rhs),
        lhs.kind() != rhs.kind() || !lhs.kind().is_integer() <==> r == Err::<Value, ErrorKind>(
            ErrorKind::TypeMismatch,
        ),
        r is Ok ==> r->Ok_0.kind() == lhs.kind(),
{
    match (lhs, rhs) {
        (Value::U8(a), Value::U8(b)) => Ok(
            Value::U8(
                match op {
                    BitOp::And => a & b,
                    BitOp::Or => a | b,
                    BitOp::Xor => a ^ b,
                },
            ),
        ),
        (Value::I8(a), Value::I8(b)) => Ok(
            Value::I8(
                match op {
                    BitOp::And => a & b,
                    BitOp::Or => a | b,
                    BitOp::Xor => a ^ b,
                },
            ),
        ),
        (Value::U16(a), Value::U16(b)) => Ok(
            Value::U16(
                match op {
                    BitOp::And => a & b,
                    BitOp::Or => a | b,
                    BitOp::Xor => a ^ b,
                },
            ),
        ),
        (Value::I16(a), Value::I16(b)) => Ok(
            Value::I16(
                match op {
                    BitOp::And => a & b,
                    BitOp::Or => a | b,
                    BitOp::Xor => a ^ b,
                },
            ),
        ),
        (Value::U32(a), Value::U32(b)) => Ok(
            Value::U32(
                match op {
                    BitOp::And => a & b,
                    BitOp::Or => a | b,
                    BitOp::Xor => a ^ b,
                },
            ),
        ),
        (Value::I32(a), Value::I32(b)) => Ok(
            Value::I32(
                match op {
                    BitOp::And => a & b,
                    BitOp::Or => a | b,
                    BitOp::Xor => a ^ b,
                },
            ),
        ),
        (Value::U64(a), Value::U64(b)) => Ok(
            Value::U64(
                match op {
                    BitOp::And => a & b,
                    BitOp::Or => a | b,
                    BitOp::Xor => a ^ b,
                },
            ),
        ),
        (Value::I64(a), Value::I64(b)) => Ok(
            Value::I64(
                match op {
                    BitOp::And => a & b,
                    BitOp::Or => a | b,
                    BitOp::Xor => a ^ b,
                },
            ),
        ),
        (Value::U128(a), Value::U128(b)) => Ok(
            Value::U128(
                match op {
                    BitOp::And => a & b,
                    BitOp::Or => a | b,
                    BitOp::Xor => a ^ b,
                },
            ),
        ),
        (Value::I128(a), Value::I128(b)) => Ok(
            Value::I128(
                match op {
                    BitOp::And => a & b,
                    BitOp::Or => a | b,
                    BitOp::Xor => a ^ b,
                },
            ),
        ),
        _ => Err(ErrorKind::TypeMismatch),
    }
}

/// The integer `value` shifted by `by` bits. A left shift multiplies by
/// two to the power `by` and wraps around at the width of `value`; a right
/// shift divides by that power and rounds down, which keeps the sign.
pub open spec fn shifted(dir: ShiftOp, value: Value, by: nat) -> Value {
    let kind = value.kind();
    match dir {
        ShiftOp::Shl => Value::of(kind, kind.wrap(value.payload() * pow2(by))),
        ShiftOp::Shr => Value::of(kind, value.payload() / (pow2(by) as int)),
    }
}

/// What shifting `value` by `amount` comes to.
///
/// * A `value` or an `amount` that is not an integer is a `TypeMismatch`.
/// * Otherwise an amount below zero, or at or above the width of `value`,
///   is a `ShiftOverflow`.
/// * Otherwise the result is `value` shifted by that many bits.
pub open spec fn spec_shift(dir: ShiftOp, value: Value, amount: Value) -> Result<
    Value,
    ErrorKind,
> {
    if !value.kind().is_integer() || !amount.kind().is_integer() {
        Err(ErrorKind::TypeMismatch)
    } else if amount.payload() < 0 || amount.payload() >= value.kind().bits() {
        Err(ErrorKind::ShiftOverflow)
    } else {
        Ok(shifted(dir, value, amount.payload() as nat))
    }
}

/// The number that the integer `amount` denotes, where it lies in
/// `0..width`.
fn shift_amount(amount: Value, width: u32) -> (r: Option<u32>)
    requires
        amount.kind().is_integer(),
        width <= 128,
    ensures
        r == if 0 <= amount.payload() < width {
            Some(amount.payload() as u32)
        } else {
            None
        },
{
    match amount {
        Value::U8(k) => if (k as u32) < width {
            Some(k as u32)
        } else {
            None
        },
        Value::I8(k) => if 0 <= k && (k as u32) < width {
            Some(k as u32)
        } else {
            None
        },
        Value::U16(k) => if (k as u32) < width {
            Some(k as u32)
        } else {
            None
        },
        Value::I16(k) => if 0 <= k && (k as u32) < width {
            Some(k as u32)
        } else {
            None
        },
        Value::U32(k) => if k < width {
            Some(k)
        } else {
            None
        },
        Value::I32(k) => if 0 <= k && (k as u32) < width {
            Some(k as u32)
        } else {
            None
        },
        Value::U64(k) => if k < width as u64 {
            Some(k as u32)
        } else {
            None
        },
        Value::I64(k) => if 0 <= k && k < width as i64 {
            Some(k as u32)
        } else {
            None
        },
        Value::U128(k) => if k < width as u128 {
            Some(k as u32)
        } else {
            None
        },
        Value::I128(k) => if 0 <= k && k < width as i128 {
            Some(k as u32)
        } else {
            None
        },
        _ => None,
    }
}

/// The bit width of the integer `value`, or `None` where it is no integer.
fn width_of(value: Value) -> (r: Option<u32>)
    ensures
        r == if value.kind().is_integer() {
            Some(value.kind().bits() as u32)
        } else {
            None
        },
{
    match value {
        Value::U8(_) | Value::I8(_) => Some(8),
        Value::U16(_) | Value::I16(_) => Some(16),
        Value::U32(_) | Value::I32(_) => Some(32),
        Value::U64(_) | Value::I64(_) => Some(64),
        Value::U128(_) | Value::I128(_) => Some(128),
        _ => None,
    }
}

/// Shifts `value` by `amount` bits in the direction `dir`.
pub fn shift(dir: ShiftOp, value: Value, amount: Value) -> (r: Result<Value, ErrorKind>)
    ensures
        r == spec_shift(dir, value, amount),
{
    let width: u32 = match width_of(value) {
        Some(w) => w,
        None => {
            return Err(ErrorKind::TypeMismatch);
        },
    };
    if width_of(amount).is_none() {
        return Err(ErrorKind::TypeMismatch);
    }
    let by: u32 = match shift_amount(amount, width) {
        Some(k) => k,
        None => {
            return Err(ErrorKind::ShiftOverflow);
        },
    };
    Ok(
        match value {
            Value::U8(x) => Value::U8(
                match dir {
                    ShiftOp::Shl => {
                        proof {
                            lemma_shl_u8(x, by);
                        }
                        x << by
                    },
                    ShiftOp::Shr => {
                        proof {
                            lemma_shr_u8(x, by);
                        }
                        x >> by
                    },
                },
            ),
            Value::I8(x) => Value::I8(
                match dir {
                    ShiftOp::Shl => {
                        proof {
                            lemma_shl_i8(x, by);
                        }
                        x << by
                    },
                    ShiftOp::Shr => {
                        proof {
                            lemma_shr_i8(x, by);
                        }
                        x >> by
                    },
                },
            ),
            Value::U16(x) => Value::U16(
                match dir {
                    ShiftOp::Shl => {
                        proof {
                            lemma_shl_u16(x, by);
                        }
                        x << by
                    },
                    ShiftOp::Shr => {
                        proof {
                            lemma_shr_u16(x, by);
                        }
                        x >> by
                    },
                },
            ),
            Value::I16(x) => Value::I16(
                match dir {
                    ShiftOp::Shl => {
                        proof {
                            lemma_shl_i16(x, by);
                        }
                        x << by
                    },
                    ShiftOp::Shr => {
                        proof {
                            lemma_shr_i16(x, by);
                        }
                        x >> by
                    },
                },
            ),
            Value::U32(x) => Value::U32(
                match dir {
                    ShiftOp::Shl => {
                        proof {
                            lemma_shl_u32(x, by);
                        }
                        x << by
                    },
                    ShiftOp::Shr => {
                        proof {
                            lemma_shr_u32(x, by);
                        }
                        x >> by
                    },
                },
            ),
            Value::I32(x) => Value::I32(
                match dir {
                    ShiftOp::Shl => {
                        proof {
                            lemma_shl_i32(x, by);
                        }
                        x << by
                    },
                    ShiftOp::Shr => {
                        proof {
                            lemma_shr_i32(x, by);
                        }
                        x >> by
                    },
                },
            ),
            Value::U64(x) => Value::U64(
                match dir {
                    ShiftOp::Shl => {
                        proof {
                            lemma_shl_u64(x, by);
                        }
                        x << by
                    },
                    ShiftOp::Shr => {
                        proof {
                            lemma_shr_u64(x, by);
                        }
                        x >> by
                    },
                },
            ),
            Value::I64(x) => Value::I64(
                match dir {
                    ShiftOp::Shl => {
                        proof {
                            lemma_shl_i64(x, by);
                        }
                        x << by
                    },
                    ShiftOp::Shr => {
                        proof {
                            lemma_shr_i64(x, by);
                        }
                        x >> by
                    },
                },
            ),
            Value::U128(x) => Value::U128(
                match dir {
                    ShiftOp::Shl => {
                        proof {
                            lemma_shl_u128(x, by);
                        }
                        x << by
                    },
                    ShiftOp::Shr => {
                        proof {
                            lemma_shr_u128(x, by);
                        }
                        x >> by
                    },
                },
            ),
            Value::I128(x) => Value::I128(
                match dir {
                    ShiftOp::Shl => {
                        proof {
                            lemma_shl_i128(x, by);
                        }
                        x << by
                    },
                    ShiftOp::Shr => {
                        proof {
                            lemma_shr_i128(x, by);
                        }
                        x >> by
                    },
                },
            ),
            _ => value,
        },
    )
}

} // verus!
