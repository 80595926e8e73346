//! The ordering of values that the compare instruction observes.
//!
//! Two values are comparable only where they carry the same variant.
//! Integers compare as numbers. Floats compare as IEEE-754 orders them:
//! a NaN is neither equal to nor greater than anything, itself included,
//! and the two zeros are equal. Two `Empty` values are equal.
use vstd::prelude::*;
use crate::error::ErrorKind;
use crate::value::Value;

verus! {

/// The two flags a comparison sets.
#[derive(Clone, Copy, Debug, PartialEq, Eq, Structural)]
pub struct Flags {
    /// The left operand equals the right one.
    pub eq: bool,
    /// The left operand is greater than the right one.
    pub gt: bool,
}

/// The number that a float with the bit pattern `bits` is ordered by, for
/// a format whose sign bit weighs `sign` and whose infinity has the
/// magnitude `infinity`: the magnitude, negated where the sign bit is set.
/// `None` for a NaN, which has no place in the order.
///
/// IEEE-754 lays the magnitude bits out so that a greater magnitude is a
/// greater bit pattern, so these numbers order floats as the floats
/// themselves are ordered.
pub open spec fn float_key(bits: int, sign: int, infinity: int) -> Option<int> {
    let magnitude = if bits >= sign {
        bits - sign
    } else {
        bits
    };
    if magnitude > infinity {
        None
    } else if bits >= sign {
        Some(-magnitude)
    } else {
        Some(magnitude)
    }
}

impl Value {
    /// The number this value is ordered by among the values of its
    /// variant, or `None` where it is a NaN. `Empty` has the key zero.
    pub open spec fn order_key(self) -> Option<int> {
        match self {
            Value::F32(x) => float_key(x as int, 0x8000_0000, 0x7f80_0000),
            Value::F64(x) => float_key(x as int, 0x8000_0000_0000_0000, 0x7ff0_0000_0000_0000),
            _ => Some(self.payload()),
        }
    }

    /// Whether this value is a float that is not a number.
    pub open spec fn is_nan(self) -> bool {
        self.order_key() is None
    }
}

/// What comparing `lhs` with `rhs` comes to: a `TypeMismatch` where their
/// variants differ; otherwise `eq` says that both have a place in the order
/// and it is the same, `gt` that both have one and that of `lhs` is the
/// greater.
pub open spec fn spec_compare(lhs: Value, rhs: Value) -> Result<Flags, ErrorKind> {
    if lhs.kind() != rhs.kind() {
        Err(ErrorKind::TypeMismatch)
    } else {
        match (lhs.order_key(), rhs.order_key()) {
            (Some(a), Some(b)) => Ok(Flags { eq: a == b, gt: a > b }),
            _ => Ok(Flags { eq: false, gt: false }),
        }
    }
}

fn key_f32(bits: u32) -> (r: Option<i64>)
    ensures
        r is Some <==> float_key(bits as int, 0x8000_0000, 0x7f80_0000) is Some,
        r is Some ==> r->Some_0 == float_key(bits as int, 0x8000_0000, 0x7f80_0000)->Some_0,
{
    let negative: bool = bits >= 0x8000_0000u32;
    let magnitude: u32 = if negative {
        bits - 0x8000_0000u32
    } else {
        bits
    };
    if magnitude > 0x7f80_0000u32 {
        None
    } else if negative {
        Some(-(magnitude as i64))
    } else {
        Some(magnitude as i64)
    }
}

fn key_f64(bits: u64) -> (r: Option<i128>)
    ensures
        r is Some <==> float_key(bits as int, 0x8000_0000_0000_0000, 0x7ff0_0000_0000_0000)
            is Some,
        r is Some ==> r->Some_0 == float_key(
            bits as int,
            0x8000_0000_0000_0000,
            0x7ff0_0000_0000_0000,
        )->Some_0,
{
    let negative: bool = bits >= 0x8000_0000_0000_0000u64;
    let magnitude: u64 = if negative {
        bits - 0x8000_0000_0000_0000u64
    } else {
        bits
    };
    if magnitude > 0x7ff0_0000_0000_0000u64 {
        None
    } else if negative {
        Some(-(magnitude as i128))
    } else {
        Some(magnitude as i128)
    }
}

/// Compares `lhs` with `rhs`.
pub fn compare(lhs: Value, rhs: Value) -> (r: Result<Flags, ErrorKind>)
    ensures
        r == spec_compare(lhs, rhs),
{
    match (lhs, rhs) {
        (Value::Empty, Value::Empty) => Ok(Flags { eq: true, gt: false }),
        (Value::U8(a), Value::U8(b)) => Ok(Flags { eq: a == b, gt: a > b }),
        (Value::I8(a), Value::I8(b)) => Ok(Flags { eq: a == b, gt: a > b }),
        (Value::U16(a), Value::U16(b)) => Ok(Flags { eq: a == b, gt: a > b }),
        (Value::I16(a), Value::I16(b)) => Ok(Flags { eq: a == b, gt: a > b }),
        (Value::U32(a), Value::U32(b)) => Ok(Flags { eq: a == b, gt: a > b }),
        (Value::I32(a), Value::I32(b)) => Ok(Flags { eq: a == b, gt: a > b }),
        (Value::U64(a), Value::U64(b)) => Ok(Flags { eq: a == b, gt: a > b }),
        (Value::I64(a), Value::I64(b)) => Ok(Flags { eq: a == b, gt: a > b }),
        (Value::U128(a), Value::U128(b)) => Ok(Flags { eq: a == b, gt: a > b }),
        (Value::I128(a), Value::I128(b)) => Ok(Flags { eq: a == b, gt: a > b }),
        (Value::F32(a), Value::F32(b)) => match (key_f32(a), key_f32(b)) {
            (Some(x), Some(y)) => Ok(Flags { eq: x == y, gt: x > y }),
            _ => Ok(Flags { eq: false, gt: false }),
        },
        (Value::F64(a), Value::F64(b)) => match (key_f64(a), key_f64(b)) {
            (Some(x), Some(y)) => Ok(Flags { eq: x == y, gt: x > y }),
            _ => Ok(Flags { eq: false, gt: false }),
        },
        _ => Err(ErrorKind::TypeMismatch),
    }
}

} // verus!
