use regvm::arith::{arithmetic, ArithOp, FloatRequest, Outcome};
use regvm::bitwise::{bitwise, shift, BitOp, ShiftOp};
use regvm::compare::{compare, Flags};
use regvm::error::ErrorKind;
use regvm::value::{Kind, Value};

fn value_of(op: ArithOp, lhs: Value, rhs: Value) -> Value {
    match arithmetic(op, lhs, rhs) {
        Ok(Outcome::Value(v)) => v,
        other => panic!("expected a value, got {:?}", other),
    }
}

#[test]
fn default_value_is_empty() {
    assert_eq!(Value::default(), Value::Empty);
    assert_eq!(Value::default().kind(), Kind::Empty);
}

#[test]
fn kind_names_the_variant() {
    assert_eq!(Value::U8(1).kind(), Kind::U8);
    assert_eq!(Value::I8(-1).kind(), Kind::I8);
    assert_eq!(Value::U16(1).kind(), Kind::U16);
    assert_eq!(Value::I16(-1).kind(), Kind::I16);
    assert_eq!(Value::U32(1).kind(), Kind::U32);
    assert_eq!(Value::I32(-1).kind(), Kind::I32);
    assert_eq!(Value::U64(1).kind(), Kind::U64);
    assert_eq!(Value::I64(-1).kind(), Kind::I64);
    assert_eq!(Value::U128(1).kind(), Kind::U128);
    assert_eq!(Value::I128(-1).kind(), Kind::I128);
    assert_eq!(Value::F32(1.0f32.to_bits()).kind(), Kind::F32);
    assert_eq!(Value::F64(1.0f64.to_bits()).kind(), Kind::F64);
}

#[test]
fn addition_wraps_at_each_width() {
    assert_eq!(value_of(ArithOp::Add, Value::U8(200), Value::U8(100)), Value::U8(44));
    assert_eq!(value_of(ArithOp::Add, Value::I8(127), Value::I8(1)), Value::I8(-128));
    assert_eq!(value_of(ArithOp::Add, Value::U16(65535), Value::U16(2)), Value::U16(1));
    assert_eq!(value_of(ArithOp::Add, Value::I16(32767), Value::I16(1)), Value::I16(-32768));
    assert_eq!(value_of(ArithOp::Add, Value::U32(u32::MAX), Value::U32(1)), Value::U32(0));
    assert_eq!(value_of(ArithOp::Add, Value::I32(i32::MAX), Value::I32(1)), Value::I32(i32::MIN));
    assert_eq!(value_of(ArithOp::Add, Value::U64(u64::MAX), Value::U64(1)), Value::U64(0));
    assert_eq!(value_of(ArithOp::Add, Value::I64(i64::MAX), Value::I64(1)), Value::I64(i64::MIN));
    assert_eq!(value_of(ArithOp::Add, Value::U128(u128::MAX), Value::U128(1)), Value::U128(0));
    assert_eq!(
        value_of(ArithOp::Add, Value::I128(i128::MAX), Value::I128(1)),
        Value::I128(i128::MIN)
    );
    assert_eq!(value_of(ArithOp::Add, Value::I32(3), Value::I32(4)), Value::I32(7));
}

#[test]
fn subtraction_wraps_at_each_width() {
    assert_eq!(value_of(ArithOp::Sub, Value::U8(0), Value::U8(1)), Value::U8(255));
    assert_eq!(value_of(ArithOp::Sub, Value::I8(-128), Value::I8(1)), Value::I8(127));
    assert_eq!(value_of(ArithOp::Sub, Value::U64(0), Value::U64(1)), Value::U64(u64::MAX));
    assert_eq!(value_of(ArithOp::Sub, Value::I64(i64::MIN), Value::I64(1)), Value::I64(i64::MAX));
    assert_eq!(value_of(ArithOp::Sub, Value::U128(0), Value::U128(1)), Value::U128(u128::MAX));
    assert_eq!(
        value_of(ArithOp::Sub, Value::I128(i128::MIN), Value::I128(1)),
        Value::I128(i128::MAX)
    );
    assert_eq!(value_of(ArithOp::Sub, Value::I16(10), Value::I16(25)), Value::I16(-15));
}

#[test]
fn multiplication_wraps_at_each_width() {
    assert_eq!(value_of(ArithOp::Mul, Value::U8(16), Value::U8(17)), Value::U8(16));
    assert_eq!(value_of(ArithOp::Mul, Value::I8(-128), Value::I8(-1)), Value::I8(-128));
    assert_eq!(value_of(ArithOp::Mul, Value::I16(300), Value::I16(300)), Value::I16(24464));
    assert_eq!(value_of(ArithOp::Mul, Value::U32(65536), Value::U32(65536)), Value::U32(0));
    assert_eq!(
        value_of(ArithOp::Mul, Value::I64(i64::MAX), Value::I64(2)),
        Value::I64(i64::MAX.wrapping_mul(2))
    );
    assert_eq!(
        value_of(ArithOp::Mul, Value::U128(u128::MAX), Value::U128(u128::MAX)),
        Value::U128(1)
    );
    assert_eq!(
        value_of(ArithOp::Mul, Value::I128(i128::MIN), Value::I128(3)),
        Value::I128(i128::MIN)
    );
    assert_eq!(value_of(ArithOp::Mul, Value::I32(-6), Value::I32(7)), Value::I32(-42));
}

#[test]
fn division_truncates_toward_zero() {
    assert_eq!(value_of(ArithOp::Div, Value::I32(-7), Value::I32(2)), Value::I32(-3));
    assert_eq!(value_of(ArithOp::Div, Value::I32(7), Value::I32(-2)), Value::I32(-3));
    assert_eq!(value_of(ArithOp::Div, Value::I32(-7), Value::I32(-2)), Value::I32(3));
    assert_eq!(value_of(ArithOp::Div, Value::I32(7), Value::I32(2)), Value::I32(3));
    assert_eq!(value_of(ArithOp::Div, Value::U8(255), Value::U8(16)), Value::U8(15));
    assert_eq!(value_of(ArithOp::Div, Value::I64(0), Value::I64(-5)), Value::I64(0));
    assert_eq!(
        value_of(ArithOp::Div, Value::U128(u128::MAX), Value::U128(2)),
        Value::U128(u128::MAX / 2)
    );
}

#[test]
fn division_of_the_least_by_minus_one_wraps() {
    assert_eq!(value_of(ArithOp::Div, Value::I8(i8::MIN), Value::I8(-1)), Value::I8(i8::MIN));
    assert_eq!(value_of(ArithOp::Div, Value::I16(i16::MIN), Value::I16(-1)), Value::I16(i16::MIN));
    assert_eq!(value_of(ArithOp::Div, Value::I32(i32::MIN), Value::I32(-1)), Value::I32(i32::MIN));
    assert_eq!(value_of(ArithOp::Div, Value::I64(i64::MIN), Value::I64(-1)), Value::I64(i64::MIN));
    assert_eq!(
        value_of(ArithOp::Div, Value::I128(i128::MIN), Value::I128(-1)),
        Value::I128(i128::MIN)
    );
}

#[test]
fn division_by_zero_faults_for_every_variant() {
    let pairs = vec![
        (Value::U8(9), Value::U8(0)),
        (Value::I8(-9), Value::I8(0)),
        (Value::U16(9), Value::U16(0)),
        (Value::I16(-9), Value::I16(0)),
        (Value::U32(9), Value::U32(0)),
        (Value::I32(-9), Value::I32(0)),
        (Value::U64(9), Value::U64(0)),
        (Value::I64(-9), Value::I64(0)),
        (Value::U128(9), Value::U128(0)),
        (Value::I128(-9), Value::I128(0)),
        (Value::I32(0), Value::I32(0)),
        (Value::F32(1.5f32.to_bits()), Value::F32(0.0f32.to_bits())),
        (Value::F32(1.5f32.to_bits()), Value::F32((-0.0f32).to_bits())),
        (Value::F64(1.5f64.to_bits()), Value::F64(0.0f64.to_bits())),
        (Value::F64(1.5f64.to_bits()), Value::F64((-0.0f64).to_bits())),
    ];
    for (lhs, rhs) in pairs {
        assert_eq!(arithmetic(ArithOp::Div, lhs, rhs), Err(ErrorKind::DivisionByZero));
    }
}

#[test]
fn add_between_u8_and_i8_is_a_type_mismatch() {
    for x in 0..=255u8 {
        for y in [i8::MIN, -1, 0, 1, i8::MAX] {
            assert_eq!(
                arithmetic(ArithOp::Add, Value::U8(x), Value::I8(y)),
                Err(ErrorKind::TypeMismatch)
            );
            assert_eq!(
                arithmetic(ArithOp::Add, Value::I8(y), Value::U8(x)),
                Err(ErrorKind::TypeMismatch)
            );
        }
    }
}

#[test]
fn arithmetic_on_mismatched_variants_faults() {
    let ops = [ArithOp::Add, ArithOp::Sub, ArithOp::Mul, ArithOp::Div];
    for op in ops {
        assert_eq!(arithmetic(op, Value::U16(1), Value::U32(1)), Err(ErrorKind::TypeMismatch));
        assert_eq!(arithmetic(op, Value::I64(1), Value::U64(1)), Err(ErrorKind::TypeMismatch));
        assert_eq!(
            arithmetic(op, Value::F32(0), Value::F64(0)),
            Err(ErrorKind::TypeMismatch)
        );
        assert_eq!(arithmetic(op, Value::Empty, Value::U8(0)), Err(ErrorKind::TypeMismatch));
        assert_eq!(arithmetic(op, Value::U8(0), Value::Empty), Err(ErrorKind::TypeMismatch));
    }
}

#[test]
fn arithmetic_on_empty_operands_faults() {
    let ops = [ArithOp::Add, ArithOp::Sub, ArithOp::Mul, ArithOp::Div];
    for op in ops {
        assert_eq!(arithmetic(op, Value::Empty, Value::Empty), Err(ErrorKind::TypeMismatch));
    }
}

#[test]
fn arithmetic_on_floats_is_deferred() {
    let lhs = Value::F32(1.5f32.to_bits());
    let rhs = Value::F32(2.25f32.to_bits());
    assert_eq!(
        arithmetic(ArithOp::Mul, lhs, rhs),
        Ok(Outcome::Deferred(FloatRequest { op: ArithOp::Mul, lhs, rhs }))
    );
    let lhs = Value::F64(1.5f64.to_bits());
    let rhs = Value::F64(f64::NAN.to_bits());
    assert_eq!(
        arithmetic(ArithOp::Div, lhs, rhs),
        Ok(Outcome::Deferred(FloatRequest { op: ArithOp::Div, lhs, rhs }))
    );
}

#[test]
fn is_zero_knows_both_float_zeros() {
    assert!(Value::U8(0).is_zero());
    assert!(Value::I128(0).is_zero());
    assert!(!Value::I128(-1).is_zero());
    assert!(Value::F32(0.0f32.to_bits()).is_zero());
    assert!(Value::F32((-0.0f32).to_bits()).is_zero());
    assert!(Value::F64(0.0f64.to_bits()).is_zero());
    assert!(Value::F64((-0.0f64).to_bits()).is_zero());
    assert!(!Value::F32(f32::MIN_POSITIVE.to_bits()).is_zero());
    assert!(!Value::F64(1.0f64.to_bits()).is_zero());
    assert!(!Value::Empty.is_zero());
}

#[test]
fn bitwise_operations_combine_bits() {
    assert_eq!(bitwise(BitOp::And, Value::U8(0b1100), Value::U8(0b1010)), Ok(Value::U8(0b1000)));
    assert_eq!(bitwise(BitOp::Or, Value::U8(0b1100), Value::U8(0b1010)), Ok(Value::U8(0b1110)));
    assert_eq!(bitwise(BitOp::Xor, Value::U8(0b1100), Value::U8(0b1010)), Ok(Value::U8(0b0110)));
    assert_eq!(bitwise(BitOp::And, Value::I16(-1), Value::I16(0x1234)), Ok(Value::I16(0x1234)));
    assert_eq!(bitwise(BitOp::Or, Value::I32(i32::MIN), Value::I32(1)), Ok(Value::I32(i32::MIN + 1)));
    assert_eq!(bitwise(BitOp::Xor, Value::I64(-1), Value::I64(0)), Ok(Value::I64(-1)));
    assert_eq!(
        bitwise(BitOp::Xor, Value::U128(u128::MAX), Value::U128(1)),
        Ok(Value::U128(u128::MAX - 1))
    );
    assert_eq!(bitwise(BitOp::And, Value::I128(-1), Value::I128(-2)), Ok(Value::I128(-2)));
    assert_eq!(bitwise(BitOp::Or, Value::U16(0xf0f0), Value::U16(0x0f0f)), Ok(Value::U16(0xffff)));
    assert_eq!(bitwise(BitOp::And, Value::U32(0xffff_0000), Value::U32(0x00ff_ff00)), Ok(Value::U32(0x00ff_0000)));
    assert_eq!(bitwise(BitOp::Xor, Value::U64(5), Value::U64(5)), Ok(Value::U64(0)));
    assert_eq!(bitwise(BitOp::Or, Value::I8(-128), Value::I8(127)), Ok(Value::I8(-1)));
}

#[test]
fn bitwise_operations_reject_other_operands() {
    let ops = [BitOp::And, BitOp::Or, BitOp::Xor];
    for op in ops {
        assert_eq!(bitwise(op, Value::U8(1), Value::I8(1)), Err(ErrorKind::TypeMismatch));
        assert_eq!(bitwise(op, Value::F32(1), Value::F32(1)), Err(ErrorKind::TypeMismatch));
        assert_eq!(bitwise(op, Value::F64(1), Value::F64(1)), Err(ErrorKind::TypeMismatch));
        assert_eq!(bitwise(op, Value::Empty, Value::Empty), Err(ErrorKind::TypeMismatch));
    }
}

#[test]
fn shifts_move_bits() {
    assert_eq!(shift(ShiftOp::Shl, Value::U8(1), Value::U8(3)), Ok(Value::U8(8)));
    assert_eq!(shift(ShiftOp::Shl, Value::U8(0xff), Value::U8(4)), Ok(Value::U8(0xf0)));
    assert_eq!(shift(ShiftOp::Shr, Value::U8(0xf0), Value::U8(4)), Ok(Value::U8(0x0f)));
    assert_eq!(shift(ShiftOp::Shr, Value::I8(-128), Value::U8(7)), Ok(Value::I8(-1)));
    assert_eq!(shift(ShiftOp::Shl, Value::I8(1), Value::U8(7)), Ok(Value::I8(-128)));
    assert_eq!(shift(ShiftOp::Shl, Value::U16(1), Value::U8(15)), Ok(Value::U16(0x8000)));
    assert_eq!(shift(ShiftOp::Shr, Value::I16(-2), Value::U8(1)), Ok(Value::I16(-1)));
    assert_eq!(shift(ShiftOp::Shl, Value::U32(3), Value::U8(31)), Ok(Value::U32(0x8000_0000)));
    assert_eq!(shift(ShiftOp::Shr, Value::I32(-1024), Value::U8(10)), Ok(Value::I32(-1)));
    assert_eq!(shift(ShiftOp::Shl, Value::U64(1), Value::U8(63)), Ok(Value::U64(1 << 63)));
    assert_eq!(shift(ShiftOp::Shr, Value::I64(i64::MIN), Value::U8(63)), Ok(Value::I64(-1)));
    assert_eq!(shift(ShiftOp::Shl, Value::U128(1), Value::U8(127)), Ok(Value::U128(1 << 127)));
    assert_eq!(shift(ShiftOp::Shr, Value::I128(i128::MIN), Value::U8(127)), Ok(Value::I128(-1)));
    assert_eq!(shift(ShiftOp::Shr, Value::U128(u128::MAX), Value::U8(127)), Ok(Value::U128(1)));
    assert_eq!(shift(ShiftOp::Shl, Value::I32(5), Value::U8(0)), Ok(Value::I32(5)));
}

#[test]
fn shift_amount_may_have_any_integer_variant() {
    let amounts = vec![
        Value::U8(2),
        Value::I8(2),
        Value::U16(2),
        Value::I16(2),
        Value::U32(2),
        Value::I32(2),
        Value::U64(2),
        Value::I64(2),
        Value::U128(2),
        Value::I128(2),
    ];
    for amount in amounts {
        assert_eq!(shift(ShiftOp::Shl, Value::U16(3), amount), Ok(Value::U16(12)));
        assert_eq!(shift(ShiftOp::Shr, Value::I64(-16), amount), Ok(Value::I64(-4)));
    }
}

#[test]
fn shift_by_the_width_or_more_overflows() {
    assert_eq!(shift(ShiftOp::Shl, Value::U8(1), Value::U8(8)), Err(ErrorKind::ShiftOverflow));
    assert_eq!(shift(ShiftOp::Shr, Value::I8(1), Value::U8(8)), Err(ErrorKind::ShiftOverflow));
    assert_eq!(shift(ShiftOp::Shl, Value::U16(1), Value::U8(16)), Err(ErrorKind::ShiftOverflow));
    assert_eq!(shift(ShiftOp::Shl, Value::I32(1), Value::U8(32)), Err(ErrorKind::ShiftOverflow));
    assert_eq!(shift(ShiftOp::Shl, Value::U64(1), Value::U8(64)), Err(ErrorKind::ShiftOverflow));
    assert_eq!(shift(ShiftOp::Shl, Value::U128(1), Value::U8(128)), Err(ErrorKind::ShiftOverflow));
    assert_eq!(
        shift(ShiftOp::Shr, Value::U128(1), Value::U128(u128::MAX)),
        Err(ErrorKind::ShiftOverflow)
    );
    assert_eq!(
        shift(ShiftOp::Shr, Value::U8(1), Value::U64(1 << 32)),
        Err(ErrorKind::ShiftOverflow)
    );
    assert_eq!(shift(ShiftOp::Shl, Value::U8(1), Value::U8(7)), Ok(Value::U8(128)));
}

#[test]
fn shift_by_a_negative_amount_overflows() {
    assert_eq!(shift(ShiftOp::Shl, Value::U8(1), Value::I8(-1)), Err(ErrorKind::ShiftOverflow));
    assert_eq!(shift(ShiftOp::Shr, Value::I64(1), Value::I16(-3)), Err(ErrorKind::ShiftOverflow));
    assert_eq!(
        shift(ShiftOp::Shr, Value::I64(1), Value::I128(i128::MIN)),
        Err(ErrorKind::ShiftOverflow)
    );
    assert_eq!(shift(ShiftOp::Shl, Value::U32(1), Value::I32(-32)), Err(ErrorKind::ShiftOverflow));
    assert_eq!(shift(ShiftOp::Shl, Value::U32(1), Value::I64(-1)), Err(ErrorKind::ShiftOverflow));
}

#[test]
fn shift_rejects_operands_that_are_no_integers() {
    assert_eq!(shift(ShiftOp::Shl, Value::F32(1), Value::U8(1)), Err(ErrorKind::TypeMismatch));
    assert_eq!(shift(ShiftOp::Shl, Value::F64(1), Value::U8(1)), Err(ErrorKind::TypeMismatch));
    assert_eq!(shift(ShiftOp::Shl, Value::Empty, Value::U8(1)), Err(ErrorKind::TypeMismatch));
    assert_eq!(shift(ShiftOp::Shr, Value::U8(1), Value::F32(1)), Err(ErrorKind::TypeMismatch));
    assert_eq!(shift(ShiftOp::Shr, Value::U8(1), Value::F64(1)), Err(ErrorKind::TypeMismatch));
    assert_eq!(shift(ShiftOp::Shr, Value::U8(1), Value::Empty), Err(ErrorKind::TypeMismatch));
    assert_eq!(shift(ShiftOp::Shr, Value::Empty, Value::U8(200)), Err(ErrorKind::TypeMismatch));
}

#[test]
fn compare_orders_integers() {
    assert_eq!(compare(Value::U8(3), Value::U8(3)), Ok(Flags { eq: true, gt: false }));
    assert_eq!(compare(Value::U8(4), Value::U8(3)), Ok(Flags { eq: false, gt: true }));
    assert_eq!(compare(Value::U8(3), Value::U8(4)), Ok(Flags { eq: false, gt: false }));
    assert_eq!(compare(Value::I8(-1), Value::I8(1)), Ok(Flags { eq: false, gt: false }));
    assert_eq!(compare(Value::I8(1), Value::I8(-1)), Ok(Flags { eq: false, gt: true }));
    assert_eq!(compare(Value::I64(i64::MIN), Value::I64(i64::MAX)), Ok(Flags { eq: false, gt: false }));
    assert_eq!(compare(Value::U128(u128::MAX), Value::U128(0)), Ok(Flags { eq: false, gt: true }));
    assert_eq!(compare(Value::I128(-5), Value::I128(-5)), Ok(Flags { eq: true, gt: false }));
    assert_eq!(compare(Value::I16(7), Value::I16(-7)), Ok(Flags { eq: false, gt: true }));
    assert_eq!(compare(Value::U16(7), Value::U16(7)), Ok(Flags { eq: true, gt: false }));
    assert_eq!(compare(Value::U32(8), Value::U32(7)), Ok(Flags { eq: false, gt: true }));
    assert_eq!(compare(Value::I32(-8), Value::I32(-7)), Ok(Flags { eq: false, gt: false }));
    assert_eq!(compare(Value::U64(1), Value::U64(0)), Ok(Flags { eq: false, gt: true }));
}

#[test]
fn compare_of_empty_values_is_equal() {
    assert_eq!(compare(Value::Empty, Value::Empty), Ok(Flags { eq: true, gt: false }));
}

#[test]
fn compare_rejects_mismatched_variants() {
    assert_eq!(compare(Value::U8(1), Value::I8(1)), Err(ErrorKind::TypeMismatch));
    assert_eq!(compare(Value::U8(1), Value::U16(1)), Err(ErrorKind::TypeMismatch));
    assert_eq!(compare(Value::F32(0), Value::F64(0)), Err(ErrorKind::TypeMismatch));
    assert_eq!(compare(Value::Empty, Value::U8(0)), Err(ErrorKind::TypeMismatch));
    assert_eq!(compare(Value::F32(0), Value::U32(0)), Err(ErrorKind::TypeMismatch));
}

#[test]
fn compare_orders_f32_as_the_floats_are_ordered() {
    let samples: Vec<f32> = vec![
        0.0,
        -0.0,
        1.0,
        -1.0,
        1.5,
        -1.5,
        f32::MIN_POSITIVE,
        -f32::MIN_POSITIVE,
        f32::from_bits(1),
        f32::from_bits(0x8000_0001),
        f32::MAX,
        f32::MIN,
        f32::INFINITY,
        f32::NEG_INFINITY,
        f32::NAN,
        f32::from_bits(0xffc0_0000),
        f32::from_bits(0x7f80_0001),
        f32::EPSILON,
        3.25e10,
        -7.5e-20,
    ];
    for a in samples.iter() {
        for b in samples.iter() {
            let got = compare(Value::F32(a.to_bits()), Value::F32(b.to_bits()));
            assert_eq!(got, Ok(Flags { eq: a == b, gt: a > b }), "{:?} against {:?}", a, b);
        }
    }
}

#[test]
fn compare_orders_f64_as_the_floats_are_ordered() {
    let samples: Vec<f64> = vec![
        0.0,
        -0.0,
        1.0,
        -1.0,
        1.5,
        -1.5,
        f64::MIN_POSITIVE,
        -f64::MIN_POSITIVE,
        f64::from_bits(1),
        f64::from_bits(0x8000_0000_0000_0001),
        f64::MAX,
        f64::MIN,
        f64::INFINITY,
        f64::NEG_INFINITY,
        f64::NAN,
        f64::from_bits(0xfff8_0000_0000_0000),
        f64::from_bits(0x7ff0_0000_0000_0001),
        f64::EPSILON,
        3.25e100,
        -7.5e-200,
    ];
    for a in samples.iter() {
        for b in samples.iter() {
            let got = compare(Value::F64(a.to_bits()), Value::F64(b.to_bits()));
            assert_eq!(got, Ok(Flags { eq: a == b, gt: a > b }), "{:?} against {:?}", a, b);
        }
    }
}

#[test]
fn a_nan_is_not_equal_to_itself() {
    let nan = Value::F32(f32::NAN.to_bits());
    assert_eq!(compare(nan, nan), Ok(Flags { eq: false, gt: false }));
    let nan = Value::F64(f64::NAN.to_bits());
    assert_eq!(compare(nan, nan), Ok(Flags { eq: false, gt: false }));
}

#[test]
fn address_takes_integers_that_fit() {
    assert_eq!(Value::U8(200).address(), Ok(200));
    assert_eq!(Value::I8(100).address(), Ok(100));
    assert_eq!(Value::U16(65535).address(), Ok(65535));
    assert_eq!(Value::I16(300).address(), Ok(300));
    assert_eq!(Value::U32(70000).address(), Ok(70000));
    assert_eq!(Value::I32(70000).address(), Ok(70000));
    assert_eq!(Value::U64(12).address(), Ok(12));
    assert_eq!(Value::I64(12).address(), Ok(12));
    assert_eq!(Value::U128(12).address(), Ok(12));
    assert_eq!(Value::I128(12).address(), Ok(12));
    assert_eq!(Value::U64(usize::MAX as u64).address(), Ok(usize::MAX));
    assert_eq!(Value::U128(usize::MAX as u128).address(), Ok(usize::MAX));
    assert_eq!(Value::I128(0).address(), Ok(0));
}

#[test]
fn address_rejects_what_is_no_address() {
    assert_eq!(Value::I8(-1).address(), Err(ErrorKind::TypeMismatch));
    assert_eq!(Value::I16(-1).address(), Err(ErrorKind::TypeMismatch));
    assert_eq!(Value::I32(-1).address(), Err(ErrorKind::TypeMismatch));
    assert_eq!(Value::I64(-1).address(), Err(ErrorKind::TypeMismatch));
    assert_eq!(Value::I128(-1).address(), Err(ErrorKind::TypeMismatch));
    assert_eq!(Value::U128(usize::MAX as u128 + 1).address(), Err(ErrorKind::TypeMismatch));
    assert_eq!(Value::I128(usize::MAX as i128 + 1).address(), Err(ErrorKind::TypeMismatch));
    assert_eq!(Value::F32(4).address(), Err(ErrorKind::TypeMismatch));
    assert_eq!(Value::F64(4).address(), Err(ErrorKind::TypeMismatch));
    assert_eq!(Value::Empty.address(), Err(ErrorKind::TypeMismatch));
}

#[test]
fn a_left_shift_multiplies_and_wraps() {
    let samples: Vec<i64> = vec![0, 1, -1, 5, -5, 12345, -98765, i64::MAX, i64::MIN, 1 << 40];
    for x in samples.iter() {
        for k in 0..64u32 {
            let power = 1i64.wrapping_shl(k);
            assert_eq!(
                shift(ShiftOp::Shl, Value::I64(*x), Value::U32(k)),
                Ok(Value::I64(x.wrapping_mul(power)))
            );
            assert_eq!(
                shift(ShiftOp::Shl, Value::U64(*x as u64), Value::U32(k)),
                Ok(Value::U64((*x as u64).wrapping_mul(power as u64)))
            );
        }
    }
}

#[test]
fn a_right_shift_divides_and_rounds_down() {
    let samples: Vec<i64> = vec![0, 1, -1, 5, -5, 12345, -98765, i64::MAX, i64::MIN, 1 << 40];
    for x in samples.iter() {
        for k in 0..63u32 {
            let power = 1i64 << k;
            assert_eq!(
                shift(ShiftOp::Shr, Value::I64(*x), Value::U32(k)),
                Ok(Value::I64(x.div_euclid(power)))
            );
            assert_eq!(
                shift(ShiftOp::Shr, Value::U64(*x as u64), Value::U32(k)),
                Ok(Value::U64((*x as u64) / (power as u64)))
            );
        }
    }
    assert_eq!(shift(ShiftOp::Shr, Value::I64(-1), Value::U32(63)), Ok(Value::I64(-1)));
    assert_eq!(shift(ShiftOp::Shr, Value::I64(i64::MAX), Value::U32(63)), Ok(Value::I64(0)));
}

#[test]
fn bitwise_operations_combine_bit_with_bit() {
    let samples: Vec<i32> = vec![0, -1, 1, 0x1234_5678, -0x1234_5678, i32::MIN, i32::MAX];
    for a in samples.iter() {
        for b in samples.iter() {
            let and = bitwise(BitOp::And, Value::I32(*a), Value::I32(*b)).unwrap();
            let or = bitwise(BitOp::Or, Value::I32(*a), Value::I32(*b)).unwrap();
            let xor = bitwise(BitOp::Xor, Value::I32(*a), Value::I32(*b)).unwrap();
            for i in 0..32u32 {
                let bit = |n: i32| (n as i64).div_euclid(1i64 << i).rem_euclid(2) == 1;
                let of = |v: Value| match v {
                    Value::I32(n) => bit(n),
                    other => panic!("not an i32: {:?}", other),
                };
                assert_eq!(of(and), bit(*a) && bit(*b));
                assert_eq!(of(or), bit(*a) || bit(*b));
                assert_eq!(of(xor), bit(*a) != bit(*b));
            }
        }
    }
}
