//! Machine values: a closed tagged union over the integer widths 8 to 128,
//! signed and unsigned, the two float widths, and an empty variant.
//!
//! A float is carried as its IEEE-754 bit pattern, so a value is always a
//! tag and an integer. The core moves, stores and compares floats; it never
//! rounds one.
use vstd::prelude::*;
use crate::error::ErrorKind;

verus! {

/// The variant a [`Value`] carries, without its payload.
#[derive(Clone, Copy, Debug, PartialEq, Eq, Structural)]
pub enum Kind {
    Empty,
    U8,
    I8,
    U16,
    I16,
    U32,
    I32,
    U64,
    I64,
    U128,
    I128,
    F32,
    F64,
}

/// A machine value. `F32` and `F64` hold the bit pattern of the float.
///
/// `==` on values is equality of tag and payload. The ordering that the
/// compare instruction uses is [`crate::compare::compare`], which treats
/// floats as IEEE-754 does.
#[derive(Clone, Copy, Debug, PartialEq, Eq, Structural)]
pub enum Value {
    /// No value: the default, and distinct from every number.
    Empty,
    U8(u8),
    I8(i8),
    U16(u16),
    I16(i16),
    U32(u32),
    I32(i32),
    U64(u64),
    I64(i64),
    U128(u128),
    I128(i128),
    F32(u32),
    F64(u64),
}

impl Kind {
    /// Width of the payload in bits; zero for `Empty`.
    pub open spec fn bits(self) -> nat {
        match self {
            Kind::Empty => 0,
            Kind::U8 | Kind::I8 => 8,
            Kind::U16 | Kind::I16 => 16,
            Kind::U32 | Kind::I32 | Kind::F32 => 32,
            Kind::U64 | Kind::I64 | Kind::F64 => 64,
            Kind::U128 | Kind::I128 => 128,
        }
    }

    /// Two to the power [`Kind::bits`].
    pub open spec fn modulus(self) -> int {
        match self {
            Kind::Empty => 1,
            Kind::U8 | Kind::I8 => 0x100,
            Kind::U16 | Kind::I16 => 0x1_0000,
            Kind::U32 | Kind::I32 | Kind::F32 => 0x1_0000_0000,
            Kind::U64 | Kind::I64 | Kind::F64 => 0x1_0000_0000_0000_0000,
            Kind::U128 | Kind::I128 => 0x1_0000_0000_0000_0000_0000_0000_0000_0000int,
        }
    }

    pub open spec fn is_signed(self) -> bool {
        self == Kind::I8 || self == Kind::I16 || self == Kind::I32 || self == Kind::I64 || self
            == Kind::I128
    }

    pub open spec fn is_float(self) -> bool {
        self == Kind::F32 || self == Kind::F64
    }

    pub open spec fn is_integer(self) -> bool {
        self != Kind::Empty && !self.is_float()
    }

    /// Least payload of this kind.
    pub open spec fn min(self) -> int {
        if self.is_signed() {
            -(self.modulus() / 2)
        } else {
            0
        }
    }

    /// Greatest payload of this kind.
    pub open spec fn max(self) -> int {
        if self.is_signed() {
            self.modulus() / 2 - 1
        } else {
            self.modulus() - 1
        }
    }

    /// The least natural number congruent to `n` modulo [`Kind::modulus`].
    /// Each modulus is written out, so that the solver divides by a
    /// numeral.
    pub open spec fn residue(self, n: int) -> int {
        match self {
            Kind::Empty => 0,
            Kind::U8 | Kind::I8 => n % 0x100,
            Kind::U16 | Kind::I16 => n % 0x1_0000,
            Kind::U32 | Kind::I32 | Kind::F32 => n % 0x1_0000_0000,
            Kind::U64 | Kind::I64 | Kind::F64 => n % 0x1_0000_0000_0000_0000,
            Kind::U128 | Kind::I128 => n % 0x1_0000_0000_0000_0000_0000_0000_0000_0000int,
        }
    }

    /// The payload of this kind that is congruent to `n` modulo
    /// [`Kind::modulus`]: what two's-complement wraparound makes of `n`.
    pub open spec fn wrap(self, n: int) -> int {
        let r = self.residue(n);
        if r > self.max() {
            r - self.modulus()
        } else {
            r
        }
    }
}

impl Value {
    /// The variant of this value.
    pub open spec fn spec_kind(&self) -> Kind {
        match *self {
            Value::Empty => Kind::Empty,
            Value::U8(_) => Kind::U8,
            Value::I8(_) => Kind::I8,
            Value::U16(_) => Kind::U16,
            Value::I16(_) => Kind::I16,
            Value::U32(_) => Kind::U32,
            Value::I32(_) => Kind::I32,
            Value::U64(_) => Kind::U64,
            Value::I64(_) => Kind::I64,
            Value::U128(_) => Kind::U128,
            Value::I128(_) => Kind::I128,
            Value::F32(_) => Kind::F32,
            Value::F64(_) => Kind::F64,
        }
    }

    /// The payload as a mathematical integer: the number itself for an
    /// integer variant, the bit pattern for a float, zero for `Empty`.
    pub open spec fn payload(self) -> int {
        match self {
            Value::Empty => 0,
            Value::U8(x) => x as int,
            Value::I8(x) => x as int,
            Value::U16(x) => x as int,
            Value::I16(x) => x as int,
            Value::U32(x) => x as int,
            Value::I32(x) => x as int,
            Value::U64(x) => x as int,
            Value::I64(x) => x as int,
            Value::U128(x) => x as int,
            Value::I128(x) => x as int,
            Value::F32(x) => x as int,
            Value::F64(x) => x as int,
        }
    }

    /// The value of kind `kind` whose payload is `n`. Meaningful for
    /// `kind.min() <= n <= kind.max()`.
    pub open spec fn of(kind: Kind, n: int) -> Value {
        match kind {
            Kind::Empty => Value::Empty,
            Kind::U8 => Value::U8(n as u8),
            Kind::I8 => Value::I8(n as i8),
            Kind::U16 => Value::U16(n as u16),
            Kind::I16 => Value::I16(n as i16),
            Kind::U32 => Value::U32(n as u32),
            Kind::I32 => Value::I32(n as i32),
            Kind::U64 => Value::U64(n as u64),
            Kind::I64 => Value::I64(n as i64),
            Kind::U128 => Value::U128(n as u128),
            Kind::I128 => Value::I128(n as i128),
            Kind::F32 => Value::F32(n as u32),
            Kind::F64 => Value::F64(n as u64),
        }
    }

    /// The variant of this value.
    #[verifier::when_used_as_spec(spec_kind)]
    pub fn kind(&self) -> (k: Kind)
        ensures
            k == self.spec_kind(),
    {
        match self {
            Value::Empty => Kind::Empty,
            Value::U8(_) => Kind::U8,
            Value::I8(_) => Kind::I8,
            Value::U16(_) => Kind::U16,
            Value::I16(_) => Kind::I16,
            Value::U32(_) => Kind::U32,
            Value::I32(_) => Kind::I32,
            Value::U64(_) => Kind::U64,
            Value::I64(_) => Kind::I64,
            Value::U128(_) => Kind::U128,
            Value::I128(_) => Kind::I128,
            Value::F32(_) => Kind::F32,
            Value::F64(_) => Kind::F64,
        }
    }

    /// The address this value denotes: the number itself, where the value
    /// is an integer that is not negative and fits an address. Any other
    /// value is a `TypeMismatch`.
    pub open spec fn spec_address(&self) -> Result<usize, ErrorKind> {
        if self.kind().is_integer() && 0 <= self.payload() <= usize::MAX {
            Ok(self.payload() as usize)
        } else {
            Err(ErrorKind::TypeMismatch)
        }
    }

    /// The address this value denotes, or `TypeMismatch` where it denotes
    /// none.
    #[verifier::when_used_as_spec(spec_address)]
    pub fn address(&self) -> (r: Result<usize, ErrorKind>)
        ensures
            r == self.spec_address(),
    {
        match *self {
            Value::U8(x) => Ok(x as usize),
            Value::U16(x) => Ok(x as usize),
            Value::U32(x) => Ok(x as usize),
            Value::U64(x) => if x <= usize::MAX as u64 {
                Ok(x as usize)
            } else {
                Err(ErrorKind::TypeMismatch)
            },
            Value::U128(x) => if x <= usize::MAX as u128 {
                Ok(x as usize)
            } else {
                Err(ErrorKind::TypeMismatch)
            },
            Value::I8(x) => if x >= 0 {
                Ok(x as usize)
            } else {
                Err(ErrorKind::TypeMismatch)
            },
            Value::I16(x) => if x >= 0 {
                Ok(x as usize)
            } else {
                Err(ErrorKind::TypeMismatch)
            },
            Value::I32(x) => if x >= 0 {
                Ok(x as usize)
            } else {
                Err(ErrorKind::TypeMismatch)
            },
            Value::I64(x) => if x >= 0 && x as u64 <= usize::MAX as u64 {
                Ok(x as usize)
            } else {
                Err(ErrorKind::TypeMismatch)
            },
            Value::I128(x) => if x >= 0 && x as u128 <= usize::MAX as u128 {
                Ok(x as usize)
            } else {
                Err(ErrorKind::TypeMismatch)
            },
            _ => Err(ErrorKind::TypeMismatch),
        }
    }

    /// Every value is its kind and its payload, and the payload is in the
    /// kind's range.
    pub proof fn lemma_of_kind_payload(self)
        ensures
            Value::of(self.kind(), self.payload()) == self,
            self.kind().min() <= self.payload() <= self.kind().max(),
    {
    }
}

impl Kind {
    /// Wrapping lands in the kind's range and leaves alone what is already
    /// there; the residue it is built on is the remainder by the modulus.
    pub proof fn lemma_wrap(self, n: int)
        ensures
            self.residue(n) == n % self.modulus(),
            self.min() <= self.wrap(n) <= self.max(),
            self.min() <= n <= self.max() ==> self.wrap(n) == n,
    {
    }
}

impl Default for Value {
    /// The default value is `Empty`.
    fn default() -> (v: Value)
        ensures
            v == Value::Empty,
    {
        Value::Empty
    }
}

} // verus!
