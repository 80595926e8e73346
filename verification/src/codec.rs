//! The byte encoding of programs.
//!
//! An instruction is one opcode byte followed by its operands in order. A
//! register or an address is a word: eight bytes, little-endian. A value
//! is one tag byte for its variant followed by its payload, little-endian,
//! in as many bytes as the variant is wide; a signed payload is in two's
//! complement and a float is its bit pattern.
use vstd::prelude::*;
use crate::bytes::{
    le_bytes,
    le_value,
    lemma_le_bytes_len,
    lemma_le_bytes_of_value,
    lemma_le_value_bound,
    lemma_le_value_of_bytes,
    lemma_radix_values,
    read_le,
    write_le,
};
use crate::instruction::{Address, Instruction, Reg};
use crate::value::{Kind, Value};

verus! {

/// Why no instruction could be decoded.
#[derive(Clone, Copy, Debug, PartialEq, Eq, Structural)]
pub enum DecodeError {
    /// The address is at or beyond the end of the program.
    EndOfProgram,
    /// The opcode byte names no instruction.
    UnknownOpcode,
    /// The tag byte of a value names no variant.
    UnknownTag,
    /// The program ends in the middle of the instruction.
    Truncated,
    /// A register or an address is too large for this machine's words.
    Oversized,
}

/// The number of bytes in a word.
pub const WORD: usize = 8;

impl Kind {
    /// The byte that introduces a value of this kind.
    pub open spec fn tag(self) -> u8 {
        match self {
            Kind::Empty => 0,
            Kind::U8 => 1,
            Kind::I8 => 2,
            Kind::U16 => 3,
            Kind::I16 => 4,
            Kind::U32 => 5,
            Kind::I32 => 6,
            Kind::U64 => 7,
            Kind::I64 => 8,
            Kind::U128 => 9,
            Kind::I128 => 10,
            Kind::F32 => 11,
            Kind::F64 => 12,
        }
    }

    /// The kind that `tag` introduces, if any.
    pub open spec fn of_tag(tag: u8) -> Option<Kind> {
        match tag {
            0 => Some(Kind::Empty),
            1 => Some(Kind::U8),
            2 => Some(Kind::I8),
            3 => Some(Kind::U16),
            4 => Some(Kind::I16),
            5 => Some(Kind::U32),
            6 => Some(Kind::I32),
            7 => Some(Kind::U64),
            8 => Some(Kind::I64),
            9 => Some(Kind::U128),
            10 => Some(Kind::I128),
            11 => Some(Kind::F32),
            12 => Some(Kind::F64),
            _ => None,
        }
    }

    /// The number of payload bytes of a value of this kind.
    pub open spec fn width(self) -> nat {
        self.bits() / 8
    }
}

// Encoding.

/// The bytes of the word `w`.
pub open spec fn word_bytes(w: usize) -> Seq<u8> {
    le_bytes(w as nat, WORD as nat)
}

/// The bytes of the value `v`.
pub open spec fn value_bytes(v: Value) -> Seq<u8> {
    seq![v.kind().tag()] + le_bytes(v.kind().residue(v.payload()) as nat, v.kind().width())
}

/// The opcode of `instr`.
pub open spec fn opcode(instr: Instruction) -> u8 {
    match instr {
        Instruction::Nop => 0,
        Instruction::Mov(_, _) => 1,
        Instruction::Movr(_, _) => 2,
        Instruction::Jmp(_) => 3,
        Instruction::Je(_) => 4,
        Instruction::Jne(_) => 5,
        Instruction::Jg(_) => 6,
        Instruction::Jl(_) => 7,
        Instruction::Cmp(_, _) => 8,
        Instruction::Printr(_) => 9,
        Instruction::Printv(_) => 10,
        Instruction::Vstore(_, _) => 11,
        Instruction::Vload(_) => 12,
        Instruction::Vstorer(_, _) => 13,
        Instruction::Vloadr(_, _) => 14,
        Instruction::Add(_, _) => 15,
        Instruction::Sub(_, _) => 16,
        Instruction::Mul(_, _) => 17,
        Instruction::Div(_, _) => 18,
        Instruction::And(_, _) => 19,
        Instruction::Or(_, _) => 20,
        Instruction::Xor(_, _) => 21,
        Instruction::Shr(_, _) => 22,
        Instruction::Shl(_, _) => 23,
        Instruction::Vpush(_) => 24,
        Instruction::Vpushr(_) => 25,
        Instruction::Vpop(_) => 26,
        Instruction::Call(_) => 27,
        Instruction::Ret => 28,
        Instruction::Abort => 29,
    }
}

/// The bytes of the operands of `instr`.
pub open spec fn operand_bytes(instr: Instruction) -> Seq<u8> {
    match instr {
        Instruction::Nop | Instruction::Ret | Instruction::Abort => Seq::empty(),
        Instruction::Jmp(w)
        | Instruction::Je(w)
        | Instruction::Jne(w)
        | Instruction::Jg(w)
        | Instruction::Jl(w)
        | Instruction::Printr(w)
        | Instruction::Printv(w)
        | Instruction::Vload(w)
        | Instruction::Vpushr(w)
        | Instruction::Vpop(w)
        | Instruction::Call(w) => word_bytes(w),
        Instruction::Movr(a, b)
        | Instruction::Cmp(a, b)
        | Instruction::Vstorer(a, b)
        | Instruction::Vloadr(a, b)
        | Instruction::Add(a, b)
        | Instruction::Sub(a, b)
        | Instruction::Mul(a, b)
        | Instruction::Div(a, b)
        | Instruction::And(a, b)
        | Instruction::Or(a, b)
        | Instruction::Xor(a, b) => word_bytes(a) + word_bytes(b),
        Instruction::Mov(w, v)
        | Instruction::Vstore(w, v)
        | Instruction::Shr(w, v)
        | Instruction::Shl(w, v) => word_bytes(w) + value_bytes(v),
        Instruction::Vpush(v) => value_bytes(v),
    }
}

/// The bytes of `instr`: its opcode, then its operands.
pub open spec fn encoding(instr: Instruction) -> Seq<u8> {
    seq![opcode(instr)] + operand_bytes(instr)
}

/// The bytes of a sequence of instructions, one after the other.
pub open spec fn assembly(instrs: Seq<Instruction>) -> Seq<u8>
    decreases instrs.len(),
{
    if instrs.len() == 0 {
        Seq::empty()
    } else {
        assembly(instrs.drop_last()) + encoding(instrs.last())
    }
}

// Decoding.

/// The word at `at`, and the position after it.
pub open spec fn word_at(program: Seq<u8>, at: int) -> Result<(usize, int), DecodeError> {
    if at + WORD > program.len() {
        Err(DecodeError::Truncated)
    } else {
        let n = le_value(program.subrange(at, at + WORD));
        if n > usize::MAX {
            Err(DecodeError::Oversized)
        } else {
            Ok((n as usize, at + WORD))
        }
    }
}

/// The value at `at`, and the position after it.
pub open spec fn value_at(program: Seq<u8>, at: int) -> Result<(Value, int), DecodeError> {
    if at >= program.len() {
        Err(DecodeError::Truncated)
    } else {
        match Kind::of_tag(program[at]) {
            None => Err(DecodeError::UnknownTag),
            Some(kind) => {
                let end = at + 1 + kind.width();
                if end > program.len() {
                    Err(DecodeError::Truncated)
                } else {
                    let n = le_value(program.subrange(at + 1, end));
                    Ok((Value::of(kind, kind.wrap(n as int)), end))
                }
            },
        }
    }
}

/// An instruction with one word for its operand.
pub open spec fn with_word(program: Seq<u8>, at: int, make: spec_fn(usize) -> Instruction)
    -> Result<(Instruction, int), DecodeError> {
    match word_at(program, at) {
        Ok((w, end)) => Ok((make(w), end)),
        Err(e) => Err(e),
    }
}

/// An instruction with two words for its operands.
pub open spec fn with_words(
    program: Seq<u8>,
    at: int,
    make: spec_fn(usize, usize) -> Instruction,
) -> Result<(Instruction, int), DecodeError> {
    match word_at(program, at) {
        Ok((a, mid)) => match word_at(program, mid) {
            Ok((b, end)) => Ok((make(a, b), end)),
            Err(e) => Err(e),
        },
        Err(e) => Err(e),
    }
}

/// An instruction with a word and a value for its operands.
pub open spec fn with_word_value(
    program: Seq<u8>,
    at: int,
    make: spec_fn(usize, Value) -> Instruction,
) -> Result<(Instruction, int), DecodeError> {
    match word_at(program, at) {
        Ok((w, mid)) => match value_at(program, mid) {
            Ok((v, end)) => Ok((make(w, v), end)),
            Err(e) => Err(e),
        },
        Err(e) => Err(e),
    }
}

/// An instruction with one value for its operand.
pub open spec fn with_value(program: Seq<u8>, at: int, make: spec_fn(Value) -> Instruction)
    -> Result<(Instruction, int), DecodeError> {
    match value_at(program, at) {
        Ok((v, end)) => Ok((make(v), end)),
        Err(e) => Err(e),
    }
}

/// The instruction whose opcode is `code` and whose operands start at
/// `at`, and the position after it.
pub open spec fn instruction_at(program: Seq<u8>, code: u8, at: int) -> Result<
    (Instruction, int),
    DecodeError,
> {
    match code {
        0 => Ok((Instruction::Nop, at)),
        1 => with_word_value(program, at, |r: Reg, v: Value| Instruction::Mov(r, v)),
        2 => with_words(program, at, |a: Reg, b: Reg| Instruction::Movr(a, b)),
        3 => with_word(program, at, |r: Reg| Instruction::Jmp(r)),
        4 => with_word(program, at, |r: Reg| Instruction::Je(r)),
        5 => with_word(program, at, |r: Reg| Instruction::Jne(r)),
        6 => with_word(program, at, |r: Reg| Instruction::Jg(r)),
        7 => with_word(program, at, |r: Reg| Instruction::Jl(r)),
        8 => with_words(program, at, |a: Reg, b: Reg| Instruction::Cmp(a, b)),
        9 => with_word(program, at, |r: Reg| Instruction::Printr(r)),
        10 => with_word(program, at, |a: Address| Instruction::Printv(a)),
        11 => with_word_value(program, at, |a: Address, v: Value| Instruction::Vstore(a, v)),
        12 => with_word(program, at, |a: Address| Instruction::Vload(a)),
        13 => with_words(program, at, |a: Address, r: Reg| Instruction::Vstorer(a, r)),
        14 => with_words(program, at, |r: Reg, a: Address| Instruction::Vloadr(r, a)),
        15 => with_words(program, at, |a: Reg, b: Reg| Instruction::Add(a, b)),
        16 => with_words(program, at, |a: Reg, b: Reg| Instruction::Sub(a, b)),
        17 => with_words(program, at, |a: Reg, b: Reg| Instruction::Mul(a, b)),
        18 => with_words(program, at, |a: Reg, b: Reg| Instruction::Div(a, b)),
        19 => with_words(program, at, |a: Reg, b: Reg| Instruction::And(a, b)),
        20 => with_words(program, at, |a: Reg, b: Reg| Instruction::Or(a, b)),
        21 => with_words(program, at, |a: Reg, b: Reg| Instruction::Xor(a, b)),
        22 => with_word_value(program, at, |r: Reg, v: Value| Instruction::Shr(r, v)),
        23 => with_word_value(program, at, |r: Reg, v: Value| Instruction::Shl(r, v)),
        24 => with_value(program, at, |v: Value| Instruction::Vpush(v)),
        25 => with_word(program, at, |r: Reg| Instruction::Vpushr(r)),
        26 => with_word(program, at, |r: Reg| Instruction::Vpop(r)),
        27 => with_word(program, at, |r: Reg| Instruction::Call(r)),
        28 => Ok((Instruction::Ret, at)),
        29 => Ok((Instruction::Abort, at)),
        _ => Err(DecodeError::UnknownOpcode),
    }
}

/// The instruction at `ip` in `program`, and the address of the one that
/// follows it.
pub open spec fn spec_decode_next(program: Seq<u8>, ip: Address) -> Result<
    (Instruction, Address),
    DecodeError,
> {
    if ip >= program.len() {
        Err(DecodeError::EndOfProgram)
    } else {
        match instruction_at(program, program[ip as int], ip + 1) {
            Ok((instr, end)) => Ok((instr, end as usize)),
            Err(e) => Err(e),
        }
    }
}

// The decoder.

/// Reads the word at `at`.
fn take_word(program: &Vec<u8>, at: usize) -> (r: Result<(usize, usize), DecodeError>)
    requires
        at <= program.len(),
    ensures
        match word_at(program@, at as int) {
            Ok((w, end)) => r == Ok::<(usize, usize), DecodeError>((w, end as usize)) && end
                <= program.len(),
            Err(e) => r == Err::<(usize, usize), DecodeError>(e),
        },
{
    if program.len() - at < WORD {
        return Err(DecodeError::Truncated);
    }
    let n = read_le(program, at, WORD);
    if n > usize::MAX as u128 {
        return Err(DecodeError::Oversized);
    }
    Ok((n as usize, at + WORD))
}

/// The number of payload bytes that follow the tag byte `tag`.
fn width_of_tag(tag: u8) -> (r: Option<usize>)
    ensures
        match Kind::of_tag(tag) {
            Some(kind) => r == Some(kind.width() as usize),
            None => r is None,
        },
{
    match tag {
        0 => Some(0),
        1 | 2 => Some(1),
        3 | 4 => Some(2),
        5 | 6 | 11 => Some(4),
        7 | 8 | 12 => Some(8),
        9 | 10 => Some(16),
        _ => None,
    }
}

/// The value with the tag `tag` and the payload bytes that spell `n`.
fn value_of_parts(tag: u8, n: u128) -> (v: Value)
    requires
        Kind::of_tag(tag) is Some,
        n < Kind::of_tag(tag)->Some_0.modulus(),
    ensures
        v == Value::of(Kind::of_tag(tag)->Some_0, Kind::of_tag(tag)->Some_0.wrap(n as int)),
{
    match tag {
        0 => Value::Empty,
        1 => Value::U8(n as u8),
        2 => Value::I8(
            if n >= 0x80 {
                (n as i16 - 0x100) as i8
            } else {
                n as i8
            },
        ),
        3 => Value::U16(n as u16),
        4 => Value::I16(
            if n >= 0x8000 {
                (n as i32 - 0x1_0000) as i16
            } else {
                n as i16
            },
        ),
        5 => Value::U32(n as u32),
        6 => Value::I32(
            if n >= 0x8000_0000 {
                (n as i64 - 0x1_0000_0000) as i32
            } else {
                n as i32
            },
        ),
        7 => Value::U64(n as u64),
        8 => Value::I64(
            if n >= 0x8000_0000_0000_0000 {
                (n as i128 - 0x1_0000_0000_0000_0000) as i64
            } else {
                n as i64
            },
        ),
        9 => Value::U128(n),
        10 => Value::I128(
            if n >= 0x8000_0000_0000_0000_0000_0000_0000_0000 {
                (n - 0x8000_0000_0000_0000_0000_0000_0000_0000) as i128 + i128::MIN
            } else {
                n as i128
            },
        ),
        11 => Value::F32(n as u32),
        _ => Value::F64(n as u64),
    }
}

/// Reads the value at `at`.
fn take_value(program: &Vec<u8>, at: usize) -> (r: Result<(Value, usize), DecodeError>)
    requires
        at <= program.len(),
    ensures
        match value_at(program@, at as int) {
            Ok((v, end)) => r == Ok::<(Value, usize), DecodeError>((v, end as usize)) && end
                <= program.len(),
            Err(e) => r == Err::<(Value, usize), DecodeError>(e),
        },
{
    if at >= program.len() {
        return Err(DecodeError::Truncated);
    }
    let tag = program[at];
    let width: usize = match width_of_tag(tag) {
        Some(width) => width,
        None => {
            return Err(DecodeError::UnknownTag);
        },
    };
    if program.len() - at - 1 < width {
        return Err(DecodeError::Truncated);
    }
    let n = read_le(program, at + 1, width);
    proof {
        lemma_le_value_bound(program@.subrange(at + 1, at + 1 + width));
        lemma_radix_values();
    }
    Ok((value_of_parts(tag, n), at + 1 + width))
}

/// Decodes the instruction at `ip` in `program`, and gives it with the
/// address of the instruction that follows it.
///
/// The error is `EndOfProgram` exactly where `ip` is at or beyond the end
/// of the program; any other error says what is malformed there.
pub fn decode_next(program: &Vec<u8>, ip: Address) -> (r: Result<
    (Instruction, Address),
    DecodeError,
>)
    ensures
        r == spec_decode_next(program@, ip),
        r is Ok ==> ip < r->Ok_0.1 <= program.len(),
        r == Err::<(Instruction, Address), DecodeError>(DecodeError::EndOfProgram) <==> ip
            >= program.len(),
{
    if ip >= program.len() {
        return Err(DecodeError::EndOfProgram);
    }
    let at: usize = ip + 1;
    match program[ip] {
        0 => Ok((Instruction::Nop, at)),
        1 => {
            let (r, at) = take_word(program, at)?;
            let (v, at) = take_value(program, at)?;
            Ok((Instruction::Mov(r, v), at))
        },
        2 => {
            let (a, at) = take_word(program, at)?;
            let (b, at) = take_word(program, at)?;
            Ok((Instruction::Movr(a, b), at))
        },
        3 => {
            let (r, at) = take_word(program, at)?;
            Ok((Instruction::Jmp(r), at))
        },
        4 => {
            let (r, at) = take_word(program, at)?;
            Ok((Instruction::Je(r), at))
        },
        5 => {
            let (r, at) = take_word(program, at)?;
            Ok((Instruction::Jne(r), at))
        },
        6 => {
            let (r, at) = take_word(program, at)?;
            Ok((Instruction::Jg(r), at))
        },
        7 => {
            let (r, at) = take_word(program, at)?;
            Ok((Instruction::Jl(r), at))
        },
        8 => {
            let (a, at) = take_word(program, at)?;
            let (b, at) = take_word(program, at)?;
            Ok((Instruction::Cmp(a, b), at))
        },
        9 => {
            let (r, at) = take_word(program, at)?;
            Ok((Instruction::Printr(r), at))
        },
        10 => {
            let (a, at) = take_word(program, at)?;
            Ok((Instruction::Printv(a), at))
        },
        11 => {
            let (a, at) = take_word(program, at)?;
            let (v, at) = take_value(program, at)?;
            Ok((Instruction::Vstore(a, v), at))
        },
        12 => {
            let (a, at) = take_word(program, at)?;
            Ok((Instruction::Vload(a), at))
        },
        13 => {
            let (a, at) = take_word(program, at)?;
            let (r, at) = take_word(program, at)?;
            Ok((Instruction::Vstorer(a, r), at))
        },
        14 => {
            let (r, at) = take_word(program, at)?;
            let (a, at) = take_word(program, at)?;
            Ok((Instruction::Vloadr(r, a), at))
        },
        15 => {
            let (a, at) = take_word(program, at)?;
            let (b, at) = take_word(program, at)?;
            Ok((Instruction::Add(a, b), at))
        },
        16 => {
            let (a, at) = take_word(program, at)?;
            let (b, at) = take_word(program, at)?;
            Ok((Instruction::Sub(a, b), at))
        },
        17 => {
            let (a, at) = take_word(program, at)?;
            let (b, at) = take_word(program, at)?;
            Ok((Instruction::Mul(a, b), at))
        },
        18 => {
            let (a, at) = take_word(program, at)?;
            let (b, at) = take_word(program, at)?;
            Ok((Instruction::Div(a, b), at))
        },
        19 => {
            let (a, at) = take_word(program, at)?;
            let (b, at) = take_word(program, at)?;
            Ok((Instruction::And(a, b), at))
        },
        20 => {
            let (a, at) = take_word(program, at)?;
            let (b, at) = take_word(program, at)?;
            Ok((Instruction::Or(a, b), at))
        },
        21 => {
            let (a, at) = take_word(program, at)?;
            let (b, at) = take_word(program, at)?;
            Ok((Instruction::Xor(a, b), at))
        },
        22 => {
            let (r, at) = take_word(program, at)?;
            let (v, at) = take_value(program, at)?;
            Ok((Instruction::Shr(r, v), at))
        },
        23 => {
            let (r, at) = take_word(program, at)?;
            let (v, at) = take_value(program, at)?;
            Ok((Instruction::Shl(r, v), at))
        },
        24 => {
            let (v, at) = take_value(program, at)?;
            Ok((Instruction::Vpush(v), at))
        },
        25 => {
            let (r, at) = take_word(program, at)?;
            Ok((Instruction::Vpushr(r), at))
        },
        26 => {
            let (r, at) = take_word(program, at)?;
            Ok((Instruction::Vpop(r), at))
        },
        27 => {
            let (r, at) = take_word(program, at)?;
            Ok((Instruction::Call(r), at))
        },
        28 => Ok((Instruction::Ret, at)),
        29 => Ok((Instruction::Abort, at)),
        _ => Err(DecodeError::UnknownOpcode),
    }
}

// The encoder.

/// Appends the bytes of the word `w` to `out`.
fn put_word(out: &mut Vec<u8>, w: usize)
    ensures
        final(out)@ == old(out)@ + word_bytes(w),
{
    write_le(out, w as u128, WORD);
}

/// Appends the bytes of the value `v` to `out`.
fn put_value(out: &mut Vec<u8>, v: Value)
    ensures
        final(out)@ == old(out)@ + value_bytes(v),
{
    let ghost before = out@;
    match v {
        Value::Empty => {
            out.push(0);
            write_le(out, 0, 0);
        },
        Value::U8(x) => {
            out.push(1);
            write_le(out, x as u128, 1);
        },
        Value::I8(x) => {
            out.push(2);
            let n: i16 = if x < 0 {
                x as i16 + 0x100
            } else {
                x as i16
            };
            write_le(out, n as u128, 1);
        },
        Value::U16(x) => {
            out.push(3);
            write_le(out, x as u128, 2);
        },
        Value::I16(x) => {
            out.push(4);
            let n: i32 = if x < 0 {
                x as i32 + 0x1_0000
            } else {
                x as i32
            };
            write_le(out, n as u128, 2);
        },
        Value::U32(x) => {
            out.push(5);
            write_le(out, x as u128, 4);
        },
        Value::I32(x) => {
            out.push(6);
            let n: i64 = if x < 0 {
                x as i64 + 0x1_0000_0000
            } else {
                x as i64
            };
            write_le(out, n as u128, 4);
        },
        Value::U64(x) => {
            out.push(7);
            write_le(out, x as u128, 8);
        },
        Value::I64(x) => {
            out.push(8);
            let n: i128 = if x < 0 {
                x as i128 + 0x1_0000_0000_0000_0000
            } else {
                x as i128
            };
            write_le(out, n as u128, 8);
        },
        Value::U128(x) => {
            out.push(9);
            write_le(out, x, 16);
        },
        Value::I128(x) => {
            out.push(10);
            let n: u128 = if x < 0 {
                (x - i128::MIN) as u128 + 0x8000_0000_0000_0000_0000_0000_0000_0000
            } else {
                x as u128
            };
            write_le(out, n, 16);
        },
        Value::F32(x) => {
            out.push(11);
            write_le(out, x as u128, 4);
        },
        Value::F64(x) => {
            out.push(12);
            write_le(out, x as u128, 8);
        },
    }
    assert(out@ =~= before + value_bytes(v));
}

/// Appends the bytes of `instr` to `out`.
pub fn encode_into(out: &mut Vec<u8>, instr: Instruction)
    ensures
        final(out)@ == old(out)@ + encoding(instr),
{
    let ghost before = out@;
    match instr {
        Instruction::Nop => {
            out.push(0);
        },
        Instruction::Mov(r, v) => {
            out.push(1);
            put_word(out, r);
            put_value(out, v);
        },
        Instruction::Movr(a, b) => {
            out.push(2);
            put_word(out, a);
            put_word(out, b);
        },
        Instruction::Jmp(r) => {
            out.push(3);
            put_word(out, r);
        },
        Instruction::Je(r) => {
            out.push(4);
            put_word(out, r);
        },
        Instruction::Jne(r) => {
            out.push(5);
            put_word(out, r);
        },
        Instruction::Jg(r) => {
            out.push(6);
            put_word(out, r);
        },
        Instruction::Jl(r) => {
            out.push(7);
            put_word(out, r);
        },
        Instruction::Cmp(a, b) => {
            out.push(8);
            put_word(out, a);
            put_word(out, b);
        },
        Instruction::Printr(r) => {
            out.push(9);
            put_word(out, r);
        },
        Instruction::Printv(a) => {
            out.push(10);
            put_word(out, a);
        },
        Instruction::Vstore(a, v) => {
            out.push(11);
            put_word(out, a);
            put_value(out, v);
        },
        Instruction::Vload(a) => {
            out.push(12);
            put_word(out, a);
        },
        Instruction::Vstorer(a, r) => {
            out.push(13);
            put_word(out, a);
            put_word(out, r);
        },
        Instruction::Vloadr(r, a) => {
            out.push(14);
            put_word(out, r);
            put_word(out, a);
        },
        Instruction::Add(a, b) => {
            out.push(15);
            put_word(out, a);
            put_word(out, b);
        },
        Instruction::Sub(a, b) => {
            out.push(16);
            put_word(out, a);
            put_word(out, b);
        },
        Instruction::Mul(a, b) => {
            out.push(17);
            put_word(out, a);
            put_word(out, b);
        },
        Instruction::Div(a, b) => {
            out.push(18);
            put_word(out, a);
            put_word(out, b);
        },
        Instruction::And(a, b) => {
            out.push(19);
            put_word(out, a);
            put_word(out, b);
        },
        Instruction::Or(a, b) => {
            out.push(20);
            put_word(out, a);
            put_word(out, b);
        },
        Instruction::Xor(a, b) => {
            out.push(21);
            put_word(out, a);
            put_word(out, b);
        },
        Instruction::Shr(r, v) => {
            out.push(22);
            put_word(out, r);
            put_value(out, v);
        },
        Instruction::Shl(r, v) => {
            out.push(23);
            put_word(out, r);
            put_value(out, v);
        },
        Instruction::Vpush(v) => {
            out.push(24);
            put_value(out, v);
        },
        Instruction::Vpushr(r) => {
            out.push(25);
            put_word(out, r);
        },
        Instruction::Vpop(r) => {
            out.push(26);
            put_word(out, r);
        },
        Instruction::Call(r) => {
            out.push(27);
            put_word(out, r);
        },
        Instruction::Ret => {
            out.push(28);
        },
        Instruction::Abort => {
            out.push(29);
        },
    }
    assert(out@ =~= before + encoding(instr));
}

/// The bytes of `instr`.
pub fn encode(instr: Instruction) -> (bytes: Vec<u8>)
    ensures
        bytes@ == encoding(instr),
{
    let mut bytes: Vec<u8> = Vec::new();
    encode_into(&mut bytes, instr);
    assert(bytes@ =~= encoding(instr));
    bytes
}

/// The program that consists of `instrs`, one after the other.
pub fn assemble(instrs: &Vec<Instruction>) -> (program: Vec<u8>)
    ensures
        program@ == assembly(instrs@),
{
    let mut program: Vec<u8> = Vec::new();
    let mut i: usize = 0;
    while i < instrs.len()
        invariant
            i <= instrs.len(),
            program@ == assembly(instrs@.take(i as int)),
        decreases instrs.len() - i,
    {
        proof {
            assert(instrs@.take(i + 1).drop_last() =~= instrs@.take(i as int));
        }
        encode_into(&mut program, instrs[i]);
        i = i + 1;
    }
    assert(instrs@.take(i as int) =~= instrs@);
    program
}

// Decoding undoes encoding.

/// `chunk` stands in `program` at the position `at`.
pub open spec fn stands_at(program: Seq<u8>, at: int, chunk: Seq<u8>) -> bool {
    &&& 0 <= at
    &&& at + chunk.len() <= program.len()
    &&& program.subrange(at, at + chunk.len()) == chunk
}

/// Where two chunks stand one after the other, each stands in its place.
proof fn lemma_stands_apart(program: Seq<u8>, at: int, first: Seq<u8>, second: Seq<u8>)
    requires
        stands_at(program, at, first + second),
    ensures
        stands_at(program, at, first),
        stands_at(program, at + first.len(), second),
{
    let both = program.subrange(at, at + first.len() + second.len());
    assert(program.subrange(at, at + first.len()) =~= both.subrange(0, first.len() as int));
    assert(both.subrange(0, first.len() as int) =~= first);
    assert(program.subrange(at + first.len(), at + first.len() + second.len())
        =~= both.subrange(first.len() as int, both.len() as int));
    assert(both.subrange(first.len() as int, both.len() as int) =~= second);
}

/// Where the bytes of a word stand, that word is read.
proof fn lemma_word_at(program: Seq<u8>, at: int, w: usize)
    requires
        stands_at(program, at, word_bytes(w)),
    ensures
        word_bytes(w).len() == WORD,
        word_at(program, at) == Ok::<(usize, int), DecodeError>((w, at + WORD)),
{
    lemma_le_bytes_len(w as nat, WORD as nat);
    lemma_radix_values();
    lemma_le_value_of_bytes(w as nat, WORD as nat);
}

/// Where the bytes of a value stand, that value is read.
proof fn lemma_value_at(program: Seq<u8>, at: int, v: Value)
    requires
        stands_at(program, at, value_bytes(v)),
    ensures
        value_bytes(v).len() == 1 + v.kind().width(),
        value_at(program, at) == Ok::<(Value, int), DecodeError>(
            (v, at + 1 + v.kind().width()),
        ),
{
    let kind = v.kind();
    let n = kind.residue(v.payload()) as nat;
    lemma_le_bytes_len(n, kind.width());
    lemma_stands_apart(program, at, seq![kind.tag()], le_bytes(n, kind.width()));
    assert(program[at] == program.subrange(at, at + 1)[0]);
    assert(Kind::of_tag(kind.tag()) == Some(kind));
    lemma_radix_values();
    lemma_le_value_of_bytes(n, kind.width());
    v.lemma_of_kind_payload();
}

/// The length of an instruction's bytes.
pub open spec fn encoded_len(instr: Instruction) -> nat {
    encoding(instr).len()
}

/// Decoding undoes encoding: where the bytes of `instr` stand at `ip` in a
/// program, whatever comes before and after them, `instr` is decoded at
/// `ip`, and the next instruction is looked for right behind those bytes.
pub proof fn lemma_decode_encoding(program: Seq<u8>, ip: Address, instr: Instruction)
    requires
        stands_at(program, ip as int, encoding(instr)),
        program.len() <= usize::MAX,
    ensures
        spec_decode_next(program, ip) == Ok::<(Instruction, Address), DecodeError>(
            (instr, (ip + encoded_len(instr)) as usize),
        ),
{
    let code = seq![opcode(instr)];
    let rest = operand_bytes(instr);
    let at = ip + 1;
    lemma_stands_apart(program, ip as int, code, rest);
    assert(program[ip as int] == program.subrange(ip as int, ip + 1)[0]);
    match instr {
        Instruction::Nop | Instruction::Ret | Instruction::Abort => {},
        Instruction::Jmp(w)
        | Instruction::Je(w)
        | Instruction::Jne(w)
        | Instruction::Jg(w)
        | Instruction::Jl(w)
        | Instruction::Printr(w)
        | Instruction::Printv(w)
        | Instruction::Vload(w)
        | Instruction::Vpushr(w)
        | Instruction::Vpop(w)
        | Instruction::Call(w) => {
            lemma_word_at(program, at, w);
        },
        Instruction::Movr(a, b)
        | Instruction::Cmp(a, b)
        | Instruction::Vstorer(a, b)
        | Instruction::Vloadr(a, b)
        | Instruction::Add(a, b)
        | Instruction::Sub(a, b)
        | Instruction::Mul(a, b)
        | Instruction::Div(a, b)
        | Instruction::And(a, b)
        | Instruction::Or(a, b)
        | Instruction::Xor(a, b) => {
            lemma_le_bytes_len(a as nat, WORD as nat);
            lemma_stands_apart(program, at, word_bytes(a), word_bytes(b));
            lemma_word_at(program, at, a);
            lemma_word_at(program, at + WORD, b);
        },
        Instruction::Mov(w, v)
        | Instruction::Vstore(w, v)
        | Instruction::Shr(w, v)
        | Instruction::Shl(w, v) => {
            lemma_le_bytes_len(w as nat, WORD as nat);
            lemma_stands_apart(program, at, word_bytes(w), value_bytes(v));
            lemma_word_at(program, at, w);
            lemma_value_at(program, at + WORD, v);
        },
        Instruction::Vpush(v) => {
            lemma_value_at(program, at, v);
        },
    }
}

// Encoding undoes decoding.

/// A word that is read was spelled by its own bytes.
proof fn lemma_word_decoded(program: Seq<u8>, at: int)
    requires
        0 <= at,
        word_at(program, at) is Ok,
    ensures
        word_at(program, at)->Ok_0.1 == at + WORD,
        at + WORD <= program.len(),
        program.subrange(at, at + WORD) == word_bytes(word_at(program, at)->Ok_0.0),
{
    lemma_le_bytes_of_value(program.subrange(at, at + WORD));
}

/// A value that is read was spelled by its own bytes.
proof fn lemma_value_decoded(program: Seq<u8>, at: int)
    requires
        0 <= at,
        value_at(program, at) is Ok,
    ensures
        at < value_at(program, at)->Ok_0.1 <= program.len(),
        program.subrange(at, value_at(program, at)->Ok_0.1) == value_bytes(
            value_at(program, at)->Ok_0.0,
        ),
{
    let (v, end) = value_at(program, at)->Ok_0;
    let kind = Kind::of_tag(program[at])->Some_0;
    let payload = program.subrange(at + 1, end);
    let n = le_value(payload);
    lemma_le_value_bound(payload);
    lemma_radix_values();
    lemma_le_bytes_of_value(payload);
    kind.lemma_wrap(n as int);
    assert(v.kind() == kind);
    assert(kind.residue(v.payload()) == n);
    assert(program.subrange(at, end) =~= seq![program[at]] + payload);
}

/// Encoding undoes decoding: the bytes that an instruction was decoded
/// from are the bytes of that instruction. So no two byte strings decode
/// to one instruction, and the address of the next instruction is the
/// address of this one plus the length of its bytes.
pub proof fn lemma_encoding_decoded(program: Seq<u8>, ip: Address)
    requires
        spec_decode_next(program, ip) is Ok,
        program.len() <= usize::MAX,
    ensures
        ip < spec_decode_next(program, ip)->Ok_0.1 <= program.len(),
        program.subrange(ip as int, spec_decode_next(program, ip)->Ok_0.1 as int) == encoding(
            spec_decode_next(program, ip)->Ok_0.0,
        ),
{
    let code = program[ip as int];
    let at = ip + 1;
    let (instr, end) = instruction_at(program, code, at)->Ok_0;
    assert(opcode(instr) == code);
    let head = seq![code];
    if code == 0 || code == 28 || code == 29 {
        assert(program.subrange(ip as int, end) =~= head);
        assert(encoding(instr) =~= head);
    } else if code == 24 {
        lemma_value_decoded(program, at);
        assert(program.subrange(ip as int, end) =~= head + program.subrange(at, end));
    } else if code == 1 || code == 11 || code == 22 || code == 23 {
        lemma_word_decoded(program, at);
        lemma_value_decoded(program, at + WORD);
        assert(program.subrange(ip as int, end) =~= head + (program.subrange(at, at + WORD)
            + program.subrange(at + WORD, end)));
    } else if code == 2 || code == 8 || (13 <= code <= 21) {
        lemma_word_decoded(program, at);
        lemma_word_decoded(program, at + WORD);
        assert(program.subrange(ip as int, end) =~= head + (program.subrange(at, at + WORD)
            + program.subrange(at + WORD, end)));
    } else {
        lemma_word_decoded(program, at);
        assert(program.subrange(ip as int, end) =~= head + program.subrange(at, end));
    }
}

} // verus!
