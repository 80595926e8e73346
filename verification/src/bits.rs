//! What the bit operators are in arithmetic.
//!
//! A left shift multiplies by a power of two and wraps around; a right
//! shift divides by one and rounds down. For each integer type the two
//! facts are proved by induction on the shift amount, from what the
//! bit-vector solver knows of a shift by one more bit.
//!
//! The bit of weight `2^i` of an integer is the parity of its quotient by
//! `2^i`, and the bitwise operators combine their operands bit by bit.
use vstd::prelude::*;
use vstd::arithmetic::div_mod::{lemma_fundamental_div_mod, lemma_fundamental_div_mod_converse};
use vstd::arithmetic::power2::{lemma2_to64, lemma_pow2_pos, lemma_pow2_unfold, pow2};
use crate::value::Kind;

verus! {

/// Where `q` is half of the quotient of `x` by `d`, rounded down, it is
/// the quotient of `x` by twice `d`.
pub proof fn lemma_floor_halving(x: int, d: int, q: int)
    requires
        d > 0,
        2 * q <= x / d < 2 * q + 2,
    ensures
        q == x / (2 * d),
{
    let q1 = x / d;
    let r1 = x % d;
    lemma_fundamental_div_mod(x, d);
    let r2 = q1 - 2 * q;
    assert(x == q * (2 * d) + (r2 * d + r1)) by (nonlinear_arith)
        requires
            x == d * q1 + r1,
            r2 == q1 - 2 * q,
    ;
    assert(0 <= r2 * d + r1 < 2 * d) by (nonlinear_arith)
        requires
            0 <= r2 < 2,
            0 <= r1 < d,
    ;
    lemma_fundamental_div_mod_converse(x, 2 * d, q, r2 * d + r1);
}

/// Twice a product with a power of two is the product with the next one.
proof fn lemma_next_product(x: int, k: nat)
    requires
        k > 0,
    ensures
        x * (pow2(k) as int) == 2 * (x * (pow2((k - 1) as nat) as int)),
{
    lemma_pow2_unfold(k);
    let p = pow2((k - 1) as nat) as int;
    assert(x * (2 * p) == 2 * (x * p)) by (nonlinear_arith);
}

/// A right shift of a `u8` is the quotient by the power of two, rounded
/// down.
pub proof fn lemma_shr_u8(x: u8, k: u32)
    requires
        k < 8,
    ensures
        (x >> k) as int == (x as int) / (pow2(k as nat) as int),
    decreases k,
{
    assert((k == 0 ==> x >> k == x) && (0 < k < 8 ==> 2 * ((x >> k) as int) <= ((x >> ((k
        - 1) as u32)) as int) < 2 * ((x >> k) as int) + 2)) by (bit_vector)
        requires
            k < 8,
    ;
    if k == 0 {
        lemma2_to64();
    } else {
        let j = (k - 1) as u32;
        lemma_shr_u8(x, j);
        lemma_pow2_pos(j as nat);
        lemma_pow2_unfold(k as nat);
        lemma_floor_halving(x as int, pow2(j as nat) as int, (x >> k) as int);
    }
}

/// Where `y` is what `a` wraps around to as a `u8`, a `u8` that is
/// congruent to twice `y` is what twice `a` wraps around to.
proof fn lemma_doubles_u8(a: int, y: int, z: u8)
    requires
        y == Kind::U8.wrap(a),
        (z - 2 * y) % 0x100 == 0,
    ensures
        z == Kind::U8.wrap(2 * a),
{
    let m: int = 0x100;
    let r = a % m;
    let c = (z - 2 * y) / m;
    let r2 = (2 * a) % m;
    assert(a == m * (a / m) + r && 0 <= r < m);
    assert(2 * a == m * ((2 * a) / m) + r2 && 0 <= r2 < m);
    assert(z - 2 * y == m * c);
    assert(y == r || y == r - m);
    let w = Kind::U8.wrap(2 * a);
    assert(w == r2 || w == r2 - m);
    let d = if y == r {
        0int
    } else {
        2int
    };
    let e = if w == r2 {
        0int
    } else {
        1int
    };
    assert(z - w == m * (c + (2 * a) / m - 2 * (a / m) - d + e));
}

/// A left shift of a `u8` is the product with the power of two, wrapped
/// around.
pub proof fn lemma_shl_u8(x: u8, k: u32)
    requires
        k < 8,
    ensures
        (x << k) as int == Kind::U8.wrap((x as int) * (pow2(k as nat) as int)),
    decreases k,
{
    assert((k == 0 ==> x << k == x) && (0 < k < 8 ==> ((x << k) as int - 2 * ((x << ((k
        - 1) as u32)) as int)) % 0x100 == 0)) by (bit_vector)
        requires
            k < 8,
    ;
    if k == 0 {
        lemma2_to64();
    } else {
        let j = (k - 1) as u32;
        lemma_shl_u8(x, j);
        lemma_next_product(x as int, k as nat);
        lemma_doubles_u8((x as int) * (pow2(j as nat) as int), (x << j) as int, x << k);
    }
}

/// A right shift of an `i8` is the quotient by the power of two, rounded
/// down.
pub proof fn lemma_shr_i8(x: i8, k: u32)
    requires
        k < 8,
    ensures
        (x >> k) as int == (x as int) / (pow2(k as nat) as int),
    decreases k,
{
    assert((k == 0 ==> x >> k == x) && (0 < k < 8 ==> 2 * ((x >> k) as int) <= ((x >> ((k
        - 1) as u32)) as int) < 2 * ((x >> k) as int) + 2)) by (bit_vector)
        requires
            k < 8,
    ;
    if k == 0 {
        lemma2_to64();
    } else {
        let j = (k - 1) as u32;
        lemma_shr_i8(x, j);
        lemma_pow2_pos(j as nat);
        lemma_pow2_unfold(k as nat);
        lemma_floor_halving(x as int, pow2(j as nat) as int, (x >> k) as int);
    }
}

/// Where `y` is what `a` wraps around to as an `i8`, an `i8` that is
/// congruent to twice `y` is what twice `a` wraps around to.
proof fn lemma_doubles_i8(a: int, y: int, z: i8)
    requires
        y == Kind::I8.wrap(a),
        (z - 2 * y) % 0x100 == 0,
    ensures
        z == Kind::I8.wrap(2 * a),
{
    let m: int = 0x100;
    let r = a % m;
    let c = (z - 2 * y) / m;
    let r2 = (2 * a) % m;
    assert(a == m * (a / m) + r && 0 <= r < m);
    assert(2 * a == m * ((2 * a) / m) + r2 && 0 <= r2 < m);
    assert(z - 2 * y == m * c);
    assert(y == r || y == r - m);
    let w = Kind::I8.wrap(2 * a);
    assert(w == r2 || w == r2 - m);
    let d = if y == r {
        0int
    } else {
        2int
    };
    let e = if w == r2 {
        0int
    } else {
        1int
    };
    assert(z - w == m * (c + (2 * a) / m - 2 * (a / m) - d + e));
}

/// A left shift of an `i8` is the product with the power of two, wrapped
/// around.
pub proof fn lemma_shl_i8(x: i8, k: u32)
    requires
        k < 8,
    ensures
        (x << k) as int == Kind::I8.wrap((x as int) * (pow2(k as nat) as int)),
    decreases k,
{
    assert((k == 0 ==> x << k == x) && (0 < k < 8 ==> ((x << k) as int - 2 * ((x << ((k
        - 1) as u32)) as int)) % 0x100 == 0)) by (bit_vector)
        requires
            k < 8,
    ;
    if k == 0 {
        lemma2_to64();
    } else {
        let j = (k - 1) as u32;
        lemma_shl_i8(x, j);
        lemma_next_product(x as int, k as nat);
        lemma_doubles_i8((x as int) * (pow2(j as nat) as int), (x << j) as int, x << k);
    }
}

/// A right shift of a `u16` is the quotient by the power of two, rounded
/// down.
pub proof fn lemma_shr_u16(x: u16, k: u32)
    requires
        k < 16,
    ensures
        (x >> k) as int == (x as int) / (pow2(k as nat) as int),
    decreases k,
{
    assert((k == 0 ==> x >> k == x) && (0 < k < 16 ==> 2 * ((x >> k) as int) <= ((x >> ((k
        - 1) as u32)) as int) < 2 * ((x >> k) as int) + 2)) by (bit_vector)
        requires
            k < 16,
    ;
    if k == 0 {
        lemma2_to64();
    } else {
        let j = (k - 1) as u32;
        lemma_shr_u16(x, j);
        lemma_pow2_pos(j as nat);
        lemma_pow2_unfold(k as nat);
        lemma_floor_halving(x as int, pow2(j as nat) as int, (x >> k) as int);
    }
}

/// Where `y` is what `a` wraps around to as a `u16`, a `u16` that is
/// congruent to twice `y` is what twice `a` wraps around to.
proof fn lemma_doubles_u16(a: int, y: int, z: u16)
    requires
        y == Kind::U16.wrap(a),
        (z - 2 * y) % 0x1_0000 == 0,
    ensures
        z == Kind::U16.wrap(2 * a),
{
    let m: int = 0x1_0000;
    let r = a % m;
    let c = (z - 2 * y) / m;
    let r2 = (2 * a) % m;
    assert(a == m * (a / m) + r && 0 <= r < m);
    assert(2 * a == m * ((2 * a) / m) + r2 && 0 <= r2 < m);
    assert(z - 2 * y == m * c);
    assert(y == r || y == r - m);
    let w = Kind::U16.wrap(2 * a);
    assert(w == r2 || w == r2 - m);
    let d = if y == r {
        0int
    } else {
        2int
    };
    let e = if w == r2 {
        0int
    } else {
        1int
    };
    assert(z - w == m * (c + (2 * a) / m - 2 * (a / m) - d + e));
}

/// A left shift of a `u16` is the product with the power of two, wrapped
/// around.
pub proof fn lemma_shl_u16(x: u16, k: u32)
    requires
        k < 16,
    ensures
        (x << k) as int == Kind::U16.wrap((x as int) * (pow2(k as nat) as int)),
    decreases k,
{
    assert((k == 0 ==> x << k == x) && (0 < k < 16 ==> ((x << k) as int - 2 * ((x << ((k
        - 1) as u32)) as int)) % 0x1_0000 == 0)) by (bit_vector)
        requires
            k < 16,
    ;
    if k == 0 {
        lemma2_to64();
    } else {
        let j = (k - 1) as u32;
        lemma_shl_u16(x, j);
        lemma_next_product(x as int, k as nat);
        lemma_doubles_u16((x as int) * (pow2(j as nat) as int), (x << j) as int, x << k);
    }
}

/// A right shift of an `i16` is the quotient by the power of two, rounded
/// down.
pub proof fn lemma_shr_i16(x: i16, k: u32)
    requires
        k < 16,
    ensures
        (x >> k) as int == (x as int) / (pow2(k as nat) as int),
    decreases k,
{
    assert((k == 0 ==> x >> k == x) && (0 < k < 16 ==> 2 * ((x >> k) as int) <= ((x >> ((k
        - 1) as u32)) as int) < 2 * ((x >> k) as int) + 2)) by (bit_vector)
        requires
            k < 16,
    ;
    if k == 0 {
        lemma2_to64();
    } else {
        let j = (k - 1) as u32;
        lemma_shr_i16(x, j);
        lemma_pow2_pos(j as nat);
        lemma_pow2_unfold(k as nat);
        lemma_floor_halving(x as int, pow2(j as nat) as int, (x >> k) as int);
    }
}

/// Where `y` is what `a` wraps around to as an `i16`, an `i16` that is
/// congruent to twice `y` is what twice `a` wraps around to.
proof fn lemma_doubles_i16(a: int, y: int, z: i16)
    requires
        y == Kind::I16.wrap(a),
        (z - 2 * y) % 0x1_0000 == 0,
    ensures
        z == Kind::I16.wrap(2 * a),
{
    let m: int = 0x1_0000;
    let r = a % m;
    let c = (z - 2 * y) / m;
    let r2 = (2 * a) % m;
    assert(a == m * (a / m) + r && 0 <= r < m);
    assert(2 * a == m * ((2 * a) / m) + r2 && 0 <= r2 < m);
    assert(z - 2 * y == m * c);
    assert(y == r || y == r - m);
    let w = Kind::I16.wrap(2 * a);
    assert(w == r2 || w == r2 - m);
    let d = if y == r {
        0int
    } else {
        2int
    };
    let e = if w == r2 {
        0int
    } else {
        1int
    };
    assert(z - w == m * (c + (2 * a) / m - 2 * (a / m) - d + e));
}

/// A left shift of an `i16` is the product with the power of two, wrapped
/// around.
pub proof fn lemma_shl_i16(x: i16, k: u32)
    requires
        k < 16,
    ensures
        (x << k) as int == Kind::I16.wrap((x as int) * (pow2(k as nat) as int)),
    decreases k,
{
    assert((k == 0 ==> x << k == x) && (0 < k < 16 ==> ((x << k) as int - 2 * ((x << ((k
        - 1) as u32)) as int)) % 0x1_0000 == 0)) by (bit_vector)
        requires
            k < 16,
    ;
    if k == 0 {
        lemma2_to64();
    } else {
        let j = (k - 1) as u32;
        lemma_shl_i16(x, j);
        lemma_next_product(x as int, k as nat);
        lemma_doubles_i16((x as int) * (pow2(j as nat) as int), (x << j) as int, x << k);
    }
}

/// A right shift of a `u32` is the quotient by the power of two, rounded
/// down.
pub proof fn lemma_shr_u32(x: u32, k: u32)
    requires
        k < 32,
    ensures
        (x >> k) as int == (x as int) / (pow2(k as nat) as int),
    decreases k,
{
    assert((k == 0 ==> x >> k == x) && (0 < k < 32 ==> 2 * ((x >> k) as int) <= ((x >> ((k
        - 1) as u32)) as int) < 2 * ((x >> k) as int) + 2)) by (bit_vector)
        requires
            k < 32,
    ;
    if k == 0 {
        lemma2_to64();
    } else {
        let j = (k - 1) as u32;
        lemma_shr_u32(x, j);
        lemma_pow2_pos(j as nat);
        lemma_pow2_unfold(k as nat);
        lemma_floor_halving(x as int, pow2(j as nat) as int, (x >> k) as int);
    }
}

/// Where `y` is what `a` wraps around to as a `u32`, a `u32` that is
/// congruent to twice `y` is what twice `a` wraps around to.
proof fn lemma_doubles_u32(a: int, y: int, z: u32)
    requires
        y == Kind::U32.wrap(a),
        (z - 2 * y) % 0x1_0000_0000 == 0,
    ensures
        z == Kind::U32.wrap(2 * a),
{
    let m: int = 0x1_0000_0000;
    let r = a % m;
    let c = (z - 2 * y) / m;
    let r2 = (2 * a) % m;
    assert(a == m * (a / m) + r && 0 <= r < m);
    assert(2 * a == m * ((2 * a) / m) + r2 && 0 <= r2 < m);
    assert(z - 2 * y == m * c);
    assert(y == r || y == r - m);
    let w = Kind::U32.wrap(2 * a);
    assert(w == r2 || w == r2 - m);
    let d = if y == r {
        0int
    } else {
        2int
    };
    let e = if w == r2 {
        0int
    } else {
        1int
    };
    assert(z - w == m * (c + (2 * a) / m - 2 * (a / m) - d + e));
}

/// A left shift of a `u32` is the product with the power of two, wrapped
/// around.
pub proof fn lemma_shl_u32(x: u32, k: u32)
    requires
        k < 32,
    ensures
        (x << k) as int == Kind::U32.wrap((x as int) * (pow2(k as nat) as int)),
    decreases k,
{
    assert((k == 0 ==> x << k == x) && (0 < k < 32 ==> ((x << k) as int - 2 * ((x << ((k
        - 1) as u32)) as int)) % 0x1_0000_0000 == 0)) by (bit_vector)
        requires
            k < 32,
    ;
    if k == 0 {
        lemma2_to64();
    } else {
        let j = (k - 1) as u32;
        lemma_shl_u32(x, j);
        lemma_next_product(x as int, k as nat);
        lemma_doubles_u32((x as int) * (pow2(j as nat) as int), (x << j) as int, x << k);
    }
}

/// A right shift of an `i32` is the quotient by the power of two, rounded
/// down.
pub proof fn lemma_shr_i32(x: i32, k: u32)
    requires
        k < 32,
    ensures
        (x >> k) as int == (x as int) / (pow2(k as nat) as int),
    decreases k,
{
    assert((k == 0 ==> x >> k == x) && (0 < k < 32 ==> 2 * ((x >> k) as int) <= ((x >> ((k
        - 1) as u32)) as int) < 2 * ((x >> k) as int) + 2)) by (bit_vector)
        requires
            k < 32,
    ;
    if k == 0 {
        lemma2_to64();
    } else {
        let j = (k - 1) as u32;
        lemma_shr_i32(x, j);
        lemma_pow2_pos(j as nat);
        lemma_pow2_unfold(k as nat);
        lemma_floor_halving(x as int, pow2(j as nat) as int, (x >> k) as int);
    }
}

/// Where `y` is what `a` wraps around to as an `i32`, an `i32` that is
/// congruent to twice `y` is what twice `a` wraps around to.
proof fn lemma_doubles_i32(a: int, y: int, z: i32)
    requires
        y == Kind::I32.wrap(a),
        (z - 2 * y) % 0x1_0000_0000 == 0,
    ensures
        z == Kind::I32.wrap(2 * a),
{
    let m: int = 0x1_0000_0000;
    let r = a % m;
    let c = (z - 2 * y) / m;
    let r2 = (2 * a) % m;
    assert(a == m * (a / m) + r && 0 <= r < m);
    assert(2 * a == m * ((2 * a) / m) + r2 && 0 <= r2 < m);
    assert(z - 2 * y == m * c);
    assert(y == r || y == r - m);
    let w = Kind::I32.wrap(2 * a);
    assert(w == r2 || w == r2 - m);
    let d = if y == r {
        0int
    } else {
        2int
    };
    let e = if w == r2 {
        0int
    } else {
        1int
    };
    assert(z - w == m * (c + (2 * a) / m - 2 * (a / m) - d + e));
}

/// A left shift of an `i32` is the product with the power of two, wrapped
/// around.
pub proof fn lemma_shl_i32(x: i32, k: u32)
    requires
        k < 32,
    ensures
        (x << k) as int == Kind::I32.wrap((x as int) * (pow2(k as nat) as int)),
    decreases k,
{
    assert((k == 0 ==> x << k == x) && (0 < k < 32 ==> ((x << k) as int - 2 * ((x << ((k
        - 1) as u32)) as int)) % 0x1_0000_0000 == 0)) by (bit_vector)
        requires
            k < 32,
    ;
    if k == 0 {
        lemma2_to64();
    } else {
        let j = (k - 1) as u32;
        lemma_shl_i32(x, j);
        lemma_next_product(x as int, k as nat);
        lemma_doubles_i32((x as int) * (pow2(j as nat) as int), (x << j) as int, x << k);
    }
}

/// A right shift of a `u64` is the quotient by the power of two, rounded
/// down.
pub proof fn lemma_shr_u64(x: u64, k: u32)
    requires
        k < 64,
    ensures
        (x >> k) as int == (x as int) / (pow2(k as nat) as int),
    decreases k,
{
    assert((k == 0 ==> x >> k == x) && (0 < k < 64 ==> 2 * ((x >> k) as int) <= ((x >> ((k
        - 1) as u32)) as int) < 2 * ((x >> k) as int) + 2)) by (bit_vector)
        requires
            k < 64,
    ;
    if k == 0 {
        lemma2_to64();
    } else {
        let j = (k - 1) as u32;
        lemma_shr_u64(x, j);
        lemma_pow2_pos(j as nat);
        lemma_pow2_unfold(k as nat);
        lemma_floor_halving(x as int, pow2(j as nat) as int, (x >> k) as int);
    }
}

/// Where `y` is what `a` wraps around to as a `u64`, a `u64` that is
/// congruent to twice `y` is what twice `a` wraps around to.
proof fn lemma_doubles_u64(a: int, y: int, z: u64)
    requires
        y == Kind::U64.wrap(a),
        (z - 2 * y) % 0x1_0000_0000_0000_0000 == 0,
    ensures
        z == Kind::U64.wrap(2 * a),
{
    let m: int = 0x1_0000_0000_0000_0000;
    let r = a % m;
    let c = (z - 2 * y) / m;
    let r2 = (2 * a) % m;
    assert(a == m * (a / m) + r && 0 <= r < m);
    assert(2 * a == m * ((2 * a) / m) + r2 && 0 <= r2 < m);
    assert(z - 2 * y == m * c);
    assert(y == r || y == r - m);
    let w = Kind::U64.wrap(2 * a);
    assert(w == r2 || w == r2 - m);
    let d = if y == r {
        0int
    } else {
        2int
    };
    let e = if w == r2 {
        0int
    } else {
        1int
    };
    assert(z - w == m * (c + (2 * a) / m - 2 * (a / m) - d + e));
}

/// A left shift of a `u64` is the product with the power of two, wrapped
/// around.
pub proof fn lemma_shl_u64(x: u64, k: u32)
    requires
        k < 64,
    ensures
        (x << k) as int == Kind::U64.wrap((x as int) * (pow2(k as nat) as int)),
    decreases k,
{
    assert((k == 0 ==> x << k == x) && (0 < k < 64 ==> ((x << k) as int - 2 * ((x << ((k
        - 1) as u32)) as int)) % 0x1_0000_0000_0000_0000 == 0)) by (bit_vector)
        requires
            k < 64,
    ;
    if k == 0 {
        lemma2_to64();
    } else {
        let j = (k - 1) as u32;
        lemma_shl_u64(x, j);
        lemma_next_product(x as int, k as nat);
        lemma_doubles_u64((x as int) * (pow2(j as nat) as int), (x << j) as int, x << k);
    }
}

/// A right shift of an `i64` is the quotient by the power of two, rounded
/// down.
pub proof fn lemma_shr_i64(x: i64, k: u32)
    requires
        k < 64,
    ensures
        (x >> k) as int == (x as int) / (pow2(k as nat) as int),
    decreases k,
{
    assert((k == 0 ==> x >> k == x) && (0 < k < 64 ==> 2 * ((x >> k) as int) <= ((x >> ((k
        - 1) as u32)) as int) < 2 * ((x >> k) as int) + 2)) by (bit_vector)
        requires
            k < 64,
    ;
    if k == 0 {
        lemma2_to64();
    } else {
        let j = (k - 1) as u32;
        lemma_shr_i64(x, j);
        lemma_pow2_pos(j as nat);
        lemma_pow2_unfold(k as nat);
        lemma_floor_halving(x as int, pow2(j as nat) as int, (x >> k) as int);
    }
}

/// Where `y` is what `a` wraps around to as an `i64`, an `i64` that is
/// congruent to twice `y` is what twice `a` wraps around to.
proof fn lemma_doubles_i64(a: int, y: int, z: i64)
    requires
        y == Kind::I64.wrap(a),
        (z - 2 * y) % 0x1_0000_0000_0000_0000 == 0,
    ensures
        z == Kind::I64.wrap(2 * a),
{
    let m: int = 0x1_0000_0000_0000_0000;
    let r = a % m;
    let c = (z - 2 * y) / m;
    let r2 = (2 * a) % m;
    assert(a == m * (a / m) + r && 0 <= r < m);
    assert(2 * a == m * ((2 * a) / m) + r2 && 0 <= r2 < m);
    assert(z - 2 * y == m * c);
    assert(y == r || y == r - m);
    let w = Kind::I64.wrap(2 * a);
    assert(w == r2 || w == r2 - m);
    let d = if y == r {
        0int
    } else {
        2int
    };
    let e = if w == r2 {
        0int
    } else {
        1int
    };
    assert(z - w == m * (c + (2 * a) / m - 2 * (a / m) - d + e));
}

/// A left shift of an `i64` is the product with the power of two, wrapped
/// around.
pub proof fn lemma_shl_i64(x: i64, k: u32)
    requires
        k < 64,
    ensures
        (x << k) as int == Kind::I64.wrap((x as int) * (pow2(k as nat) as int)),
    decreases k,
{
    assert((k == 0 ==> x << k == x) && (0 < k < 64 ==> ((x << k) as int - 2 * ((x << ((k
        - 1) as u32)) as int)) % 0x1_0000_0000_0000_0000 == 0)) by (bit_vector)
        requires
            k < 64,
    ;
    if k == 0 {
        lemma2_to64();
    } else {
        let j = (k - 1) as u32;
        lemma_shl_i64(x, j);
        lemma_next_product(x as int, k as nat);
        lemma_doubles_i64((x as int) * (pow2(j as nat) as int), (x << j) as int, x << k);
    }
}

/// A right shift of a `u128` is the quotient by the power of two, rounded
/// down.
pub proof fn lemma_shr_u128(x: u128, k: u32)
    requires
        k < 128,
    ensures
        (x >> k) as int == (x as int) / (pow2(k as nat) as int),
    decreases k,
{
    assert((k == 0 ==> x >> k == x) && (0 < k < 128 ==> x >> k == (x >> ((k - 1) as u32))
        >> 1u32)) by (bit_vector)
        requires
            k < 128,
    ;
    if k == 0 {
        lemma2_to64();
    } else {
        let j = (k - 1) as u32;
        let y = x >> j;
        assert(2 * ((y >> 1u32) as int) <= (y as int) < 2 * ((y >> 1u32) as int) + 2)
            by (bit_vector);
        lemma_shr_u128(x, j);
        lemma_pow2_pos(j as nat);
        lemma_pow2_unfold(k as nat);
        lemma_floor_halving(x as int, pow2(j as nat) as int, (x >> k) as int);
    }
}

/// Where `y` is what `a` wraps around to as a `u128`, a `u128` that is
/// congruent to twice `y` is what twice `a` wraps around to.
proof fn lemma_doubles_u128(a: int, y: int, z: u128)
    requires
        y == Kind::U128.wrap(a),
        (z - 2 * y) % 0x1_0000_0000_0000_0000_0000_0000_0000_0000int == 0,
    ensures
        z == Kind::U128.wrap(2 * a),
{
    let m: int = 0x1_0000_0000_0000_0000_0000_0000_0000_0000int;
    let r = a % m;
    let c = (z - 2 * y) / m;
    let r2 = (2 * a) % m;
    assert(a == m * (a / m) + r && 0 <= r < m);
    assert(2 * a == m * ((2 * a) / m) + r2 && 0 <= r2 < m);
    assert(z - 2 * y == m * c);
    assert(y == r || y == r - m);
    let w = Kind::U128.wrap(2 * a);
    assert(w == r2 || w == r2 - m);
    let d = if y == r {
        0int
    } else {
        2int
    };
    let e = if w == r2 {
        0int
    } else {
        1int
    };
    assert(z - w == m * (c + (2 * a) / m - 2 * (a / m) - d + e));
}

/// A left shift of a `u128` is the product with the power of two, wrapped
/// around.
pub proof fn lemma_shl_u128(x: u128, k: u32)
    requires
        k < 128,
    ensures
        (x << k) as int == Kind::U128.wrap((x as int) * (pow2(k as nat) as int)),
    decreases k,
{
    assert((k == 0 ==> x << k == x) && (0 < k < 128 ==> x << k == (x << ((k - 1) as u32))
        << 1u32)) by (bit_vector)
        requires
            k < 128,
    ;
    if k == 0 {
        lemma2_to64();
    } else {
        let j = (k - 1) as u32;
        let z = x << j;
        assert(((z << 1u32) as int - 2 * (z as int)) % 0x1_0000_0000_0000_0000_0000_0000_0000_0000int == 0) by (bit_vector);
        lemma_shl_u128(x, j);
        lemma_next_product(x as int, k as nat);
        lemma_doubles_u128((x as int) * (pow2(j as nat) as int), (x << j) as int, x << k);
    }
}

/// A right shift of an `i128` is the quotient by the power of two, rounded
/// down.
pub proof fn lemma_shr_i128(x: i128, k: u32)
    requires
        k < 128,
    ensures
        (x >> k) as int == (x as int) / (pow2(k as nat) as int),
    decreases k,
{
    assert((k == 0 ==> x >> k == x) && (0 < k < 128 ==> x >> k == (x >> ((k - 1) as u32))
        >> 1u32)) by (bit_vector)
        requires
            k < 128,
    ;
    if k == 0 {
        lemma2_to64();
    } else {
        let j = (k - 1) as u32;
        let y = x >> j;
        assert(2 * ((y >> 1u32) as int) <= (y as int) < 2 * ((y >> 1u32) as int) + 2)
            by (bit_vector);
        lemma_shr_i128(x, j);
        lemma_pow2_pos(j as nat);
        lemma_pow2_unfold(k as nat);
        lemma_floor_halving(x as int, pow2(j as nat) as int, (x >> k) as int);
    }
}

/// Where `y` is what `a` wraps around to as an `i128`, an `i128` that is
/// congruent to twice `y` is what twice `a` wraps around to.
proof fn lemma_doubles_i128(a: int, y: int, z: i128)
    requires
        y == Kind::I128.wrap(a),
        (z - 2 * y) % 0x1_0000_0000_0000_0000_0000_0000_0000_0000int == 0,
    ensures
        z == Kind::I128.wrap(2 * a),
{
    let m: int = 0x1_0000_0000_0000_0000_0000_0000_0000_0000int;
    let r = a % m;
    let c = (z - 2 * y) / m;
    let r2 = (2 * a) % m;
    assert(a == m * (a / m) + r && 0 <= r < m);
    assert(2 * a == m * ((2 * a) / m) + r2 && 0 <= r2 < m);
    assert(z - 2 * y == m * c);
    assert(y == r || y == r - m);
    let w = Kind::I128.wrap(2 * a);
    assert(w == r2 || w == r2 - m);
    let d = if y == r {
        0int
    } else {
        2int
    };
    let e = if w == r2 {
        0int
    } else {
        1int
    };
    assert(z - w == m * (c + (2 * a) / m - 2 * (a / m) - d + e));
}

/// A left shift of an `i128` is the product with the power of two, wrapped
/// around.
pub proof fn lemma_shl_i128(x: i128, k: u32)
    requires
        k < 128,
    ensures
        (x << k) as int == Kind::I128.wrap((x as int) * (pow2(k as nat) as int)),
    decreases k,
{
    assert((k == 0 ==> x << k == x) && (0 < k < 128 ==> x << k == (x << ((k - 1) as u32))
        << 1u32)) by (bit_vector)
        requires
            k < 128,
    ;
    if k == 0 {
        lemma2_to64();
    } else {
        let j = (k - 1) as u32;
        let z = x << j;
        assert(((z << 1u32) as int - 2 * (z as int)) % 0x1_0000_0000_0000_0000_0000_0000_0000_0000int == 0) by (bit_vector);
        lemma_shl_i128(x, j);
        lemma_next_product(x as int, k as nat);
        lemma_doubles_i128((x as int) * (pow2(j as nat) as int), (x << j) as int, x << k);
    }
}

/// The bit of weight two to the power `i` in the two's-complement form of
/// `n`: whether the quotient of `n` by that power, rounded down, is odd.
pub open spec fn bit(n: int, i: nat) -> bool {
    (n / (pow2(i) as int)) % 2 == 1
}

/// The bit `i` of a `u8` is what a shift by `i` leaves in the lowest
/// place.
proof fn lemma_bit_u8(y: u8, i: u32)
    requires
        i < 8,
    ensures
        ((y >> i) & 1 == 1) == bit(y as int, i as nat),
{
    lemma_shr_u8(y, i);
    let z = y >> i;
    assert(z & 1 == z % 2) by (bit_vector);
}

/// The bitwise operators on `u8` combine bit with bit.
pub proof fn lemma_bits_u8(a: u8, b: u8, i: u32)
    requires
        i < 8,
    ensures
        bit((a & b) as int, i as nat) == (bit(a as int, i as nat) && bit(b as int, i as nat)),
        bit((a | b) as int, i as nat) == (bit(a as int, i as nat) || bit(b as int, i as nat)),
        bit((a ^ b) as int, i as nat) == (bit(a as int, i as nat) != bit(b as int, i as nat)),
{
    assert({
        let x = (a >> i) & 1 == 1;
        let y = (b >> i) & 1 == 1;
        &&& (((a & b) >> i) & 1 == 1) == (x && y)
        &&& (((a | b) >> i) & 1 == 1) == (x || y)
        &&& (((a ^ b) >> i) & 1 == 1) == (x != y)
    }) by (bit_vector)
        requires
            i < 8,
    ;
    lemma_bit_u8(a, i);
    lemma_bit_u8(b, i);
    lemma_bit_u8(a & b, i);
    lemma_bit_u8(a | b, i);
    lemma_bit_u8(a ^ b, i);
}

/// The bit `i` of an `i8` is what a shift by `i` leaves in the lowest
/// place.
proof fn lemma_bit_i8(y: i8, i: u32)
    requires
        i < 8,
    ensures
        ((y >> i) & 1 == 1) == bit(y as int, i as nat),
{
    lemma_shr_i8(y, i);
    let z = y >> i;
    assert(z & 1 == z % 2) by (bit_vector);
}

/// The bitwise operators on `i8` combine bit with bit.
pub proof fn lemma_bits_i8(a: i8, b: i8, i: u32)
    requires
        i < 8,
    ensures
        bit((a & b) as int, i as nat) == (bit(a as int, i as nat) && bit(b as int, i as nat)),
        bit((a | b) as int, i as nat) == (bit(a as int, i as nat) || bit(b as int, i as nat)),
        bit((a ^ b) as int, i as nat) == (bit(a as int, i as nat) != bit(b as int, i as nat)),
{
    assert({
        let x = (a >> i) & 1 == 1;
        let y = (b >> i) & 1 == 1;
        &&& (((a & b) >> i) & 1 == 1) == (x && y)
        &&& (((a | b) >> i) & 1 == 1) == (x || y)
        &&& (((a ^ b) >> i) & 1 == 1) == (x != y)
    }) by (bit_vector)
        requires
            i < 8,
    ;
    lemma_bit_i8(a, i);
    lemma_bit_i8(b, i);
    lemma_bit_i8(a & b, i);
    lemma_bit_i8(a | b, i);
    lemma_bit_i8(a ^ b, i);
}

/// The bit `i` of a `u16` is what a shift by `i` leaves in the lowest
/// place.
proof fn lemma_bit_u16(y: u16, i: u32)
    requires
        i < 16,
    ensures
        ((y >> i) & 1 == 1) == bit(y as int, i as nat),
{
    lemma_shr_u16(y, i);
    let z = y >> i;
    assert(z & 1 == z % 2) by (bit_vector);
}

/// The bitwise operators on `u16` combine bit with bit.
pub proof fn lemma_bits_u16(a: u16, b: u16, i: u32)
    requires
        i < 16,
    ensures
        bit((a & b) as int, i as nat) == (bit(a as int, i as nat) && bit(b as int, i as nat)),
        bit((a | b) as int, i as nat) == (bit(a as int, i as nat) || bit(b as int, i as nat)),
        bit((a ^ b) as int, i as nat) == (bit(a as int, i as nat) != bit(b as int, i as nat)),
{
    assert({
        let x = (a >> i) & 1 == 1;
        let y = (b >> i) & 1 == 1;
        &&& (((a & b) >> i) & 1 == 1) == (x && y)
        &&& (((a | b) >> i) & 1 == 1) == (x || y)
        &&& (((a ^ b) >> i) & 1 == 1) == (x != y)
    }) by (bit_vector)
        requires
            i < 16,
    ;
    lemma_bit_u16(a, i);
    lemma_bit_u16(b, i);
    lemma_bit_u16(a & b, i);
    lemma_bit_u16(a | b, i);
    lemma_bit_u16(a ^ b, i);
}

/// The bit `i` of an `i16` is what a shift by `i` leaves in the lowest
/// place.
proof fn lemma_bit_i16(y: i16, i: u32)
    requires
        i < 16,
    ensures
        ((y >> i) & 1 == 1) == bit(y as int, i as nat),
{
    lemma_shr_i16(y, i);
    let z = y >> i;
    assert(z & 1 == z % 2) by (bit_vector);
}

/// The bitwise operators on `i16` combine bit with bit.
pub proof fn lemma_bits_i16(a: i16, b: i16, i: u32)
    requires
        i < 16,
    ensures
        bit((a & b) as int, i as nat) == (bit(a as int, i as nat) && bit(b as int, i as nat)),
        bit((a | b) as int, i as nat) == (bit(a as int, i as nat) || bit(b as int, i as nat)),
        bit((a ^ b) as int, i as nat) == (bit(a as int, i as nat) != bit(b as int, i as nat)),
{
    assert({
        let x = (a >> i) & 1 == 1;
        let y = (b >> i) & 1 == 1;
        &&& (((a & b) >> i) & 1 == 1) == (x && y)
        &&& (((a | b) >> i) & 1 == 1) == (x || y)
        &&& (((a ^ b) >> i) & 1 == 1) == (x != y)
    }) by (bit_vector)
        requires
            i < 16,
    ;
    lemma_bit_i16(a, i);
    lemma_bit_i16(b, i);
    lemma_bit_i16(a & b, i);
    lemma_bit_i16(a | b, i);
    lemma_bit_i16(a ^ b, i);
}

/// The bit `i` of a `u32` is what a shift by `i` leaves in the lowest
/// place.
proof fn lemma_bit_u32(y: u32, i: u32)
    requires
        i < 32,
    ensures
        ((y >> i) & 1 == 1) == bit(y as int, i as nat),
{
    lemma_shr_u32(y, i);
    let z = y >> i;
    assert(z & 1 == z % 2) by (bit_vector);
}

/// The bitwise operators on `u32` combine bit with bit.
pub proof fn lemma_bits_u32(a: u32, b: u32, i: u32)
    requires
        i < 32,
    ensures
        bit((a & b) as int, i as nat) == (bit(a as int, i as nat) && bit(b as int, i as nat)),
        bit((a | b) as int, i as nat) == (bit(a as int, i as nat) || bit(b as int, i as nat)),
        bit((a ^ b) as int, i as nat) == (bit(a as int, i as nat) != bit(b as int, i as nat)),
{
    assert({
        let x = (a >> i) & 1 == 1;
        let y = (b >> i) & 1 == 1;
        &&& (((a & b) >> i) & 1 == 1) == (x && y)
        &&& (((a | b) >> i) & 1 == 1) == (x || y)
        &&& (((a ^ b) >> i) & 1 == 1) == (x != y)
    }) by (bit_vector)
        requires
            i < 32,
    ;
    lemma_bit_u32(a, i);
    lemma_bit_u32(b, i);
    lemma_bit_u32(a & b, i);
    lemma_bit_u32(a | b, i);
    lemma_bit_u32(a ^ b, i);
}

/// The bit `i` of an `i32` is what a shift by `i` leaves in the lowest
/// place.
proof fn lemma_bit_i32(y: i32, i: u32)
    requires
        i < 32,
    ensures
        ((y >> i) & 1 == 1) == bit(y as int, i as nat),
{
    lemma_shr_i32(y, i);
    let z = y >> i;
    assert(z & 1 == z % 2) by (bit_vector);
}

/// The bitwise operators on `i32` combine bit with bit.
pub proof fn lemma_bits_i32(a: i32, b: i32, i: u32)
    requires
        i < 32,
    ensures
        bit((a & b) as int, i as nat) == (bit(a as int, i as nat) && bit(b as int, i as nat)),
        bit((a | b) as int, i as nat) == (bit(a as int, i as nat) || bit(b as int, i as nat)),
        bit((a ^ b) as int, i as nat) == (bit(a as int, i as nat) != bit(b as int, i as nat)),
{
    assert({
        let x = (a >> i) & 1 == 1;
        let y = (b >> i) & 1 == 1;
        &&& (((a & b) >> i) & 1 == 1) == (x && y)
        &&& (((a | b) >> i) & 1 == 1) == (x || y)
        &&& (((a ^ b) >> i) & 1 == 1) == (x != y)
    }) by (bit_vector)
        requires
            i < 32,
    ;
    lemma_bit_i32(a, i);
    lemma_bit_i32(b, i);
    lemma_bit_i32(a & b, i);
    lemma_bit_i32(a | b, i);
    lemma_bit_i32(a ^ b, i);
}

/// The bit `i` of a `u64` is what a shift by `i` leaves in the lowest
/// place.
proof fn lemma_bit_u64(y: u64, i: u32)
    requires
        i < 64,
    ensures
        ((y >> i) & 1 == 1) == bit(y as int, i as nat),
{
    lemma_shr_u64(y, i);
    let z = y >> i;
    assert(z & 1 == z % 2) by (bit_vector);
}

/// The bitwise operators on `u64` combine bit with bit.
pub proof fn lemma_bits_u64(a: u64, b: u64, i: u32)
    requires
        i < 64,
    ensures
        bit((a & b) as int, i as nat) == (bit(a as int, i as nat) && bit(b as int, i as nat)),
        bit((a | b) as int, i as nat) == (bit(a as int, i as nat) || bit(b as int, i as nat)),
        bit((a ^ b) as int, i as nat) == (bit(a as int, i as nat) != bit(b as int, i as nat)),
{
    assert({
        let x = (a >> i) & 1 == 1;
        let y = (b >> i) & 1 == 1;
        &&& (((a & b) >> i) & 1 == 1) == (x && y)
        &&& (((a | b) >> i) & 1 == 1) == (x || y)
        &&& (((a ^ b) >> i) & 1 == 1) == (x != y)
    }) by (bit_vector)
        requires
            i < 64,
    ;
    lemma_bit_u64(a, i);
    lemma_bit_u64(b, i);
    lemma_bit_u64(a & b, i);
    lemma_bit_u64(a | b, i);
    lemma_bit_u64(a ^ b, i);
}

/// The bit `i` of an `i64` is what a shift by `i` leaves in the lowest
/// place.
proof fn lemma_bit_i64(y: i64, i: u32)
    requires
        i < 64,
    ensures
        ((y >> i) & 1 == 1) == bit(y as int, i as nat),
{
    lemma_shr_i64(y, i);
    let z = y >> i;
    assert(z & 1 == z % 2) by (bit_vector);
}

/// The bitwise operators on `i64` combine bit with bit.
pub proof fn lemma_bits_i64(a: i64, b: i64, i: u32)
    requires
        i < 64,
    ensures
        bit((a & b) as int, i as nat) == (bit(a as int, i as nat) && bit(b as int, i as nat)),
        bit((a | b) as int, i as nat) == (bit(a as int, i as nat) || bit(b as int, i as nat)),
        bit((a ^ b) as int, i as nat) == (bit(a as int, i as nat) != bit(b as int, i as nat)),
{
    assert({
        let x = (a >> i) & 1 == 1;
        let y = (b >> i) & 1 == 1;
        &&& (((a & b) >> i) & 1 == 1) == (x && y)
        &&& (((a | b) >> i) & 1 == 1) == (x || y)
        &&& (((a ^ b) >> i) & 1 == 1) == (x != y)
    }) by (bit_vector)
        requires
            i < 64,
    ;
    lemma_bit_i64(a, i);
    lemma_bit_i64(b, i);
    lemma_bit_i64(a & b, i);
    lemma_bit_i64(a | b, i);
    lemma_bit_i64(a ^ b, i);
}

/// The bit `i` of a `u128` is what a shift by `i` leaves in the lowest
/// place.
proof fn lemma_bit_u128(y: u128, i: u32)
    requires
        i < 128,
    ensures
        ((y >> i) & 1 == 1) == bit(y as int, i as nat),
{
    lemma_shr_u128(y, i);
    let z = y >> i;
    assert(z & 1 == z % 2) by (bit_vector);
}

/// The bitwise operators on `u128` combine bit with bit.
pub proof fn lemma_bits_u128(a: u128, b: u128, i: u32)
    requires
        i < 128,
    ensures
        bit((a & b) as int, i as nat) == (bit(a as int, i as nat) && bit(b as int, i as nat)),
        bit((a | b) as int, i as nat) == (bit(a as int, i as nat) || bit(b as int, i as nat)),
        bit((a ^ b) as int, i as nat) == (bit(a as int, i as nat) != bit(b as int, i as nat)),
{
    assert({
        let x = (a >> i) & 1 == 1;
        let y = (b >> i) & 1 == 1;
        &&& (((a & b) >> i) & 1 == 1) == (x && y)
        &&& (((a | b) >> i) & 1 == 1) == (x || y)
        &&& (((a ^ b) >> i) & 1 == 1) == (x != y)
    }) by (bit_vector)
        requires
            i < 128,
    ;
    lemma_bit_u128(a, i);
    lemma_bit_u128(b, i);
    lemma_bit_u128(a & b, i);
    lemma_bit_u128(a | b, i);
    lemma_bit_u128(a ^ b, i);
}

/// The bit `i` of an `i128` is what a shift by `i` leaves in the lowest
/// place.
proof fn lemma_bit_i128(y: i128, i: u32)
    requires
        i < 128,
    ensures
        ((y >> i) & 1 == 1) == bit(y as int, i as nat),
{
    lemma_shr_i128(y, i);
    let z = y >> i;
    assert(z & 1 == z % 2) by (bit_vector);
}

/// The bitwise operators on `i128` combine bit with bit.
pub proof fn lemma_bits_i128(a: i128, b: i128, i: u32)
    requires
        i < 128,
    ensures
        bit((a & b) as int, i as nat) == (bit(a as int, i as nat) && bit(b as int, i as nat)),
        bit((a | b) as int, i as nat) == (bit(a as int, i as nat) || bit(b as int, i as nat)),
        bit((a ^ b) as int, i as nat) == (bit(a as int, i as nat) != bit(b as int, i as nat)),
{
    assert({
        let x = (a >> i) & 1 == 1;
        let y = (b >> i) & 1 == 1;
        &&& (((a & b) >> i) & 1 == 1) == (x && y)
        &&& (((a | b) >> i) & 1 == 1) == (x || y)
        &&& (((a ^ b) >> i) & 1 == 1) == (x != y)
    }) by (bit_vector)
        requires
            i < 128,
    ;
    lemma_bit_i128(a, i);
    lemma_bit_i128(b, i);
    lemma_bit_i128(a & b, i);
    lemma_bit_i128(a | b, i);
    lemma_bit_i128(a ^ b, i);
}

} // verus!
