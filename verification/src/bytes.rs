//! Little-endian numbers in byte strings.
use vstd::prelude::*;

verus! {

/// The number that `bytes` spell in base 256, least significant byte
/// first.
pub open spec fn le_value(bytes: Seq<u8>) -> nat
    decreases bytes.len(),
{
    if bytes.len() == 0 {
        0
    } else {
        bytes[0] as nat + 256 * le_value(bytes.skip(1))
    }
}

/// The `width` least significant base-256 digits of `n`, least
/// significant first.
pub open spec fn le_bytes(n: nat, width: nat) -> Seq<u8>
    decreases width,
{
    if width == 0 {
        Seq::empty()
    } else {
        seq![(n % 256) as u8] + le_bytes(n / 256, (width - 1) as nat)
    }
}

/// 256 to the power `width`: how many numbers `width` bytes can spell.
pub open spec fn radix(width: nat) -> nat
    decreases width,
{
    if width == 0 {
        1
    } else {
        256 * radix((width - 1) as nat)
    }
}

/// `le_bytes` gives as many bytes as it is asked for.
pub proof fn lemma_le_bytes_len(n: nat, width: nat)
    ensures
        le_bytes(n, width).len() == width,
    decreases width,
{
    if width > 0 {
        lemma_le_bytes_len(n / 256, (width - 1) as nat);
    }
}

/// What bytes spell is below the radix of their count.
pub proof fn lemma_le_value_bound(bytes: Seq<u8>)
    ensures
        le_value(bytes) < radix(bytes.len()),
    decreases bytes.len(),
{
    if bytes.len() > 0 {
        lemma_le_value_bound(bytes.skip(1));
    }
}

/// A number that fits `width` bytes is what its bytes spell.
pub proof fn lemma_le_value_of_bytes(n: nat, width: nat)
    requires
        n < radix(width),
    ensures
        le_value(le_bytes(n, width)) == n,
    decreases width,
{
    if width > 0 {
        let rest = le_bytes(n / 256, (width - 1) as nat);
        let all = le_bytes(n, width);
        lemma_le_value_of_bytes(n / 256, (width - 1) as nat);
        assert(all.skip(1) =~= rest);
        assert(all[0] == (n % 256) as u8);
    }
}

/// Bytes are the digits of what they spell.
pub proof fn lemma_le_bytes_of_value(bytes: Seq<u8>)
    ensures
        le_bytes(le_value(bytes), bytes.len()) == bytes,
    decreases bytes.len(),
{
    if bytes.len() > 0 {
        let n = le_value(bytes);
        let tail = bytes.skip(1);
        lemma_le_bytes_of_value(tail);
        assert(n % 256 == bytes[0] as nat);
        assert(n / 256 == le_value(tail));
        assert(le_bytes(n, bytes.len()) =~= bytes);
    }
}

/// The radix of the widths that values come in.
pub proof fn lemma_radix_values()
    ensures
        radix(0) == 1,
        radix(1) == 0x100,
        radix(2) == 0x1_0000,
        radix(4) == 0x1_0000_0000,
        radix(8) == 0x1_0000_0000_0000_0000,
        radix(16) == 0x1_0000_0000_0000_0000_0000_0000_0000_0000,
{
    reveal_with_fuel(radix, 17);
}

/// The radix grows with the width.
pub proof fn lemma_radix_monotonic(a: nat, b: nat)
    requires
        a <= b,
    ensures
        radix(a) <= radix(b),
        radix(a) >= 1,
    decreases b,
{
    if a < b {
        lemma_radix_monotonic(a, (b - 1) as nat);
    } else if a > 0 {
        lemma_radix_monotonic((a - 1) as nat, (a - 1) as nat);
    }
}

/// Reads the `width` bytes of `source` from `at` on as a little-endian
/// number.
pub(crate) fn read_le(source: &Vec<u8>, at: usize, width: usize) -> (n: u128)
    requires
        width <= 16,
        at + width <= source.len(),
    ensures
        n == le_value(source@.subrange(at as int, at + width)),
{
    let mut n: u128 = 0;
    let mut i: usize = width;
    while i > 0
        invariant
            i <= width <= 16,
            at + width <= source.len(),
            n == le_value(source@.subrange(at + i, at + width)),
            n < radix((width - i) as nat),
        decreases i,
    {
        proof {
            let longer = source@.subrange(at + i - 1, at + width);
            assert(longer.skip(1) =~= source@.subrange(at + i, at + width));
            lemma_radix_monotonic((width - i + 1) as nat, 16);
            lemma_radix_values();
        }
        i = i - 1;
        n = n * 256 + source[at + i] as u128;
    }
    n
}

/// Appends the `width` least significant bytes of `n` to `out`, least
/// significant first.
pub(crate) fn write_le(out: &mut Vec<u8>, n: u128, width: usize)
    ensures
        final(out)@ == old(out)@ + le_bytes(n as nat, width as nat),
{
    let mut rest: u128 = n;
    let mut i: usize = 0;
    while i < width
        invariant
            i <= width,
            old(out)@ + le_bytes(n as nat, width as nat) == out@ + le_bytes(
                rest as nat,
                (width - i) as nat,
            ),
        decreases width - i,
    {
        proof {
            let tail = le_bytes((rest / 256) as nat, (width - i - 1) as nat);
            assert(out@ + le_bytes(rest as nat, (width - i) as nat) =~= out@.push(
                (rest % 256) as u8,
            ) + tail);
        }
        out.push((rest % 256) as u8);
        rest = rest / 256;
        i = i + 1;
    }
}

} // verus!
