//! IEEE-754 binary64 numbers as bit patterns: classification, ordering and
//! the big-endian byte layout.

use vstd::prelude::*;

verus! {

/// The sign bit of a binary64 pattern.
pub const SIGN_BIT: u64 = 0x8000_0000_0000_0000;

/// The pattern of positive infinity; every larger magnitude is a NaN.
pub const INFINITY: u64 = 0x7ff0_0000_0000_0000;

/// The pattern of the largest finite number.
pub const MAX_FINITE: u64 = 0x7fef_ffff_ffff_ffff;

/// The pattern of the number five.
pub const FIVE: u64 = 0x4014_0000_0000_0000;

/// The pattern with the sign bit cleared.
pub open spec fn magnitude(bits: u64) -> u64 {
    if bits >= SIGN_BIT {
        (bits - SIGN_BIT) as u64
    } else {
        bits
    }
}

/// Whether the pattern is a NaN: exponent all ones and a non-zero fraction.
pub open spec fn nan(bits: u64) -> bool {
    magnitude(bits) > INFINITY
}

/// Whether the pattern is positive or negative zero.
pub open spec fn zero(bits: u64) -> bool {
    magnitude(bits) == 0
}

/// An integer that orders the patterns that are not NaN as the numbers they
/// stand for: the magnitude, negated under the sign bit. Both zeros get 0.
pub open spec fn rank(bits: u64) -> int {
    if bits >= SIGN_BIT {
        -(magnitude(bits) as int)
    } else {
        bits as int
    }
}

/// The IEEE comparison `a < b`: false as soon as either side is a NaN.
pub open spec fn below(a: u64, b: u64) -> bool {
    !nan(a) && !nan(b) && rank(a) < rank(b)
}

/// The IEEE comparison `a <= b`: false as soon as either side is a NaN.
pub open spec fn at_most(a: u64, b: u64) -> bool {
    !nan(a) && !nan(b) && rank(a) <= rank(b)
}

/// The IEEE comparison `a == b`: false as soon as either side is a NaN, and
/// true of the two zeros.
pub open spec fn same_number(a: u64, b: u64) -> bool {
    !nan(a) && !nan(b) && rank(a) == rank(b)
}

/// The pattern of the smallest number with the largest finite exponent:
/// doubling it, or anything of greater magnitude, overflows.
pub const HALF_RANGE: u64 = 0x7fe0_0000_0000_0000;

/// The pattern of the smallest normal number: below it the exponent field
/// is zero, and the fraction alone says how large the number is.
pub const MIN_NORMAL: u64 = 0x0010_0000_0000_0000;

/// The pattern of twice the number. Doubling is exact in binary64: the
/// exponent of a normal number goes up by one, the fraction of a subnormal
/// one doubles, and what would pass the largest finite number is infinity.
/// A NaN stays the NaN it is.
pub open spec fn twice(bits: u64) -> u64 {
    let size = magnitude(bits);
    let sign = bits - size;
    if size > INFINITY {
        bits
    } else if size >= HALF_RANGE {
        (sign + INFINITY) as u64
    } else if size < MIN_NORMAL {
        (sign + 2 * size) as u64
    } else {
        (bits + MIN_NORMAL) as u64
    }
}

/// The pattern with the sign bit cleared.
pub fn abs(bits: u64) -> (r: u64)
    ensures
        r == magnitude(bits),
{
    if bits >= SIGN_BIT {
        bits - SIGN_BIT
    } else {
        bits
    }
}

/// The rank of a pattern, as a machine integer.
pub fn order_key(bits: u64) -> (key: i64)
    ensures
        key == rank(bits),
{
    if bits >= SIGN_BIT {
        -((bits - SIGN_BIT) as i64)
    } else {
        bits as i64
    }
}

/// The pattern of twice the number.
pub fn doubled(bits: u64) -> (r: u64)
    ensures
        r == twice(bits),
{
    let size: u64 = abs(bits);
    let sign: u64 = bits - size;
    if size > INFINITY {
        bits
    } else if size >= HALF_RANGE {
        sign + INFINITY
    } else if size < MIN_NORMAL {
        sign + 2 * size
    } else {
        bits + MIN_NORMAL
    }
}

/// Whether the pattern is a NaN.
pub fn is_nan(bits: u64) -> (r: bool)
    ensures
        r == nan(bits),
{
    abs(bits) > INFINITY
}

/// Whether the pattern is positive or negative zero.
pub fn is_zero(bits: u64) -> (r: bool)
    ensures
        r == zero(bits),
{
    abs(bits) == 0
}

/// Whether the number of `a` is less than that of `b`.
pub fn lt(a: u64, b: u64) -> (r: bool)
    ensures
        r == below(a, b),
{
    if is_nan(a) || is_nan(b) {
        false
    } else if a >= SIGN_BIT {
        if b >= SIGN_BIT {
            // both negative: the larger magnitude is the smaller number
            a > b
        } else {
            // a is negative or minus zero, b positive or zero
            !(a == SIGN_BIT && b == 0)
        }
    } else {
        b < SIGN_BIT && a < b
    }
}

/// Whether the number of `a` is less than or equal to that of `b`.
pub fn le(a: u64, b: u64) -> (r: bool)
    ensures
        r == at_most(a, b),
{
    if is_nan(a) || is_nan(b) {
        false
    } else {
        !lt(b, a)
    }
}

/// Whether the numbers of `a` and of `b` are equal.
pub fn eq(a: u64, b: u64) -> (r: bool)
    ensures
        r == same_number(a, b),
{
    if is_nan(a) || is_nan(b) {
        false
    } else {
        a == b || (is_zero(a) && is_zero(b))
    }
}

/// The eight bytes of a pattern, most significant first.
pub open spec fn be_bytes(bits: u64) -> Seq<u8> {
    seq![
        (bits / 0x100 / 0x100 / 0x100 / 0x100 / 0x100 / 0x100 / 0x100) as u8,
        (bits / 0x100 / 0x100 / 0x100 / 0x100 / 0x100 / 0x100 % 0x100) as u8,
        (bits / 0x100 / 0x100 / 0x100 / 0x100 / 0x100 % 0x100) as u8,
        (bits / 0x100 / 0x100 / 0x100 / 0x100 % 0x100) as u8,
        (bits / 0x100 / 0x100 / 0x100 % 0x100) as u8,
        (bits / 0x100 / 0x100 % 0x100) as u8,
        (bits / 0x100 % 0x100) as u8,
        (bits % 0x100) as u8,
    ]
}

/// The pattern that the first eight bytes of `bytes` spell, most significant
/// first.
pub open spec fn from_be_bytes(bytes: Seq<u8>) -> u64
    recommends
        bytes.len() >= 8,
{
    (((((((bytes[0] as int * 0x100 + bytes[1] as int) * 0x100 + bytes[2] as int) * 0x100
        + bytes[3] as int) * 0x100 + bytes[4] as int) * 0x100 + bytes[5] as int) * 0x100
        + bytes[6] as int) * 0x100 + bytes[7] as int) as u64
}

/// Decoding what was encoded gives the pattern back.
pub proof fn be_bytes_round_trip(bits: u64)
    ensures
        be_bytes(bits).len() == 8,
        from_be_bytes(be_bytes(bits)) == bits,
{
}

/// Encoding what was decoded gives the eight bytes back.
pub proof fn from_be_bytes_round_trip(bytes: Seq<u8>)
    requires
        bytes.len() == 8,
    ensures
        be_bytes(from_be_bytes(bytes)) == bytes,
{
    let h0: int = bytes[0] as int;
    let h1: int = h0 * 0x100 + bytes[1] as int;
    let h2: int = h1 * 0x100 + bytes[2] as int;
    let h3: int = h2 * 0x100 + bytes[3] as int;
    let h4: int = h3 * 0x100 + bytes[4] as int;
    let h5: int = h4 * 0x100 + bytes[5] as int;
    let h6: int = h5 * 0x100 + bytes[6] as int;
    let h7: int = h6 * 0x100 + bytes[7] as int;
    assert(h7 / 0x100 == h6 && h7 % 0x100 == bytes[7] as int);
    assert(h6 / 0x100 == h5 && h6 % 0x100 == bytes[6] as int);
    assert(h5 / 0x100 == h4 && h5 % 0x100 == bytes[5] as int);
    assert(h4 / 0x100 == h3 && h4 % 0x100 == bytes[4] as int);
    assert(h3 / 0x100 == h2 && h3 % 0x100 == bytes[3] as int);
    assert(h2 / 0x100 == h1 && h2 % 0x100 == bytes[2] as int);
    assert(h1 / 0x100 == h0 && h1 % 0x100 == bytes[1] as int);
    assert(from_be_bytes(bytes) == h7);
    assert(be_bytes(from_be_bytes(bytes)) =~= bytes);
}

/// The byte of `bits` at place `i`, counted from the most significant.
pub fn be_byte(bits: u64, i: usize) -> (b: u8)
    requires
        i < 8,
    ensures
        b == be_bytes(bits)[i as int],
{
    let mut rest: u64 = bits;
    let mut k: usize = 7;
    while k > i
        invariant
            i <= k <= 7,
            k == 7 ==> rest == bits,
            k == 6 ==> rest == bits / 0x100,
            k == 5 ==> rest == bits / 0x100 / 0x100,
            k == 4 ==> rest == bits / 0x100 / 0x100 / 0x100,
            k == 3 ==> rest == bits / 0x100 / 0x100 / 0x100 / 0x100,
            k == 2 ==> rest == bits / 0x100 / 0x100 / 0x100 / 0x100 / 0x100,
            k == 1 ==> rest == bits / 0x100 / 0x100 / 0x100 / 0x100 / 0x100 / 0x100,
            k == 0 ==> rest == bits / 0x100 / 0x100 / 0x100 / 0x100 / 0x100 / 0x100 / 0x100,
        decreases k,
    {
        rest = rest / 0x100;
        k = k - 1;
    }
    (rest % 0x100) as u8
}

/// Appends the eight bytes of `bits` to `out`, most significant first.
pub fn push_be_bytes(out: &mut Vec<u8>, bits: u64)
    ensures
        final(out)@ == old(out)@ + be_bytes(bits),
{
    let ghost before = out@;
    let b1: u64 = bits / 0x100;
    let b2: u64 = b1 / 0x100;
    let b3: u64 = b2 / 0x100;
    let b4: u64 = b3 / 0x100;
    let b5: u64 = b4 / 0x100;
    let b6: u64 = b5 / 0x100;
    let b7: u64 = b6 / 0x100;
    out.push(b7 as u8);
    out.push((b6 % 0x100) as u8);
    out.push((b5 % 0x100) as u8);
    out.push((b4 % 0x100) as u8);
    out.push((b3 % 0x100) as u8);
    out.push((b2 % 0x100) as u8);
    out.push((b1 % 0x100) as u8);
    out.push((bits % 0x100) as u8);
    assert(out@ =~= before + be_bytes(bits));
}

/// Reads the pattern spelled by the eight bytes of `bytes` from `at` on.
pub fn read_be_bytes(bytes: &[u8], at: usize) -> (bits: u64)
    requires
        at + 8 <= bytes@.len(),
    ensures
        bits == from_be_bytes(bytes@.subrange(at as int, at + 8)),
{
    let b0: u64 = bytes[at] as u64;
    let b1: u64 = b0 * 0x100 + bytes[at + 1] as u64;
    let b2: u64 = b1 * 0x100 + bytes[at + 2] as u64;
    let b3: u64 = b2 * 0x100 + bytes[at + 3] as u64;
    let b4: u64 = b3 * 0x100 + bytes[at + 4] as u64;
    let b5: u64 = b4 * 0x100 + bytes[at + 5] as u64;
    let b6: u64 = b5 * 0x100 + bytes[at + 6] as u64;
    let b7: u64 = b6 * 0x100 + bytes[at + 7] as u64;
    b7
}

/// Appends `bytes` to `out`.
pub fn push_bytes(out: &mut Vec<u8>, bytes: &[u8])
    ensures
        final(out)@ == old(out)@ + bytes@,
{
    let mut i: usize = 0;
    while i < bytes.len()
        invariant
            i <= bytes@.len(),
            out@ == old(out)@ + bytes@.take(i as int),
        decreases bytes@.len() - i,
    {
        out.push(bytes[i]);
        assert(bytes@.take(i + 1) =~= bytes@.take(i as int).push(bytes@[i as int]));
        assert(out@ =~= old(out)@ + bytes@.take(i + 1));
        i = i + 1;
    }
    assert(bytes@.take(i as int) =~= bytes@);
}

} // verus!
