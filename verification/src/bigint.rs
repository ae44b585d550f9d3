//! Arbitrary-precision integers, held as their two's-complement little-endian
//! bytes; the arithmetic itself is done by `num_bigint`.

use num_bigint::{BigInt, BigUint};
use num_traits::{Signed, ToPrimitive};
use crate::numerals::{big_decimal_value, signed_decimal};
use vstd::prelude::*;

verus! {

/// `256^n`.
pub open spec fn byte_power(n: nat) -> int
    decreases n,
{
    if n == 0 {
        1
    } else {
        256 * byte_power((n - 1) as nat)
    }
}

/// `2^n`.
pub open spec fn pow2(n: nat) -> int
    decreases n,
{
    if n == 0 {
        1
    } else {
        2 * pow2((n - 1) as nat)
    }
}

/// The value of little-endian bytes read as an unsigned number.
pub open spec fn unsigned_le(b: Seq<u8>) -> int
    decreases b.len(),
{
    if b.len() == 0 {
        0
    } else {
        b[0] + 256 * unsigned_le(b.drop_first())
    }
}

/// The value of little-endian bytes read as a two's-complement number; no
/// bytes at all read as zero.
pub open spec fn signed_le(b: Seq<u8>) -> int {
    if b.len() > 0 && b.last() >= 128 {
        unsigned_le(b) - byte_power(b.len())
    } else {
        unsigned_le(b)
    }
}

/// The shortest two's-complement encoding: at least one byte, and no last
/// byte that only repeats the sign of the byte before it.
pub open spec fn canonical_signed(b: Seq<u8>) -> bool {
    &&& b.len() >= 1
    &&& b.len() >= 2 ==> !(b.last() == 0 && b[b.len() - 2] < 128)
    &&& b.len() >= 2 ==> !(b.last() == 255 && b[b.len() - 2] >= 128)
}

/// The shortest unsigned encoding: at least one byte, and no zero last byte
/// but for zero itself.
pub open spec fn canonical_unsigned(b: Seq<u8>) -> bool {
    &&& b.len() >= 1
    &&& b.len() >= 2 ==> b.last() != 0
}

/// Division rounding towards zero, as Rust's `/` does.
pub open spec fn trunc_div(a: int, b: int) -> int {
    let q = (if a >= 0 { a } else { -a }) / (if b >= 0 { b } else { -b });
    if (a >= 0) == (b >= 0) {
        q
    } else {
        -q
    }
}

/// The remainder that goes with `trunc_div`: it has the sign of `a`.
pub open spec fn trunc_rem(a: int, b: int) -> int {
    a - b * trunc_div(a, b)
}

/// Whether a value fits in an `i32`.
pub open spec fn fits_i32(v: int) -> bool {
    i32::MIN <= v <= i32::MAX
}

/// The absolute value of an integer.
pub open spec fn abs_int(a: int) -> int {
    if a < 0 {
        -a
    } else {
        a
    }
}

/// The bitwise AND of two integers in infinite two's complement, bit by bit
/// from the lowest: `0` has no bit set and `-1` every bit.
pub open spec fn bigint_and(a: int, b: int) -> int
    decreases abs_int(a) + abs_int(b),
{
    if a == 0 || b == 0 {
        0
    } else if a == -1 {
        b
    } else if b == -1 {
        a
    } else {
        2 * bigint_and(a / 2, b / 2) + (a % 2) * (b % 2)
    }
}

/// The bitwise XOR of two integers in infinite two's complement, bit by bit
/// from the lowest: XOR with `0` keeps the other operand, XOR with `-1`
/// flips each of its bits.
pub open spec fn bigint_xor(a: int, b: int) -> int
    decreases abs_int(a) + abs_int(b),
{
    if a == 0 {
        b
    } else if b == 0 {
        a
    } else if a == -1 {
        -1 - b
    } else if b == -1 {
        -1 - a
    } else {
        2 * bigint_xor(a / 2, b / 2) + (a % 2 + b % 2) % 2
    }
}

/// An arbitrary-precision integer.
#[derive(Clone, Debug, PartialEq, Eq)]
pub struct BigInteger {
    /// The two's-complement little-endian bytes of the value.
    pub bytes: Vec<u8>,
}

impl View for BigInteger {
    type V = int;

    open spec fn view(&self) -> int {
        signed_le(self.bytes@)
    }
}

impl BigInteger {
    /// The bytes are the shortest encoding of the value, as `num_bigint`
    /// produces them.
    pub open spec fn wf(&self) -> bool {
        canonical_signed(self.bytes@)
    }

    /// Whether the bytes are the shortest encoding of the value.
    pub fn is_canonical(&self) -> (r: bool)
        ensures
            r == self.wf(),
    {
        let n = self.bytes.len();
        if n == 0 {
            false
        } else if n == 1 {
            true
        } else {
            let last = self.bytes[n - 1];
            let prev = self.bytes[n - 2];
            !(last == 0 && prev < 128) && !(last == 255 && prev >= 128)
        }
    }
}

/// `BigInt::from(i64)`: the big integer of the same value.
#[verifier::external_body]
pub(crate) fn big_from_i64(v: i64) -> (r: BigInteger)
    ensures
        r.wf(),
        r@ == v,
{
    BigInteger { bytes: BigInt::from(v).to_signed_bytes_le() }
}

/// `BigInt::from(usize)`: the big integer of the same value.
#[verifier::external_body]
pub(crate) fn big_from_usize(v: usize) -> (r: BigInteger)
    ensures
        r.wf(),
        r@ == v,
{
    BigInteger { bytes: BigInt::from(v).to_signed_bytes_le() }
}

/// `BigInt::from_signed_bytes_le`: reads any two's-complement bytes, then
/// writes the value back in its shortest form.
#[verifier::external_body]
pub(crate) fn big_from_signed_bytes(bytes: &Vec<u8>) -> (r: BigInteger)
    ensures
        r.wf(),
        r@ == signed_le(bytes@),
{
    BigInteger { bytes: BigInt::from_signed_bytes_le(bytes).to_signed_bytes_le() }
}

/// `BigInt + BigInt`.
#[verifier::external_body]
pub(crate) fn big_add(a: &BigInteger, b: &BigInteger) -> (r: BigInteger)
    ensures
        r.wf(),
        r@ == a@ + b@,
{
    let x = BigInt::from_signed_bytes_le(&a.bytes);
    let y = BigInt::from_signed_bytes_le(&b.bytes);
    BigInteger { bytes: (x + y).to_signed_bytes_le() }
}

/// `BigInt - BigInt`.
#[verifier::external_body]
pub(crate) fn big_sub(a: &BigInteger, b: &BigInteger) -> (r: BigInteger)
    ensures
        r.wf(),
        r@ == a@ - b@,
{
    let x = BigInt::from_signed_bytes_le(&a.bytes);
    let y = BigInt::from_signed_bytes_le(&b.bytes);
    BigInteger { bytes: (x - y).to_signed_bytes_le() }
}

/// `BigInt * BigInt`.
#[verifier::external_body]
pub(crate) fn big_mul(a: &BigInteger, b: &BigInteger) -> (r: BigInteger)
    ensures
        r.wf(),
        r@ == a@ * b@,
{
    let x = BigInt::from_signed_bytes_le(&a.bytes);
    let y = BigInt::from_signed_bytes_le(&b.bytes);
    BigInteger { bytes: (x * y).to_signed_bytes_le() }
}

/// `BigInt / BigInt`, which truncates towards zero and panics on a zero
/// divisor.
#[verifier::external_body]
pub(crate) fn big_div(a: &BigInteger, b: &BigInteger) -> (r: BigInteger)
    requires
        b@ != 0,
    ensures
        r.wf(),
        r@ == trunc_div(a@, b@),
{
    let x = BigInt::from_signed_bytes_le(&a.bytes);
    let y = BigInt::from_signed_bytes_le(&b.bytes);
    BigInteger { bytes: (x / y).to_signed_bytes_le() }
}

/// `BigInt % BigInt`, whose result has the sign of the dividend, and which
/// panics on a zero divisor.
#[verifier::external_body]
pub(crate) fn big_rem(a: &BigInteger, b: &BigInteger) -> (r: BigInteger)
    requires
        b@ != 0,
    ensures
        r.wf(),
        r@ == trunc_rem(a@, b@),
{
    let x = BigInt::from_signed_bytes_le(&a.bytes);
    let y = BigInt::from_signed_bytes_le(&b.bytes);
    BigInteger { bytes: (x % y).to_signed_bytes_le() }
}

/// `BigInt & BigInt`.
#[verifier::external_body]
pub(crate) fn big_bitand(a: &BigInteger, b: &BigInteger) -> (r: BigInteger)
    ensures
        r.wf(),
        r@ == bigint_and(a@, b@),
{
    let x = BigInt::from_signed_bytes_le(&a.bytes);
    let y = BigInt::from_signed_bytes_le(&b.bytes);
    BigInteger { bytes: (x & y).to_signed_bytes_le() }
}

/// `BigInt ^ BigInt`.
#[verifier::external_body]
pub(crate) fn big_bitxor(a: &BigInteger, b: &BigInteger) -> (r: BigInteger)
    ensures
        r.wf(),
        r@ == bigint_xor(a@, b@),
{
    let x = BigInt::from_signed_bytes_le(&a.bytes);
    let y = BigInt::from_signed_bytes_le(&b.bytes);
    BigInteger { bytes: (x ^ y).to_signed_bytes_le() }
}

/// `BigInt << u32`: multiplies by a power of two, keeping the sign.
#[verifier::external_body]
pub(crate) fn big_shl(a: &BigInteger, n: u32) -> (r: BigInteger)
    ensures
        r.wf(),
        r@ == a@ * pow2(n as nat),
{
    let x = BigInt::from_signed_bytes_le(&a.bytes);
    BigInteger { bytes: (x << n).to_signed_bytes_le() }
}

/// `Signed::abs` on a `BigInt`.
#[verifier::external_body]
pub(crate) fn big_abs(a: &BigInteger) -> (r: BigInteger)
    ensures
        r.wf(),
        r@ == (if a@ >= 0 { a@ } else { -a@ }),
{
    let x = BigInt::from_signed_bytes_le(&a.bytes);
    BigInteger { bytes: x.abs().to_signed_bytes_le() }
}

/// `Signed::is_positive` on a `BigInt`: strictly greater than zero.
#[verifier::external_body]
pub(crate) fn big_is_positive(a: &BigInteger) -> (r: bool)
    ensures
        r == (a@ > 0),
{
    BigInt::from_signed_bytes_le(&a.bytes).is_positive()
}

/// `ToPrimitive::to_i32` on a `BigInt`: the value when it fits.
#[verifier::external_body]
pub(crate) fn big_to_i32(a: &BigInteger) -> (r: Option<i32>)
    ensures
        match r {
            Some(v) => a@ == v,
            None => !fits_i32(a@),
        },
{
    BigInt::from_signed_bytes_le(&a.bytes).to_i32()
}

/// `BigInt == BigInt`.
#[verifier::external_body]
pub(crate) fn big_eq(a: &BigInteger, b: &BigInteger) -> (r: bool)
    ensures
        r == (a@ == b@),
{
    BigInt::from_signed_bytes_le(&a.bytes) == BigInt::from_signed_bytes_le(&b.bytes)
}

/// `BigUint::from_bytes_le`, then `>> u32`, then `to_bytes_le`: the bytes
/// read as an unsigned number, halved `n` times, written back in shortest
/// form.
#[verifier::external_body]
pub(crate) fn unsigned_shr_bytes(bytes: &Vec<u8>, n: u32) -> (r: Vec<u8>)
    ensures
        canonical_unsigned(r@),
        unsigned_le(r@) == unsigned_le(bytes@) / pow2(n as nat),
{
    (BigUint::from_bytes_le(bytes) >> n).to_bytes_le()
}

/// `BigInt::from_str`: the number of a decimal numeral (see
/// `big_decimal_value`), in its shortest encoding; `None` for any other
/// string.
#[verifier::external_body]
pub(crate) fn big_from_str(s: &str) -> (r: Option<BigInteger>)
    ensures
        r is Some <==> big_decimal_value(s@) is Some,
        r matches Some(b) ==> b.wf() && b@ == big_decimal_value(s@)->Some_0,
{
    match s.parse::<BigInt>() {
        Ok(b) => Some(BigInteger { bytes: b.to_signed_bytes_le() }),
        Err(_) => None,
    }
}

/// `BigInt::to_string`: the decimal numeral of the value, after a `-` when
/// it is negative.
#[verifier::external_body]
pub(crate) fn big_to_string(a: &BigInteger) -> (r: String)
    ensures
        r@ == signed_decimal(a@),
{
    BigInt::from_signed_bytes_le(&a.bytes).to_string()
}

} // verus!
