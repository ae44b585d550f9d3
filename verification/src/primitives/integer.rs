//! Primitives of the `Integer` class.

use crate::bigint::{
    BigInteger, big_abs, big_add, big_bitand, big_bitxor, big_div, big_eq, big_from_i64,
    big_from_signed_bytes, big_is_positive, big_mul, big_rem, big_shl, big_sub, big_to_i32,
    bigint_and, bigint_xor, canonical_signed, canonical_unsigned, fits_i32, pow2, signed_le,
    trunc_div, trunc_rem, unsigned_le, unsigned_shr_bytes, big_from_str, big_to_string,
};
use crate::primitives::{PrimInfo, PrimitiveError, find_in_table, find_primitive};
use rand::Rng;
use crate::numerals::{
    big_decimal_value, decimal, decimal_value, lemma_decimal_reads_as_big, parse_i32, signed_decimal, to_decimal,
};
use vstd::prelude::*;

verus! {

/// The built-in methods of `Integer`.
#[derive(Clone, Copy, Debug, PartialEq, Eq, Structural)]
pub enum IntegerPrimitive {
    Lt,
    LtOrEq,
    Gt,
    GtOrEq,
    Eq,
    Uneq,
    EqEq,
    Plus,
    Minus,
    Times,
    Divide,
    DivideFloat,
    Modulo,
    Remainder,
    BitAnd,
    ShiftLeft,
    ShiftRight,
    BitXor,
    Sqrt,
    Max,
    Min,
    Abs,
    AsString,
    AsDouble,
    AtRandom,
    As32BitSignedValue,
    As32BitUnsignedValue,
    To,
    FromString,
}

/// The instance-side table.
pub open spec fn instance_table() -> Seq<PrimInfo<IntegerPrimitive>> {
    seq![
        ("<", IntegerPrimitive::Lt, true),
        ("<=", IntegerPrimitive::LtOrEq, true),
        (">", IntegerPrimitive::Gt, true),
        (">=", IntegerPrimitive::GtOrEq, true),
        ("=", IntegerPrimitive::Eq, true),
        ("~=", IntegerPrimitive::Uneq, true),
        ("<>", IntegerPrimitive::Uneq, true),
        ("==", IntegerPrimitive::EqEq, true),
        ("+", IntegerPrimitive::Plus, true),
        ("-", IntegerPrimitive::Minus, true),
        ("*", IntegerPrimitive::Times, true),
        ("/", IntegerPrimitive::Divide, true),
        ("//", IntegerPrimitive::DivideFloat, true),
        ("%", IntegerPrimitive::Modulo, true),
        ("rem:", IntegerPrimitive::Remainder, true),
        ("&", IntegerPrimitive::BitAnd, true),
        ("<<", IntegerPrimitive::ShiftLeft, true),
        (">>>", IntegerPrimitive::ShiftRight, true),
        ("bitXor:", IntegerPrimitive::BitXor, true),
        ("sqrt", IntegerPrimitive::Sqrt, true),
        ("max:", IntegerPrimitive::Max, true),
        ("min:", IntegerPrimitive::Min, true),
        ("abs:", IntegerPrimitive::Abs, true),
        ("asString", IntegerPrimitive::AsString, true),
        ("asDouble", IntegerPrimitive::AsDouble, true),
        ("atRandom", IntegerPrimitive::AtRandom, true),
        ("as32BitSignedValue", IntegerPrimitive::As32BitSignedValue, true),
        ("as32BitUnsignedValue", IntegerPrimitive::As32BitUnsignedValue, true),
        ("to:", IntegerPrimitive::To, true),
    ]
}

/// The class-side table.
pub open spec fn class_table() -> Seq<PrimInfo<IntegerPrimitive>> {
    seq![
        ("fromString:", IntegerPrimitive::FromString, true),
    ]
}

/// The instance-side primitives of `Integer`, in lookup order.
pub fn instance_primitives() -> (r: Vec<PrimInfo<IntegerPrimitive>>)
    ensures
        r@ == instance_table(),
{
    vec![
        ("<", IntegerPrimitive::Lt, true),
        ("<=", IntegerPrimitive::LtOrEq, true),
        (">", IntegerPrimitive::Gt, true),
        (">=", IntegerPrimitive::GtOrEq, true),
        ("=", IntegerPrimitive::Eq, true),
        ("~=", IntegerPrimitive::Uneq, true),
        ("<>", IntegerPrimitive::Uneq, true),
        ("==", IntegerPrimitive::EqEq, true),
        ("+", IntegerPrimitive::Plus, true),
        ("-", IntegerPrimitive::Minus, true),
        ("*", IntegerPrimitive::Times, true),
        ("/", IntegerPrimitive::Divide, true),
        ("//", IntegerPrimitive::DivideFloat, true),
        ("%", IntegerPrimitive::Modulo, true),
        ("rem:", IntegerPrimitive::Remainder, true),
        ("&", IntegerPrimitive::BitAnd, true),
        ("<<", IntegerPrimitive::ShiftLeft, true),
        (">>>", IntegerPrimitive::ShiftRight, true),
        ("bitXor:", IntegerPrimitive::BitXor, true),
        ("sqrt", IntegerPrimitive::Sqrt, true),
        ("max:", IntegerPrimitive::Max, true),
        ("min:", IntegerPrimitive::Min, true),
        ("abs:", IntegerPrimitive::Abs, true),
        ("asString", IntegerPrimitive::AsString, true),
        ("asDouble", IntegerPrimitive::AsDouble, true),
        ("atRandom", IntegerPrimitive::AtRandom, true),
        ("as32BitSignedValue", IntegerPrimitive::As32BitSignedValue, true),
        ("as32BitUnsignedValue", IntegerPrimitive::As32BitUnsignedValue, true),
        ("to:", IntegerPrimitive::To, true),
    ]
}

/// The class-side primitives of `Integer`, in lookup order.
pub fn class_primitives() -> (r: Vec<PrimInfo<IntegerPrimitive>>)
    ensures
        r@ == class_table(),
{
    vec![
        ("fromString:", IntegerPrimitive::FromString, true),
    ]
}

/// The answer of a comparison primitive on two integers of values `x` and
/// `y`; `None` for a primitive that is no comparison.
pub open spec fn comparison(p: IntegerPrimitive, x: int, y: int) -> Option<bool> {
    match p {
        IntegerPrimitive::Lt => Some(x < y),
        IntegerPrimitive::LtOrEq => Some(x <= y),
        IntegerPrimitive::Gt => Some(x > y),
        IntegerPrimitive::GtOrEq => Some(x >= y),
        IntegerPrimitive::Eq => Some(x == y),
        IntegerPrimitive::Uneq => Some(x != y),
        _ => None,
    }
}

/// Each comparison selector of the instance table finds the primitive that
/// compares two integers the way the selector reads: `<` answers whether
/// the receiver is less than the argument, `<=` whether it is less or
/// equal, `>` greater, `>=` greater or equal, `=` equal, and `~=` and `<>`
/// whether they differ.
pub proof fn lemma_comparison_selectors_compare_as_they_read(x: int, y: int)
    ensures
        find_in_table(instance_table(), "<"@) matches Some(p) && comparison(p, x, y) == Some(x < y),
        find_in_table(instance_table(), "<="@) matches Some(p) && comparison(p, x, y) == Some(x <= y),
        find_in_table(instance_table(), ">"@) matches Some(p) && comparison(p, x, y) == Some(x > y),
        find_in_table(instance_table(), ">="@) matches Some(p) && comparison(p, x, y) == Some(x >= y),
        find_in_table(instance_table(), "="@) matches Some(p) && comparison(p, x, y) == Some(x == y),
        find_in_table(instance_table(), "~="@) matches Some(p) && comparison(p, x, y) == Some(x != y),
        find_in_table(instance_table(), "<>"@) matches Some(p) && comparison(p, x, y) == Some(x != y),
{
    reveal_strlit("<");
    reveal_strlit("<=");
    reveal_strlit(">");
    reveal_strlit(">=");
    reveal_strlit("=");
    reveal_strlit("~=");
    reveal_strlit("<>");
    let t = instance_table();
    reveal_with_fuel(find_in_table, 8);
    assert(t.drop_first()[0] == t[1]);
    assert(t.drop_first().drop_first()[0] == t[2]);
    assert(t.drop_first().drop_first().drop_first()[0] == t[3]);
    assert(t.drop_first().drop_first().drop_first().drop_first()[0] == t[4]);
    assert(t.drop_first().drop_first().drop_first().drop_first().drop_first()[0] == t[5]);
    assert(t.drop_first().drop_first().drop_first().drop_first().drop_first().drop_first()[0] == t[6]);
    assert("<"@.len() == 1 && ">"@.len() == 1 && "="@.len() == 1);
    assert("<="@.len() == 2 && ">="@.len() == 2 && "~="@.len() == 2 && "<>"@.len() == 2);
    assert("<"@ != ">"@) by {
        assert("<"@[0] != ">"@[0]);
    }
    assert("<"@ != "="@) by {
        assert("<"@[0] != "="@[0]);
    }
    assert(">"@ != "="@) by {
        assert(">"@[0] != "="@[0]);
    }
    assert("<="@ != ">="@) by {
        assert("<="@[0] != ">="@[0]);
    }
    assert("<="@ != "~="@) by {
        assert("<="@[0] != "~="@[0]);
    }
    assert("<="@ != "<>"@) by {
        assert("<="@[1] != "<>"@[1]);
    }
    assert(">="@ != "~="@) by {
        assert(">="@[0] != "~="@[0]);
    }
    assert(">="@ != "<>"@) by {
        assert(">="@[0] != "<>"@[0]);
    }
    assert("~="@ != "<>"@) by {
        assert("~="@[0] != "<>"@[0]);
    }
}

/// The comparison primitives (`<`, `<=`, `>`, `>=`, `=`, `~=`, `<>`) on two
/// integers, boxed or not; `None` for any other primitive.
pub fn compare(p: IntegerPrimitive, a: &IntegerLike, b: &IntegerLike) -> (r: Option<bool>)
    requires
        a.wf(),
        b.wf(),
    ensures
        r == comparison(p, a.value(), b.value()),
{
    let (less, equal) = match (a, b) {
        (IntegerLike::Integer(x), IntegerLike::Integer(y)) => (*x < *y, *x == *y),
        _ => {
            let d = big_sub(&to_big(a), &to_big(b));
            let zero = big_from_i64(0);
            let equal = big_eq(&d, &zero);
            (!big_is_positive(&d) && !equal, equal)
        },
    };
    match p {
        IntegerPrimitive::Lt => Some(less),
        IntegerPrimitive::LtOrEq => Some(less || equal),
        IntegerPrimitive::Gt => Some(!less && !equal),
        IntegerPrimitive::GtOrEq => Some(!less),
        IntegerPrimitive::Eq => Some(equal),
        IntegerPrimitive::Uneq => Some(!equal),
        _ => None,
    }
}

/// Search for an instance primitive matching the given signature.
pub fn get_instance_primitive(signature: &str) -> (r: Option<IntegerPrimitive>)
    ensures
        r == find_in_table(instance_table(), signature@),
{
    find_primitive(&instance_primitives(), signature)
}

/// Search for a class primitive matching the given signature.
pub fn get_class_primitive(signature: &str) -> (r: Option<IntegerPrimitive>)
    ensures
        r == find_in_table(class_table(), signature@),
{
    find_primitive(&class_primitives(), signature)
}

} // verus!

verus! {

/// An integer as the interpreter holds it: unboxed when it fits in 32 bits,
/// boxed as a big integer otherwise.
#[derive(Clone, Debug, PartialEq, Eq)]
pub enum IntegerLike {
    Integer(i32),
    BigInteger(BigInteger),
}

impl IntegerLike {
    /// The mathematical value.
    pub open spec fn value(&self) -> int {
        match self {
            IntegerLike::Integer(v) => *v as int,
            IntegerLike::BigInteger(b) => b@,
        }
    }

    /// A boxed integer is in the shortest encoding.
    pub open spec fn wf(&self) -> bool {
        match self {
            IntegerLike::Integer(_) => true,
            IntegerLike::BigInteger(b) => b.wf(),
        }
    }

    /// Boxed only when it does not fit in 32 bits.
    pub open spec fn demoted(&self) -> bool {
        match self {
            IntegerLike::Integer(_) => true,
            IntegerLike::BigInteger(b) => b.wf() && !fits_i32(b@),
        }
    }
}

/// Unboxes a big integer whose value fits in 32 bits.
pub fn demote(b: BigInteger) -> (r: IntegerLike)
    requires
        b.wf(),
    ensures
        r.value() == b@,
        r.demoted(),
{
    match big_to_i32(&b) {
        Some(v) => IntegerLike::Integer(v),
        None => IntegerLike::BigInteger(b),
    }
}

/// The value as a big integer.
fn to_big(a: &IntegerLike) -> (r: BigInteger)
    requires
        a.wf(),
    ensures
        r.wf(),
        r@ == a.value(),
{
    match a {
        IntegerLike::Integer(v) => big_from_i64(*v as i64),
        IntegerLike::BigInteger(b) => {
            let bytes = b.bytes.clone();
            assert(bytes@ =~= b.bytes@);
            BigInteger { bytes }
        },
    }
}

/// `Integer>>#+`: the exact sum, unboxed when it fits.
pub fn plus(a: &IntegerLike, b: &IntegerLike) -> (r: IntegerLike)
    requires
        a.wf(),
        b.wf(),
    ensures
        r.value() == a.value() + b.value(),
        r.demoted(),
{
    match (a, b) {
        (IntegerLike::Integer(x), IntegerLike::Integer(y)) => match x.checked_add(*y) {
            Some(v) => IntegerLike::Integer(v),
            None => demote(big_add(&big_from_i64(*x as i64), &big_from_i64(*y as i64))),
        },
        _ => demote(big_add(&to_big(a), &to_big(b))),
    }
}

/// `Integer>>#-`: the exact difference, unboxed when it fits.
pub fn minus(a: &IntegerLike, b: &IntegerLike) -> (r: IntegerLike)
    requires
        a.wf(),
        b.wf(),
    ensures
        r.value() == a.value() - b.value(),
        r.demoted(),
{
    match (a, b) {
        (IntegerLike::Integer(x), IntegerLike::Integer(y)) => match x.checked_sub(*y) {
            Some(v) => IntegerLike::Integer(v),
            None => demote(big_sub(&big_from_i64(*x as i64), &big_from_i64(*y as i64))),
        },
        _ => demote(big_sub(&to_big(a), &to_big(b))),
    }
}

/// `Integer>>#*`: the exact product, unboxed when it fits.
pub fn times(a: &IntegerLike, b: &IntegerLike) -> (r: IntegerLike)
    requires
        a.wf(),
        b.wf(),
    ensures
        r.value() == a.value() * b.value(),
        r.demoted(),
{
    match (a, b) {
        (IntegerLike::Integer(x), IntegerLike::Integer(y)) => match x.checked_mul(*y) {
            Some(v) => IntegerLike::Integer(v),
            None => demote(big_mul(&big_from_i64(*x as i64), &big_from_i64(*y as i64))),
        },
        _ => demote(big_mul(&to_big(a), &to_big(b))),
    }
}

/// `Integer>>#/`: the quotient rounded towards zero, unboxed when it fits.
pub fn divide(a: &IntegerLike, b: &IntegerLike) -> (r: IntegerLike)
    requires
        a.wf(),
        b.wf(),
        b.value() != 0,
    ensures
        r.value() == trunc_div(a.value(), b.value()),
        r.demoted(),
{
    match (a, b) {
        (IntegerLike::Integer(x), IntegerLike::Integer(y)) => match x.checked_div(*y) {
            Some(v) => {
                proof {
                    lemma_checked_div_is_trunc_div(*x as int, *y as int);
                }
                IntegerLike::Integer(v)
            },
            None => demote(big_div(&big_from_i64(*x as i64), &big_from_i64(*y as i64))),
        },
        _ => demote(big_div(&to_big(a), &to_big(b))),
    }
}

/// The quotient `checked_div` computes is `trunc_div`.
proof fn lemma_checked_div_is_trunc_div(x: int, d: int)
    requires
        d != 0,
    ensures
        trunc_div(x, d) == (if x == 0 {
            0
        } else if x > 0 && d > 0 {
            x / d
        } else if x < 0 && d < 0 {
            (x * -1) / (d * -1)
        } else if x < 0 {
            ((x * -1) / d) * -1
        } else {
            (x / (d * -1)) * -1
        }),
{
}

/// The sign of a number: `-1`, `0` or `1`.
fn signum(x: i32) -> (r: i32)
    ensures
        r == (if x > 0 {
            1int
        } else if x < 0 {
            -1int
        } else {
            0int
        }),
{
    if x > 0 {
        1
    } else if x < 0 {
        -1
    } else {
        0
    }
}

/// Euclid's division of a natural number by a positive one.
proof fn lemma_div_basics(ax: int, ad: int)
    requires
        ax >= 0,
        ad > 0,
    ensures
        ax == ad * (ax / ad) + ax % ad,
        0 <= ax % ad < ad,
        ax / ad >= 0,
        ax < ad ==> ax / ad == 0,
{
    assert(ax == ad * (ax / ad) + ax % ad && 0 <= ax % ad < ad && ax / ad >= 0) by (nonlinear_arith)
        requires
            ax >= 0,
            ad > 0,
    ;
    assert(ax < ad ==> ax / ad == 0) by (nonlinear_arith)
        requires
            ax >= 0,
            ad > 0,
    ;
}

/// `trunc_rem` is the remainder of the magnitudes, with the sign of the
/// dividend.
proof fn lemma_trunc_rem_magnitude(x: int, d: int)
    requires
        d != 0,
    ensures
        x >= 0 ==> trunc_rem(x, d) == (if x >= 0 { x } else { -x }) % (if d >= 0 { d } else { -d }),
        x < 0 ==> trunc_rem(x, d) == -((if x >= 0 { x } else { -x }) % (if d >= 0 { d } else { -d })),
{
    let ax = if x >= 0 { x } else { -x };
    let ad = if d >= 0 { d } else { -d };
    let q = ax / ad;
    lemma_div_basics(ax, ad);
    let t = trunc_div(x, d);
    assert(t == (if (x >= 0) == (d >= 0) { q } else { -q }));
    assert(d * t == (if x >= 0 { ad * q } else { -(ad * q) })) by (nonlinear_arith)
        requires
            t == (if (x >= 0) == (d >= 0) { q } else { -q }),
            ad == (if d >= 0 { d } else { -d }),
            d != 0,
    ;
}

/// The remainder `checked_rem` computes is `trunc_rem`, and it is smaller than
/// the divisor in magnitude.
proof fn lemma_checked_rem_is_trunc_rem(x: int, d: int)
    requires
        d != 0,
    ensures
        trunc_rem(x, d) == (if x == 0 {
            0
        } else if x > 0 && d > 0 {
            x % d
        } else if x < 0 && d < 0 {
            ((x * -1) % (d * -1)) * -1
        } else if x < 0 {
            ((x * -1) % d) * -1
        } else {
            x % (d * -1)
        }),
        -(if d >= 0 { d } else { -d }) < trunc_rem(x, d) < (if d >= 0 { d } else { -d }),
        x > 0 ==> trunc_rem(x, d) >= 0,
        x < 0 ==> trunc_rem(x, d) <= 0,
        x == 0 ==> trunc_rem(x, d) == 0,
{
    let ax = if x >= 0 { x } else { -x };
    let ad = if d >= 0 { d } else { -d };
    lemma_trunc_rem_magnitude(x, d);
    lemma_div_basics(ax, ad);
    assert(x * -1 == -x);
    assert(d * -1 == -d);
}

/// A number strictly smaller than the divisor in magnitude is its own
/// remainder.
proof fn lemma_trunc_rem_small(x: int, d: int)
    requires
        d != 0,
        -(if d >= 0 { d } else { -d }) < x < (if d >= 0 { d } else { -d }),
    ensures
        trunc_rem(x, d) == x,
{
    let ax = if x >= 0 { x } else { -x };
    let ad = if d >= 0 { d } else { -d };
    lemma_trunc_rem_magnitude(x, d);
    lemma_div_basics(ax, ad);
    assert(ax % ad == ax) by (nonlinear_arith)
        requires
            0 <= ax < ad,
    ;
}

/// A nonzero number divides itself.
proof fn lemma_trunc_rem_self(d: int)
    requires
        d != 0,
    ensures
        trunc_rem(d, d) == 0,
{
    let ad = if d >= 0 { d } else { -d };
    lemma_trunc_rem_magnitude(d, d);
    assert(ad % ad == 0) by (nonlinear_arith)
        requires
            ad > 0,
    ;
}

/// The result of `Integer>>#%`: the remainder of the division rounded towards
/// zero, moved into the sign of the divisor.
pub open spec fn som_modulo(a: int, b: int) -> int {
    let r = trunc_rem(a, b);
    if r != 0 && (r < 0) != (b < 0) {
        r + b
    } else {
        r
    }
}

/// `Integer>>#%`: the remainder with the sign of the divisor, unboxed when it
/// fits.
pub fn modulo(a: &IntegerLike, b: i32) -> (r: IntegerLike)
    requires
        a.wf(),
        b != 0,
        a matches IntegerLike::Integer(x) ==> !(x == i32::MIN && b == -1),
    ensures
        r.value() == som_modulo(a.value(), b as int),
        r.demoted(),
{
    match a {
        IntegerLike::Integer(x) => {
            proof {
                lemma_checked_rem_is_trunc_rem(*x as int, b as int);
            }
            let res = x.checked_rem(b).unwrap();
            if signum(res) != signum(b) {
                proof {
                    lemma_checked_rem_is_trunc_rem(res + b, b as int);
                    if res == 0 {
                        lemma_trunc_rem_self(b as int);
                    } else {
                        lemma_trunc_rem_small(res + b, b as int);
                    }
                }
                let res2 = (res + b).checked_rem(b).unwrap();
                IntegerLike::Integer(res2)
            } else {
                IntegerLike::Integer(res)
            }
        },
        IntegerLike::BigInteger(big) => {
            let divisor = big_from_i64(b as i64);
            let res = big_rem(big, &divisor);
            proof {
                lemma_checked_rem_is_trunc_rem(big@, b as int);
            }
            if big_is_positive(&res) != (b > 0) {
                proof {
                    lemma_checked_rem_is_trunc_rem(res@ + b, b as int);
                    if res@ == 0 {
                        lemma_trunc_rem_self(b as int);
                    } else {
                        lemma_trunc_rem_small(res@ + b, b as int);
                    }
                }
                demote(big_rem(&big_add(&res, &divisor), &divisor))
            } else {
                demote(res)
            }
        },
    }
}

/// `Integer>>#rem:`: the remainder of the division rounded towards zero.
pub fn remainder(a: i32, b: i32) -> (r: i32)
    requires
        b != 0,
        !(a == i32::MIN && b == -1),
    ensures
        r == trunc_rem(a as int, b as int),
{
    proof {
        lemma_checked_rem_is_trunc_rem(a as int, b as int);
    }
    let result = a.checked_rem(b).unwrap();
    if signum(result) != signum(a) {
        proof {
            lemma_checked_rem_is_trunc_rem(result + a, a as int);
            lemma_trunc_rem_self(a as int);
        }
        (result + a).checked_rem(a).unwrap()
    } else {
        result
    }
}

/// `Integer>>#&`: the bitwise AND; two unboxed operands give an unboxed
/// result, otherwise the big-integer AND, unboxed when it fits.
pub fn bitand(a: &IntegerLike, b: &IntegerLike) -> (r: IntegerLike)
    requires
        a.wf(),
        b.wf(),
    ensures
        r.demoted(),
        match (a, b) {
            (IntegerLike::Integer(x), IntegerLike::Integer(y)) => r == IntegerLike::Integer(*x & *y),
            _ => r.value() == bigint_and(a.value(), b.value()),
        },
{
    match (a, b) {
        (IntegerLike::Integer(x), IntegerLike::Integer(y)) => IntegerLike::Integer(*x & *y),
        _ => demote(big_bitand(&to_big(a), &to_big(b))),
    }
}

/// `Integer>>#bitXor:`: the bitwise XOR; two unboxed operands give an unboxed
/// result, otherwise the big-integer XOR, unboxed when it fits.
pub fn bitxor(a: &IntegerLike, b: &IntegerLike) -> (r: IntegerLike)
    requires
        a.wf(),
        b.wf(),
    ensures
        r.demoted(),
        match (a, b) {
            (IntegerLike::Integer(x), IntegerLike::Integer(y)) => r == IntegerLike::Integer(*x ^ *y),
            _ => r.value() == bigint_xor(a.value(), b.value()),
        },
{
    match (a, b) {
        (IntegerLike::Integer(x), IntegerLike::Integer(y)) => IntegerLike::Integer(*x ^ *y),
        _ => demote(big_bitxor(&to_big(a), &to_big(b))),
    }
}

/// `Integer>>#<<`: an unboxed receiver is widened to 64 bits (as an unsigned
/// number) and shifted there when the shift is under 64; a result over
/// `i32::MAX` is then boxed as its signed 64-bit reading. A boxed receiver,
/// or a longer shift, multiplies by a power of two.
pub fn shift_left(a: &IntegerLike, b: i32) -> (r: IntegerLike)
    requires
        a.wf(),
    ensures
        r.wf(),
        match a {
            IntegerLike::Integer(x) if (b as u32) < 64 => {
                let v = (x as u64) << (b as u32);
                if v <= i32::MAX {
                    r == IntegerLike::Integer(v as i32)
                } else {
                    r is BigInteger && r.value() == v as i64
                }
            },
            _ => r.value() == a.value() * pow2((b as u32) as nat) && r.demoted(),
        },
{
    let s = b as u32;
    match a {
        IntegerLike::Integer(x) => {
            if s < 64 {
                let v: u64 = (*x as u64) << s;
                if v <= i32::MAX as u64 {
                    IntegerLike::Integer(v as i32)
                } else {
                    IntegerLike::BigInteger(big_from_i64(v as i64))
                }
            } else {
                demote(big_shl(&big_from_i64(*x as i64), s))
            }
        },
        IntegerLike::BigInteger(big) => demote(big_shl(big, s)),
    }
}

/// The result of shifting the two's-complement bytes of `a` right by `s`
/// bits as an unsigned number, read back as a two's-complement number: the
/// shortest bytes of `a`, shifted, written in shortest unsigned form, then
/// read as signed.
pub open spec fn unsigned_shift_right(a: int, s: nat, result: int) -> bool {
    exists|enc: Seq<u8>, shifted: Seq<u8>|
        {
            &&& canonical_signed(enc)
            &&& signed_le(enc) == a
            &&& canonical_unsigned(shifted)
            &&& unsigned_le(shifted) == unsigned_le(enc) / pow2(s)
            &&& result == signed_le(shifted)
        }
}

/// Shifts the bytes of a big integer right as an unsigned number and reads
/// the result back as a signed one.
fn shift_bytes_right(enc: &Vec<u8>, s: u32) -> (r: IntegerLike)
    requires
        canonical_signed(enc@),
    ensures
        r.demoted(),
        unsigned_shift_right(signed_le(enc@), s as nat, r.value()),
{
    let shifted = unsigned_shr_bytes(enc, s);
    let r = demote(big_from_signed_bytes(&shifted));
    assert(canonical_signed(enc@) && signed_le(enc@) == signed_le(enc@) && canonical_unsigned(shifted@)
        && unsigned_le(shifted@) == unsigned_le(enc@) / pow2(s as nat) && r.value() == signed_le(shifted@));
    r
}

/// `Integer>>#>>>`: an unboxed receiver is widened to 64 bits (as an
/// unsigned number) and shifted there when the shift is under 64; a result
/// over `i32::MAX` is then boxed as its low 32 bits read as signed. A boxed
/// receiver, or a longer shift, shifts the two's-complement bytes as an
/// unsigned number.
pub fn shift_right(a: &IntegerLike, b: i32) -> (r: IntegerLike)
    requires
        a.wf(),
    ensures
        r.wf(),
        match a {
            IntegerLike::Integer(x) if (b as u32) < 64 => {
                let v = (x as u64) >> (b as u32);
                if v <= i32::MAX {
                    r == IntegerLike::Integer(v as i32)
                } else {
                    r is BigInteger && r.value() == v as i32
                }
            },
            _ => unsigned_shift_right(a.value(), (b as u32) as nat, r.value()) && r.demoted(),
        },
{
    let s = b as u32;
    match a {
        IntegerLike::Integer(x) => {
            if s < 64 {
                let v: u64 = (*x as u64) >> s;
                if v <= i32::MAX as u64 {
                    IntegerLike::Integer(v as i32)
                } else {
                    IntegerLike::BigInteger(big_from_i64((v as i32) as i64))
                }
            } else {
                let big = big_from_i64(*x as i64);
                shift_bytes_right(&big.bytes, s)
            }
        },
        IntegerLike::BigInteger(big) => shift_bytes_right(&big.bytes, s),
    }
}

/// `Integer>>#abs:`: a boxed receiver gives its absolute value, still boxed;
/// an unboxed receiver is given back as it is.
pub fn abs(a: &IntegerLike) -> (r: IntegerLike)
    requires
        a.wf(),
    ensures
        r.wf(),
        match a {
            IntegerLike::Integer(x) => r == IntegerLike::Integer(*x),
            IntegerLike::BigInteger(big) => r is BigInteger && r.value() == (if big@ >= 0 {
                big@
            } else {
                -big@
            }),
        },
{
    match a {
        IntegerLike::Integer(x) => IntegerLike::Integer(*x),
        IntegerLike::BigInteger(big) => IntegerLike::BigInteger(big_abs(big)),
    }
}

/// The byte at `i`, or zero past the end.
pub open spec fn byte_or_zero(b: Seq<u8>, i: int) -> int {
    if 0 <= i < b.len() {
        b[i] as int
    } else {
        0
    }
}

/// The first four bytes, padded with zeros, read as a little-endian unsigned
/// 32-bit number.
pub open spec fn low_word(b: Seq<u8>) -> int {
    byte_or_zero(b, 0) + 256 * byte_or_zero(b, 1) + 65536 * byte_or_zero(b, 2) + 16777216
        * byte_or_zero(b, 3)
}

/// A 32-bit pattern read as a signed number.
pub open spec fn as_signed_word(w: int) -> int {
    if w >= 0x8000_0000 {
        w - 0x1_0000_0000
    } else {
        w
    }
}

/// The low 32 bits of the two's-complement bytes of a big integer, padded
/// with zeros, as an unsigned number.
fn low_word_of(bytes: &Vec<u8>) -> (r: u32)
    ensures
        r == low_word(bytes@),
{
    let n = bytes.len();
    let b0: u32 = if n > 0 { bytes[0] as u32 } else { 0 };
    let b1: u32 = if n > 1 { bytes[1] as u32 } else { 0 };
    let b2: u32 = if n > 2 { bytes[2] as u32 } else { 0 };
    let b3: u32 = if n > 3 { bytes[3] as u32 } else { 0 };
    b0 + 256 * b1 + 65536 * b2 + 16777216 * b3
}

/// `Integer>>#as32BitSignedValue`: an unboxed receiver as it is; a boxed one
/// gives the first four bytes of its two's-complement encoding, padded with
/// zeros, read as a signed number.
pub fn as_32bit_signed_value(a: &IntegerLike) -> (r: i32)
    ensures
        match a {
            IntegerLike::Integer(x) => r == x,
            IntegerLike::BigInteger(big) => r == as_signed_word(low_word(big.bytes@)),
        },
{
    match a {
        IntegerLike::Integer(x) => *x,
        IntegerLike::BigInteger(big) => {
            let w = low_word_of(&big.bytes);
            let s: i64 = if w >= 0x8000_0000 { w as i64 - 0x1_0000_0000 } else { w as i64 };
            s as i32
        },
    }
}

/// `Integer>>#as32BitUnsignedValue`: the low 32 bits as an unsigned number
/// (for an unboxed receiver, its two's-complement bits; for a boxed one, the
/// first four bytes of its encoding padded with zeros), unboxed when it fits.
pub fn as_32bit_unsigned_value(a: &IntegerLike) -> (r: IntegerLike)
    ensures
        r.demoted(),
        match a {
            IntegerLike::Integer(x) => r.value() == (if x >= 0 {
                x as int
            } else {
                x + 0x1_0000_0000
            }),
            IntegerLike::BigInteger(big) => r.value() == low_word(big.bytes@),
        },
{
    let w: u32 = match a {
        IntegerLike::Integer(x) => {
            if *x >= 0 {
                *x as u32
            } else {
                (*x as i64 + 0x1_0000_0000) as u32
            }
        },
        IntegerLike::BigInteger(big) => low_word_of(&big.bytes),
    };
    if w <= i32::MAX as u32 {
        IntegerLike::Integer(w as i32)
    } else {
        IntegerLike::BigInteger(big_from_i64(w as i64))
    }
}

/// `Integer>>#==`: two unboxed integers of the same value, or two boxed
/// integers of the same value; an unboxed and a boxed integer are never
/// identical.
pub fn eq_eq(a: &IntegerLike, b: &IntegerLike) -> (r: bool)
    ensures
        r == match (a, b) {
            (IntegerLike::Integer(x), IntegerLike::Integer(y)) => x == y,
            (IntegerLike::BigInteger(x), IntegerLike::BigInteger(y)) => x@ == y@,
            _ => false,
        },
{
    match (a, b) {
        (IntegerLike::Integer(x), IntegerLike::Integer(y)) => *x == *y,
        (IntegerLike::BigInteger(x), IntegerLike::BigInteger(y)) => big_eq(x, y),
        _ => false,
    }
}

/// `Integer>>#to:`: the integers from `a` to `b`, both included, in order.
pub fn to(a: i32, b: i32) -> (r: Vec<i32>)
    requires
        b < a || b - a < usize::MAX,
    ensures
        r@.len() == (if b < a { 0 } else { b - a + 1 }),
        forall|i: int| 0 <= i < r@.len() ==> r@[i] == a + i,
{
    let mut r: Vec<i32> = Vec::new();
    if b < a {
        return r;
    }
    let n: i64 = b as i64 - a as i64 + 1;
    let mut k: i64 = 0;
    while k < n
        invariant
            n == b - a + 1,
            0 <= k <= n,
            r@.len() == k,
            forall|i: int| 0 <= i < k ==> r@[i] == a + i,
        decreases n - k,
    {
        r.push((a as i64 + k) as i32);
        k += 1;
    }
    r
}

/// `Rng::random_range(0..=max)` on the thread-local generator: some number
/// from zero to `max`, both included.
#[verifier::external_body]
fn random_up_to(max: i32) -> (r: i32)
    requires
        max >= 0,
    ensures
        0 <= r <= max,
{
    rand::rng().random_range(0..=max)
}

/// `Integer>>#atRandom`: a random number from zero to the receiver; a boxed
/// receiver is refused, its range being too large.
pub fn at_random(a: &IntegerLike) -> (r: Result<i32, PrimitiveError>)
    requires
        a matches IntegerLike::Integer(x) ==> x >= 0,
    ensures
        match a {
            IntegerLike::Integer(x) => r matches Ok(v) && 0 <= v <= *x,
            IntegerLike::BigInteger(_) => r == Err::<i32, PrimitiveError>(PrimitiveError::RangeTooBig),
        },
{
    match a {
        IntegerLike::Integer(x) => Ok(random_up_to(*x)),
        IntegerLike::BigInteger(_) => Err(PrimitiveError::RangeTooBig),
    }
}

/// `Integer class>>#fromString:`: the number a numeral denotes, unboxed
/// when `str::parse::<i32>` reads it, else read as a big integer (which
/// accepts underscores between digits, and numbers of any size).
pub fn from_string(string: &str) -> (r: IntegerLike)
    requires
        decimal_value(string@) is Some || big_decimal_value(string@) is Some,
    ensures
        r.wf(),
        match decimal_value(string@) {
            Some(v) => if i32::MIN <= v <= i32::MAX {
                r == IntegerLike::Integer(v as i32)
            } else {
                r matches IntegerLike::BigInteger(b) && b@ == big_decimal_value(string@)->Some_0
            },
            None => r matches IntegerLike::BigInteger(b) && b@ == big_decimal_value(string@)->Some_0,
        },
{
    match parse_i32(string) {
        Some(v) => IntegerLike::Integer(v),
        None => {
            proof {
                if decimal_value(string@) is Some {
                    lemma_decimal_reads_as_big(string@);
                }
            }
            IntegerLike::BigInteger(big_from_str(string).unwrap())
        },
    }
}

/// `Integer>>#asString`: the decimal numeral of the value.
pub fn as_string(receiver: &IntegerLike) -> (r: String)
    requires
        receiver.wf(),
    ensures
        r@ == signed_decimal(receiver.value()),
{
    match receiver {
        IntegerLike::Integer(v) => {
            if *v < 0 {
                let magnitude: u64 = (-(*v as i64)) as u64;
                let digits = to_decimal(magnitude);
                let mut s = String::from_str("-");
                s.append(digits.as_str());
                proof {
                    reveal_strlit("-");
                    assert(s@ =~= seq!['-'] + decimal((-(*v as int)) as nat));
                }
                s
            } else {
                to_decimal(*v as u64)
            }
        },
        IntegerLike::BigInteger(b) => big_to_string(b),
    }
}

} // verus!
