use som_interpreter::bigint::BigInteger;
use som_interpreter::primitives::integer::{
    abs, as_32bit_signed_value, as_32bit_unsigned_value, at_random, bitand, bitxor, demote, divide,
    eq_eq, minus, modulo, plus, remainder, shift_left, shift_right, times, to, IntegerLike, from_string,
    as_string,
};
use som_interpreter::numerals::parse_i32;
use som_interpreter::primitives::PrimitiveError;

fn big(bytes: Vec<u8>) -> IntegerLike {
    IntegerLike::BigInteger(BigInteger { bytes })
}

fn small(v: i32) -> IntegerLike {
    IntegerLike::Integer(v)
}

#[test]
fn plus_stays_unboxed_when_it_fits() {
    assert_eq!(plus(&small(2), &small(3)), small(5));
    assert_eq!(plus(&small(-7), &small(7)), small(0));
}

#[test]
fn plus_overflow_promotes_to_big_integer() {
    // i32::MAX + 1 == 2^31, two's complement little endian with a sign byte.
    assert_eq!(plus(&small(i32::MAX), &small(1)), big(vec![0, 0, 0, 128, 0]));
}

#[test]
fn plus_demotes_a_big_result_that_fits() {
    // 2^31 + (-1) == i32::MAX
    assert_eq!(plus(&big(vec![0, 0, 0, 128, 0]), &small(-1)), small(i32::MAX));
}

#[test]
fn minus_underflow_promotes_to_big_integer() {
    // i32::MIN - 1 == -2147483649
    assert_eq!(minus(&small(i32::MIN), &small(1)), big(vec![255, 255, 255, 127, 255]));
    assert_eq!(minus(&small(10), &small(4)), small(6));
}

#[test]
fn times_overflow_promotes_to_big_integer() {
    // 65536 * 65536 == 2^32
    assert_eq!(times(&small(65536), &small(65536)), big(vec![0, 0, 0, 0, 1]));
    assert_eq!(times(&small(-6), &small(7)), small(-42));
}

#[test]
fn times_of_big_integers_demotes() {
    // 2^32 * 0 == 0
    assert_eq!(times(&big(vec![0, 0, 0, 0, 1]), &small(0)), small(0));
}

#[test]
fn divide_truncates_towards_zero() {
    assert_eq!(divide(&small(7), &small(2)), small(3));
    assert_eq!(divide(&small(7), &small(-2)), small(-3));
    assert_eq!(divide(&small(-7), &small(2)), small(-3));
}

#[test]
fn divide_min_by_minus_one_promotes() {
    assert_eq!(divide(&small(i32::MIN), &small(-1)), big(vec![0, 0, 0, 128, 0]));
}

#[test]
fn divide_big_by_small() {
    // 2^32 / 2 == 2^31, still too large for an i32
    assert_eq!(divide(&big(vec![0, 0, 0, 0, 1]), &small(2)), big(vec![0, 0, 0, 128, 0]));
    // 2^32 / 4 == 2^30
    assert_eq!(divide(&big(vec![0, 0, 0, 0, 1]), &small(4)), small(1 << 30));
}

#[test]
fn modulo_takes_the_sign_of_the_divisor() {
    assert_eq!(modulo(&small(7), 3), small(1));
    assert_eq!(modulo(&small(-7), 3), small(2));
    assert_eq!(modulo(&small(7), -3), small(-2));
    assert_eq!(modulo(&small(-7), -3), small(-1));
    assert_eq!(modulo(&small(6), 3), small(0));
}

#[test]
fn modulo_of_big_integers() {
    // 2^31 mod 3 == 2
    assert_eq!(modulo(&big(vec![0, 0, 0, 128, 0]), 3), small(2));
    // -2147483650 mod 3 == 2 (floored)
    assert_eq!(modulo(&big(vec![254, 255, 255, 127, 255]), 3), small(2));
    // -2147483649 is a multiple of 3
    assert_eq!(modulo(&big(vec![255, 255, 255, 127, 255]), 3), small(0));
}

#[test]
fn remainder_takes_the_sign_of_the_dividend() {
    assert_eq!(remainder(7, 3), 1);
    assert_eq!(remainder(-7, 3), -1);
    assert_eq!(remainder(7, -3), 1);
    assert_eq!(remainder(-6, 3), 0);
}

#[test]
fn bitand_and_bitxor_on_small_integers() {
    assert_eq!(bitand(&small(12), &small(10)), small(8));
    assert_eq!(bitxor(&small(12), &small(10)), small(6));
}

#[test]
fn bitand_with_a_big_integer() {
    // (2^32 + 5) & 7 == 5, unboxed
    assert_eq!(bitand(&big(vec![5, 0, 0, 0, 1]), &small(7)), small(5));
    // 2^32 & -1 == 2^32, stays boxed
    assert_eq!(bitand(&big(vec![0, 0, 0, 0, 1]), &small(-1)), big(vec![0, 0, 0, 0, 1]));
}

#[test]
fn bitxor_with_a_big_integer() {
    // (2^32 + 1) ^ (2^32) == 1
    assert_eq!(bitxor(&big(vec![1, 0, 0, 0, 1]), &big(vec![0, 0, 0, 0, 1])), small(1));
}

#[test]
fn shift_left_in_64_bits() {
    assert_eq!(shift_left(&small(1), 4), small(16));
    assert_eq!(shift_left(&small(1), 31), big(vec![0, 0, 0, 128, 0]));
    // -1 widened to 64 unsigned bits is over i32::MAX: boxed as its signed reading
    assert_eq!(shift_left(&small(-1), 0), big(vec![255]));
}

#[test]
fn shift_left_past_64_bits_multiplies() {
    // 3 * 2^64
    assert_eq!(shift_left(&small(3), 64), big(vec![0, 0, 0, 0, 0, 0, 0, 0, 3]));
    assert_eq!(shift_left(&big(vec![0, 0, 0, 0, 1]), 1), big(vec![0, 0, 0, 0, 2]));
}

#[test]
fn shift_right_is_logical() {
    assert_eq!(shift_right(&small(16), 2), small(4));
    // -8 widened to 64 unsigned bits, halved, then cut to its low 32 bits
    assert_eq!(shift_right(&small(-8), 1), big(vec![252]));
}

#[test]
fn shift_right_of_a_big_integer_reads_the_bytes_unsigned() {
    // 2^32 >> 1 == 2^31, whose four bytes read back as i32::MIN
    assert_eq!(shift_right(&big(vec![0, 0, 0, 0, 1]), 1), small(i32::MIN));
    // 2^32 >> 2 == 2^30
    assert_eq!(shift_right(&big(vec![0, 0, 0, 0, 1]), 2), small(1 << 30));
}

#[test]
fn abs_of_a_big_integer() {
    assert_eq!(abs(&big(vec![255, 255, 255, 127, 255])), big(vec![1, 0, 0, 128, 0]));
}

#[test]
fn abs_leaves_an_unboxed_integer_as_it_is() {
    assert_eq!(abs(&small(-5)), small(-5));
    assert_eq!(abs(&small(5)), small(5));
}

#[test]
fn as_32bit_values() {
    assert_eq!(as_32bit_signed_value(&small(-3)), -3);
    assert_eq!(as_32bit_signed_value(&big(vec![0, 0, 0, 128, 0])), i32::MIN);
    assert_eq!(as_32bit_signed_value(&big(vec![255, 255, 255, 127, 255])), i32::MAX);
    assert_eq!(as_32bit_unsigned_value(&small(5)), small(5));
    assert_eq!(as_32bit_unsigned_value(&small(-1)), big(vec![255, 255, 255, 255, 0]));
    // a short encoding is padded with zero bytes, not with its sign
    assert_eq!(as_32bit_signed_value(&big(vec![255])), 255);
}

#[test]
fn eq_eq_compares_like_with_like() {
    assert!(eq_eq(&small(3), &small(3)));
    assert!(!eq_eq(&small(3), &small(4)));
    assert!(eq_eq(&big(vec![0, 0, 0, 128, 0]), &big(vec![0, 0, 0, 128, 0])));
    assert!(!eq_eq(&small(3), &big(vec![3])));
}

#[test]
fn to_builds_the_inclusive_range() {
    assert_eq!(to(3, 6), vec![3, 4, 5, 6]);
    assert_eq!(to(5, 4), Vec::<i32>::new());
    assert_eq!(to(i32::MAX - 1, i32::MAX), vec![i32::MAX - 1, i32::MAX]);
}

#[test]
fn at_random_stays_in_range() {
    for _ in 0..50 {
        let r = at_random(&small(10)).unwrap();
        assert!((0..=10).contains(&r));
    }
    assert_eq!(at_random(&small(0)), Ok(0));
    assert_eq!(at_random(&big(vec![0, 0, 0, 128, 0])), Err(PrimitiveError::RangeTooBig));
}

#[test]
fn demote_unboxes_small_values() {
    assert_eq!(demote(BigInteger { bytes: vec![42] }), small(42));
    assert_eq!(demote(BigInteger { bytes: vec![0, 0, 0, 128, 0] }), big(vec![0, 0, 0, 128, 0]));
}

#[test]
fn from_string_unboxes_what_fits() {
    assert_eq!(from_string("42"), IntegerLike::Integer(42));
    assert_eq!(from_string("+7"), IntegerLike::Integer(7));
    assert_eq!(from_string("-2147483648"), IntegerLike::Integer(i32::MIN));
}

#[test]
fn from_string_boxes_what_does_not_fit() {
    match from_string("2147483648") {
        IntegerLike::BigInteger(b) => assert_eq!(as_string(&IntegerLike::BigInteger(b)), "2147483648"),
        other => panic!("expected a big integer, got {:?}", other),
    }
    // the big integer reader takes underscores between digits
    match from_string("1_000") {
        IntegerLike::BigInteger(b) => assert_eq!(as_string(&IntegerLike::BigInteger(b)), "1000"),
        other => panic!("expected a big integer, got {:?}", other),
    }
}

#[test]
fn as_string_of_integers() {
    assert_eq!(as_string(&IntegerLike::Integer(0)), "0");
    assert_eq!(as_string(&IntegerLike::Integer(-15)), "-15");
    assert_eq!(as_string(&IntegerLike::Integer(i32::MIN)), "-2147483648");
    assert_eq!(as_string(&from_string("-99999999999999999999")), "-99999999999999999999");
}

#[test]
fn parsing_i32_as_the_standard_library_does() {
    assert_eq!(parse_i32("123"), Some(123));
    assert_eq!(parse_i32("-0"), Some(0));
    assert_eq!(parse_i32("2147483647"), Some(i32::MAX));
    assert_eq!(parse_i32("2147483648"), None);
    assert_eq!(parse_i32("-2147483649"), None);
    assert_eq!(parse_i32(""), None);
    assert_eq!(parse_i32("-"), None);
    assert_eq!(parse_i32("12a"), None);
    assert_eq!(parse_i32(" 1"), None);
    assert_eq!(parse_i32("99999999999999999999x"), None);
}
