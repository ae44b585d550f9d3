use som_interpreter::interner::Interner;
use som_interpreter::primitives::array::{at, at_put, length as array_length};
use som_interpreter::primitives::integer::IntegerLike;
use som_interpreter::primitives::string::{
    as_symbol, char_at, concatenate, eq, is_digits, is_letters, is_whitespace_string, length,
    prim_substring_from_to, StringLike,
};
use som_interpreter::primitives::PrimitiveError;

fn s(text: &str) -> StringLike {
    StringLike::String(text.to_string())
}

#[test]
fn length_counts_characters() {
    let interner = Interner::new();
    assert_eq!(length(&interner, &s("héllo")), IntegerLike::Integer(5));
    assert_eq!(length(&interner, &s("")), IntegerLike::Integer(0));
}

#[test]
fn length_of_a_symbol() {
    let mut interner = Interner::new();
    let id = interner.intern("value:with:");
    assert_eq!(length(&interner, &StringLike::Symbol(id)), IntegerLike::Integer(11));
}

#[test]
fn character_classes() {
    let interner = Interner::new();
    assert!(is_letters(&interner, &s("abcÉ")));
    assert!(!is_letters(&interner, &s("ab1")));
    assert!(!is_letters(&interner, &s("")));
    assert!(is_digits(&interner, &s("0123")));
    assert!(!is_digits(&interner, &s("12a")));
    assert!(is_whitespace_string(&interner, &s(" \t\n")));
    assert!(!is_whitespace_string(&interner, &s(" x ")));
}

#[test]
fn concatenate_and_compare() {
    let mut interner = Interner::new();
    let id = interner.intern("World");
    let joined = concatenate(&interner, &s("Hello "), &StringLike::Symbol(id));
    assert_eq!(joined, "Hello World");
    assert!(eq(&interner, &s("World"), &StringLike::Symbol(id)));
    assert!(!eq(&interner, &s("world"), &StringLike::Symbol(id)));
}

#[test]
fn as_symbol_interns_strings_once() {
    let mut interner = Interner::new();
    let a = as_symbol(&mut interner, &s("foo"));
    let b = as_symbol(&mut interner, &s("foo"));
    assert_eq!(a, b);
    assert_eq!(interner.len(), 1);
    assert_eq!(as_symbol(&mut interner, &StringLike::Symbol(a)), a);
    assert_eq!(interner.lookup(a), "foo");
}

#[test]
fn substring_is_one_based_and_inclusive() {
    let interner = Interner::new();
    assert_eq!(prim_substring_from_to(&interner, &s("hello"), 2, 4), Ok("ell".to_string()));
    assert_eq!(prim_substring_from_to(&interner, &s("hello"), 4, 10), Ok("lo".to_string()));
    assert_eq!(prim_substring_from_to(&interner, &s("hello"), 3, 2), Ok(String::new()));
    assert_eq!(prim_substring_from_to(&interner, &s("hello"), 0, 2), Err(PrimitiveError::OutOfRange));
    assert_eq!(prim_substring_from_to(&interner, &s("hello"), 1, -1), Err(PrimitiveError::OutOfRange));
}

#[test]
fn char_at_is_one_based() {
    let interner = Interner::new();
    assert_eq!(char_at(&interner, &s("héllo"), 1), "h");
    assert_eq!(char_at(&interner, &s("héllo"), 2), "é");
}

#[test]
fn array_at_is_one_based() {
    let v = vec![10, 20, 30];
    assert_eq!(at(&v, 1), Ok(10));
    assert_eq!(at(&v, 3), Ok(30));
    assert_eq!(at(&v, 0), Err(PrimitiveError::NegativeIndex));
    assert_eq!(at(&v, -5), Err(PrimitiveError::NegativeIndex));
    assert_eq!(at(&v, 4), Err(PrimitiveError::IndexOutOfBounds));
}

#[test]
fn array_at_put_ignores_indices_past_the_end() {
    let mut v = vec![10, 20, 30];
    assert_eq!(at_put(&mut v, 2, 99), Ok(()));
    assert_eq!(v, vec![10, 99, 30]);
    assert_eq!(at_put(&mut v, 4, 1), Ok(()));
    assert_eq!(v, vec![10, 99, 30]);
    assert_eq!(at_put(&mut v, 0, 1), Err(PrimitiveError::NegativeIndex));
    assert_eq!(v, vec![10, 99, 30]);
}

#[test]
fn array_length_counts_elements() {
    assert_eq!(array_length(&vec![1u8, 2, 3]), Ok(3));
    assert_eq!(array_length(&Vec::<u8>::new()), Ok(0));
}
