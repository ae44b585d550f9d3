//! Primitives of the `Array` class.

use crate::primitives::{PrimInfo, PrimitiveError, find_in_table, find_primitive};
use vstd::prelude::*;

verus! {

/// The built-in methods of `Array`.
#[derive(Clone, Copy, Debug, PartialEq, Eq, Structural)]
pub enum ArrayPrimitive {
    At,
    AtPut,
    Length,
    Copy,
    New,
}

/// The instance-side table.
pub open spec fn instance_table() -> Seq<PrimInfo<ArrayPrimitive>> {
    seq![
        ("at:", ArrayPrimitive::At, true),
        ("at:put:", ArrayPrimitive::AtPut, true),
        ("length", ArrayPrimitive::Length, true),
        ("copy:", ArrayPrimitive::Copy, true),
    ]
}

/// The class-side table.
pub open spec fn class_table() -> Seq<PrimInfo<ArrayPrimitive>> {
    seq![
        ("new:", ArrayPrimitive::New, true),
    ]
}

/// The instance-side primitives of `Array`, in lookup order.
pub fn instance_primitives() -> (r: Vec<PrimInfo<ArrayPrimitive>>)
    ensures
        r@ == instance_table(),
{
    vec![
        ("at:", ArrayPrimitive::At, true),
        ("at:put:", ArrayPrimitive::AtPut, true),
        ("length", ArrayPrimitive::Length, true),
        ("copy:", ArrayPrimitive::Copy, true),
    ]
}

/// The class-side primitives of `Array`, in lookup order.
pub fn class_primitives() -> (r: Vec<PrimInfo<ArrayPrimitive>>)
    ensures
        r@ == class_table(),
{
    vec![
        ("new:", ArrayPrimitive::New, true),
    ]
}

/// Search for an instance primitive matching the given signature.
pub fn get_instance_primitive(signature: &str) -> (r: Option<ArrayPrimitive>)
    ensures
        r == find_in_table(instance_table(), signature@),
{
    find_primitive(&instance_primitives(), signature)
}

/// Search for a class primitive matching the given signature.
pub fn get_class_primitive(signature: &str) -> (r: Option<ArrayPrimitive>)
    ensures
        r == find_in_table(class_table(), signature@),
{
    find_primitive(&class_primitives(), signature)
}

} // verus!

verus! {

/// `Array>>#at:`: the element at a 1-based index; an index below 1 or past the
/// end is refused.
pub fn at<T: Copy>(receiver: &Vec<T>, index: i32) -> (r: Result<T, PrimitiveError>)
    requires
        index != i32::MIN,
    ensures
        index < 1 ==> r == Err::<T, PrimitiveError>(PrimitiveError::NegativeIndex),
        1 <= index <= receiver@.len() ==> r == Ok::<T, PrimitiveError>(receiver@[index - 1]),
        index >= 1 && index > receiver@.len() ==> r == Err::<T, PrimitiveError>(
            PrimitiveError::IndexOutOfBounds,
        ),
{
    let i = index - 1;
    if i < 0 {
        return Err(PrimitiveError::NegativeIndex);
    }
    let i = i as usize;
    if i < receiver.len() {
        Ok(receiver[i])
    } else {
        Err(PrimitiveError::IndexOutOfBounds)
    }
}

/// `Array>>#at:put:`: stores at a 1-based index; an index below 1 is refused,
/// one past the end leaves the array as it is.
pub fn at_put<T>(receiver: &mut Vec<T>, index: i32, value: T) -> (r: Result<(), PrimitiveError>)
    requires
        index != i32::MIN,
    ensures
        index < 1 ==> r == Err::<(), PrimitiveError>(PrimitiveError::NegativeIndex),
        index < 1 ==> final(receiver)@ == old(receiver)@,
        index >= 1 ==> r == Ok::<(), PrimitiveError>(()),
        1 <= index <= old(receiver)@.len() ==> final(receiver)@ == old(receiver)@.update(index - 1, value),
        index > old(receiver)@.len() ==> final(receiver)@ == old(receiver)@,
{
    let i = index - 1;
    if i < 0 {
        return Err(PrimitiveError::NegativeIndex);
    }
    let i = i as usize;
    if i < receiver.len() {
        receiver.set(i, value);
    }
    Ok(())
}

/// `Array>>#length`: the number of elements, refused when it does not fit in
/// an `i32`.
pub fn length<T>(receiver: &Vec<T>) -> (r: Result<i32, PrimitiveError>)
    ensures
        receiver@.len() <= i32::MAX ==> r == Ok::<i32, PrimitiveError>(receiver@.len() as i32),
        receiver@.len() > i32::MAX ==> r == Err::<i32, PrimitiveError>(PrimitiveError::OutOfRange),
{
    let n = receiver.len();
    if n <= i32::MAX as usize {
        Ok(n as i32)
    } else {
        Err(PrimitiveError::OutOfRange)
    }
}

} // verus!
