//! Primitives of the `Block` and `Block1` class.

use crate::primitives::{PrimInfo, find_in_table, find_primitive};
use vstd::prelude::*;

verus! {

/// The built-in methods of `Block` and `Block1`.
#[derive(Clone, Copy, Debug, PartialEq, Eq, Structural)]
pub enum Block1Primitive {
    Value,
    Restart,
}

/// The instance-side table.
pub open spec fn instance_table() -> Seq<PrimInfo<Block1Primitive>> {
    seq![
        ("value", Block1Primitive::Value, true),
        ("restart", Block1Primitive::Restart, false),
    ]
}

/// The class-side table.
pub open spec fn class_table() -> Seq<PrimInfo<Block1Primitive>> {
    Seq::empty()
}

/// The instance-side primitives of `Block` and `Block1`, in lookup order.
pub fn instance_primitives() -> (r: Vec<PrimInfo<Block1Primitive>>)
    ensures
        r@ == instance_table(),
{
    vec![
        ("value", Block1Primitive::Value, true),
        ("restart", Block1Primitive::Restart, false),
    ]
}

/// The class-side primitives of `Block` and `Block1`, in lookup order.
pub fn class_primitives() -> (r: Vec<PrimInfo<Block1Primitive>>)
    ensures
        r@ == class_table(),
{
    Vec::new()
}

/// Search for an instance primitive matching the given signature.
pub fn get_instance_primitive(signature: &str) -> (r: Option<Block1Primitive>)
    ensures
        r == find_in_table(instance_table(), signature@),
{
    find_primitive(&instance_primitives(), signature)
}

/// Search for a class primitive matching the given signature.
pub fn get_class_primitive(signature: &str) -> (r: Option<Block1Primitive>)
    ensures
        r == find_in_table(class_table(), signature@),
{
    find_primitive(&class_primitives(), signature)
}

} // verus!
