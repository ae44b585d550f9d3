//! Primitives of the `Block3` class.

use crate::primitives::{PrimInfo, find_in_table, find_primitive};
use vstd::prelude::*;

verus! {

/// The built-in methods of `Block3`.
#[derive(Clone, Copy, Debug, PartialEq, Eq, Structural)]
pub enum Block3Primitive {
    ValueWith,
}

/// The instance-side table.
pub open spec fn instance_table() -> Seq<PrimInfo<Block3Primitive>> {
    seq![
        ("value:with:", Block3Primitive::ValueWith, true),
    ]
}

/// The class-side table.
pub open spec fn class_table() -> Seq<PrimInfo<Block3Primitive>> {
    Seq::empty()
}

/// The instance-side primitives of `Block3`, in lookup order.
pub fn instance_primitives() -> (r: Vec<PrimInfo<Block3Primitive>>)
    ensures
        r@ == instance_table(),
{
    vec![
        ("value:with:", Block3Primitive::ValueWith, true),
    ]
}

/// The class-side primitives of `Block3`, in lookup order.
pub fn class_primitives() -> (r: Vec<PrimInfo<Block3Primitive>>)
    ensures
        r@ == class_table(),
{
    Vec::new()
}

/// Search for an instance primitive matching the given signature.
pub fn get_instance_primitive(signature: &str) -> (r: Option<Block3Primitive>)
    ensures
        r == find_in_table(instance_table(), signature@),
{
    find_primitive(&instance_primitives(), signature)
}

/// Search for a class primitive matching the given signature.
pub fn get_class_primitive(signature: &str) -> (r: Option<Block3Primitive>)
    ensures
        r == find_in_table(class_table(), signature@),
{
    find_primitive(&class_primitives(), signature)
}

} // verus!
