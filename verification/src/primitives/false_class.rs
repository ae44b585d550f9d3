//! Primitives of the `False` class.

use crate::primitives::{PrimInfo, find_in_table, find_primitive};
use vstd::prelude::*;

verus! {

/// The built-in methods of `False`.
#[derive(Clone, Copy, Debug, PartialEq, Eq, Structural)]
pub enum FalsePrimitive {
    Not,
    And,
}

/// The instance-side table.
pub open spec fn instance_table() -> Seq<PrimInfo<FalsePrimitive>> {
    seq![
        ("not", FalsePrimitive::Not, true),
        ("and:", FalsePrimitive::And, true),
        ("&&", FalsePrimitive::And, true),
    ]
}

/// The class-side table.
pub open spec fn class_table() -> Seq<PrimInfo<FalsePrimitive>> {
    Seq::empty()
}

/// The instance-side primitives of `False`, in lookup order.
pub fn instance_primitives() -> (r: Vec<PrimInfo<FalsePrimitive>>)
    ensures
        r@ == instance_table(),
{
    vec![
        ("not", FalsePrimitive::Not, true),
        ("and:", FalsePrimitive::And, true),
        ("&&", FalsePrimitive::And, true),
    ]
}

/// The class-side primitives of `False`, in lookup order.
pub fn class_primitives() -> (r: Vec<PrimInfo<FalsePrimitive>>)
    ensures
        r@ == class_table(),
{
    Vec::new()
}

/// Search for an instance primitive matching the given signature.
pub fn get_instance_primitive(signature: &str) -> (r: Option<FalsePrimitive>)
    ensures
        r == find_in_table(instance_table(), signature@),
{
    find_primitive(&instance_primitives(), signature)
}

/// Search for a class primitive matching the given signature.
pub fn get_class_primitive(signature: &str) -> (r: Option<FalsePrimitive>)
    ensures
        r == find_in_table(class_table(), signature@),
{
    find_primitive(&class_primitives(), signature)
}

} // verus!
