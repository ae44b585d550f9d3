//! Primitives of the `Class` class.

use crate::primitives::{PrimInfo, find_in_table, find_primitive};
use vstd::prelude::*;

verus! {

/// The built-in methods of `Class`.
#[derive(Clone, Copy, Debug, PartialEq, Eq, Structural)]
pub enum ClassPrimitive {
    New,
    Name,
    Fields,
    Methods,
    Superclass,
}

/// The instance-side table.
pub open spec fn instance_table() -> Seq<PrimInfo<ClassPrimitive>> {
    seq![
        ("new", ClassPrimitive::New, true),
        ("name", ClassPrimitive::Name, true),
        ("fields", ClassPrimitive::Fields, true),
        ("methods", ClassPrimitive::Methods, true),
        ("superclass", ClassPrimitive::Superclass, true),
    ]
}

/// The class-side table.
pub open spec fn class_table() -> Seq<PrimInfo<ClassPrimitive>> {
    Seq::empty()
}

/// The instance-side primitives of `Class`, in lookup order.
pub fn instance_primitives() -> (r: Vec<PrimInfo<ClassPrimitive>>)
    ensures
        r@ == instance_table(),
{
    vec![
        ("new", ClassPrimitive::New, true),
        ("name", ClassPrimitive::Name, true),
        ("fields", ClassPrimitive::Fields, true),
        ("methods", ClassPrimitive::Methods, true),
        ("superclass", ClassPrimitive::Superclass, true),
    ]
}

/// The class-side primitives of `Class`, in lookup order.
pub fn class_primitives() -> (r: Vec<PrimInfo<ClassPrimitive>>)
    ensures
        r@ == class_table(),
{
    Vec::new()
}

/// Search for an instance primitive matching the given signature.
pub fn get_instance_primitive(signature: &str) -> (r: Option<ClassPrimitive>)
    ensures
        r == find_in_table(instance_table(), signature@),
{
    find_primitive(&instance_primitives(), signature)
}

/// Search for a class primitive matching the given signature.
pub fn get_class_primitive(signature: &str) -> (r: Option<ClassPrimitive>)
    ensures
        r == find_in_table(class_table(), signature@),
{
    find_primitive(&class_primitives(), signature)
}

} // verus!
