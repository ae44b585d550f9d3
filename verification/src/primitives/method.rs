//! Primitives of the `Method` class.

use crate::primitives::{PrimInfo, find_in_table, find_primitive};
use vstd::prelude::*;

verus! {

/// The built-in methods of `Method`.
#[derive(Clone, Copy, Debug, PartialEq, Eq, Structural)]
pub enum MethodPrimitive {
    Holder,
    Signature,
    InvokeOnWith,
}

/// The instance-side table.
pub open spec fn instance_table() -> Seq<PrimInfo<MethodPrimitive>> {
    seq![
        ("holder", MethodPrimitive::Holder, true),
        ("signature", MethodPrimitive::Signature, true),
        ("invokeOn:with:", MethodPrimitive::InvokeOnWith, true),
    ]
}

/// The class-side table.
pub open spec fn class_table() -> Seq<PrimInfo<MethodPrimitive>> {
    Seq::empty()
}

/// The instance-side primitives of `Method`, in lookup order.
pub fn instance_primitives() -> (r: Vec<PrimInfo<MethodPrimitive>>)
    ensures
        r@ == instance_table(),
{
    vec![
        ("holder", MethodPrimitive::Holder, true),
        ("signature", MethodPrimitive::Signature, true),
        ("invokeOn:with:", MethodPrimitive::InvokeOnWith, true),
    ]
}

/// The class-side primitives of `Method`, in lookup order.
pub fn class_primitives() -> (r: Vec<PrimInfo<MethodPrimitive>>)
    ensures
        r@ == class_table(),
{
    Vec::new()
}

/// Search for an instance primitive matching the given signature.
pub fn get_instance_primitive(signature: &str) -> (r: Option<MethodPrimitive>)
    ensures
        r == find_in_table(instance_table(), signature@),
{
    find_primitive(&instance_primitives(), signature)
}

/// Search for a class primitive matching the given signature.
pub fn get_class_primitive(signature: &str) -> (r: Option<MethodPrimitive>)
    ensures
        r == find_in_table(class_table(), signature@),
{
    find_primitive(&class_primitives(), signature)
}

} // verus!
