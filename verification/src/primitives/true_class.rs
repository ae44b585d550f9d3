//! Primitives of the `True` class.

use crate::primitives::{PrimInfo, find_in_table, find_primitive};
use vstd::prelude::*;

verus! {

/// The built-in methods of `True`.
#[derive(Clone, Copy, Debug, PartialEq, Eq, Structural)]
pub enum TruePrimitive {
    Not,
    Or,
    AndIfTrue,
    IfFalse,
}

/// The instance-side table.
pub open spec fn instance_table() -> Seq<PrimInfo<TruePrimitive>> {
    seq![
        ("not", TruePrimitive::Not, true),
        ("or:", TruePrimitive::Or, true),
        ("||", TruePrimitive::Or, true),
        ("and:", TruePrimitive::AndIfTrue, true),
        ("&&", TruePrimitive::AndIfTrue, true),
        ("ifTrue:", TruePrimitive::AndIfTrue, true),
        ("ifFalse:", TruePrimitive::IfFalse, true),
    ]
}

/// The class-side table.
pub open spec fn class_table() -> Seq<PrimInfo<TruePrimitive>> {
    Seq::empty()
}

/// The instance-side primitives of `True`, in lookup order.
pub fn instance_primitives() -> (r: Vec<PrimInfo<TruePrimitive>>)
    ensures
        r@ == instance_table(),
{
    vec![
        ("not", TruePrimitive::Not, true),
        ("or:", TruePrimitive::Or, true),
        ("||", TruePrimitive::Or, true),
        ("and:", TruePrimitive::AndIfTrue, true),
        ("&&", TruePrimitive::AndIfTrue, true),
        ("ifTrue:", TruePrimitive::AndIfTrue, true),
        ("ifFalse:", TruePrimitive::IfFalse, true),
    ]
}

/// The class-side primitives of `True`, in lookup order.
pub fn class_primitives() -> (r: Vec<PrimInfo<TruePrimitive>>)
    ensures
        r@ == class_table(),
{
    Vec::new()
}

/// Search for an instance primitive matching the given signature.
pub fn get_instance_primitive(signature: &str) -> (r: Option<TruePrimitive>)
    ensures
        r == find_in_table(instance_table(), signature@),
{
    find_primitive(&instance_primitives(), signature)
}

/// Search for a class primitive matching the given signature.
pub fn get_class_primitive(signature: &str) -> (r: Option<TruePrimitive>)
    ensures
        r == find_in_table(class_table(), signature@),
{
    find_primitive(&class_primitives(), signature)
}

} // verus!
