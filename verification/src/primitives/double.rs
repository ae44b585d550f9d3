//! Primitives of the `Double` class.

use crate::primitives::{PrimInfo, find_in_table, find_primitive};
use vstd::prelude::*;

verus! {

/// The built-in methods of `Double`.
#[derive(Clone, Copy, Debug, PartialEq, Eq, Structural)]
pub enum DoublePrimitive {
    Plus,
    Minus,
    Times,
    Divide,
    Modulo,
    Eq,
    Lt,
    Sqrt,
    Round,
    Cos,
    Sin,
    AsString,
    AsInteger,
    FromString,
    PositiveInfinity,
}

/// The instance-side table.
pub open spec fn instance_table() -> Seq<PrimInfo<DoublePrimitive>> {
    seq![
        ("+", DoublePrimitive::Plus, true),
        ("-", DoublePrimitive::Minus, true),
        ("*", DoublePrimitive::Times, true),
        ("//", DoublePrimitive::Divide, true),
        ("%", DoublePrimitive::Modulo, true),
        ("=", DoublePrimitive::Eq, true),
        ("<", DoublePrimitive::Lt, true),
        ("sqrt", DoublePrimitive::Sqrt, true),
        ("round", DoublePrimitive::Round, true),
        ("cos", DoublePrimitive::Cos, true),
        ("sin", DoublePrimitive::Sin, true),
        ("asString", DoublePrimitive::AsString, true),
        ("asInteger", DoublePrimitive::AsInteger, true),
    ]
}

/// The class-side table.
pub open spec fn class_table() -> Seq<PrimInfo<DoublePrimitive>> {
    seq![
        ("fromString:", DoublePrimitive::FromString, true),
        ("PositiveInfinity", DoublePrimitive::PositiveInfinity, true),
    ]
}

/// The instance-side primitives of `Double`, in lookup order.
pub fn instance_primitives() -> (r: Vec<PrimInfo<DoublePrimitive>>)
    ensures
        r@ == instance_table(),
{
    vec![
        ("+", DoublePrimitive::Plus, true),
        ("-", DoublePrimitive::Minus, true),
        ("*", DoublePrimitive::Times, true),
        ("//", DoublePrimitive::Divide, true),
        ("%", DoublePrimitive::Modulo, true),
        ("=", DoublePrimitive::Eq, true),
        ("<", DoublePrimitive::Lt, true),
        ("sqrt", DoublePrimitive::Sqrt, true),
        ("round", DoublePrimitive::Round, true),
        ("cos", DoublePrimitive::Cos, true),
        ("sin", DoublePrimitive::Sin, true),
        ("asString", DoublePrimitive::AsString, true),
        ("asInteger", DoublePrimitive::AsInteger, true),
    ]
}

/// The class-side primitives of `Double`, in lookup order.
pub fn class_primitives() -> (r: Vec<PrimInfo<DoublePrimitive>>)
    ensures
        r@ == class_table(),
{
    vec![
        ("fromString:", DoublePrimitive::FromString, true),
        ("PositiveInfinity", DoublePrimitive::PositiveInfinity, true),
    ]
}

/// Search for an instance primitive matching the given signature.
pub fn get_instance_primitive(signature: &str) -> (r: Option<DoublePrimitive>)
    ensures
        r == find_in_table(instance_table(), signature@),
{
    find_primitive(&instance_primitives(), signature)
}

/// Search for a class primitive matching the given signature.
pub fn get_class_primitive(signature: &str) -> (r: Option<DoublePrimitive>)
    ensures
        r == find_in_table(class_table(), signature@),
{
    find_primitive(&class_primitives(), signature)
}

} // verus!
