//! Reading the arguments of a primitive as the kinds of value it expects.

use crate::value::{AstNaNBoxedVal, NIL_TAG};
use vstd::prelude::*;

verus! {

/// A value that is not of the kind a primitive expects.
#[derive(Clone, Copy, Debug, PartialEq, Eq, Structural)]
pub struct WrongKind;

/// The `nil` argument of a primitive.
#[derive(Clone, Copy, Debug, PartialEq, Eq, Hash, Structural)]
pub struct Nil;

impl Nil {
    /// Reads a value as `nil`; any other value is refused.
    pub fn try_from_value(value: AstNaNBoxedVal) -> (r: Result<Nil, WrongKind>)
        ensures
            r is Ok <==> value.spec_tag() == NIL_TAG,
    {
        if value.is_nil() {
            Ok(Nil)
        } else {
            Err(WrongKind)
        }
    }
}

/// The `system` argument of a primitive. It is read from a `nil` value, as
/// the bytecode interpreter's conversion does; any other value is refused.
#[derive(Clone, Copy, Debug, PartialEq, Eq, Hash, Structural)]
pub struct System;

impl System {
    /// Reads a value as the system argument.
    pub fn try_from_value(value: AstNaNBoxedVal) -> (r: Result<System, WrongKind>)
        ensures
            r is Ok <==> value.spec_tag() == NIL_TAG,
    {
        if value.is_nil() {
            Ok(System)
        } else {
            Err(WrongKind)
        }
    }
}

} // verus!
