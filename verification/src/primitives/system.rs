//! Primitives of the `System` class.

use crate::primitives::{PrimInfo, find_in_table, find_primitive};
use vstd::prelude::*;

verus! {

/// The built-in methods of `System`.
#[derive(Clone, Copy, Debug, PartialEq, Eq, Structural)]
pub enum SystemPrimitive {
    LoadFile,
    PrintString,
    PrintNewline,
    ErrorPrint,
    ErrorPrintln,
    Load,
    Ticks,
    Time,
    FullGc,
    GcStats,
    Exit,
    Global,
    GlobalPut,
    HasGlobal,
    PrintStackTrace,
}

/// The instance-side table.
pub open spec fn instance_table() -> Seq<PrimInfo<SystemPrimitive>> {
    seq![
        ("loadFile:", SystemPrimitive::LoadFile, true),
        ("printString:", SystemPrimitive::PrintString, true),
        ("printNewline", SystemPrimitive::PrintNewline, true),
        ("errorPrint:", SystemPrimitive::ErrorPrint, true),
        ("errorPrintln:", SystemPrimitive::ErrorPrintln, true),
        ("load:", SystemPrimitive::Load, true),
        ("ticks", SystemPrimitive::Ticks, true),
        ("time", SystemPrimitive::Time, true),
        ("fullGC", SystemPrimitive::FullGc, true),
        ("gcStats", SystemPrimitive::GcStats, true),
        ("exit:", SystemPrimitive::Exit, true),
        ("global:", SystemPrimitive::Global, true),
        ("global:put:", SystemPrimitive::GlobalPut, true),
        ("hasGlobal:", SystemPrimitive::HasGlobal, true),
        ("printStackTrace", SystemPrimitive::PrintStackTrace, true),
    ]
}

/// The class-side table.
pub open spec fn class_table() -> Seq<PrimInfo<SystemPrimitive>> {
    Seq::empty()
}

/// The instance-side primitives of `System`, in lookup order.
pub fn instance_primitives() -> (r: Vec<PrimInfo<SystemPrimitive>>)
    ensures
        r@ == instance_table(),
{
    vec![
        ("loadFile:", SystemPrimitive::LoadFile, true),
        ("printString:", SystemPrimitive::PrintString, true),
        ("printNewline", SystemPrimitive::PrintNewline, true),
        ("errorPrint:", SystemPrimitive::ErrorPrint, true),
        ("errorPrintln:", SystemPrimitive::ErrorPrintln, true),
        ("load:", SystemPrimitive::Load, true),
        ("ticks", SystemPrimitive::Ticks, true),
        ("time", SystemPrimitive::Time, true),
        ("fullGC", SystemPrimitive::FullGc, true),
        ("gcStats", SystemPrimitive::GcStats, true),
        ("exit:", SystemPrimitive::Exit, true),
        ("global:", SystemPrimitive::Global, true),
        ("global:put:", SystemPrimitive::GlobalPut, true),
        ("hasGlobal:", SystemPrimitive::HasGlobal, true),
        ("printStackTrace", SystemPrimitive::PrintStackTrace, true),
    ]
}

/// The class-side primitives of `System`, in lookup order.
pub fn class_primitives() -> (r: Vec<PrimInfo<SystemPrimitive>>)
    ensures
        r@ == class_table(),
{
    Vec::new()
}

/// Search for an instance primitive matching the given signature.
pub fn get_instance_primitive(signature: &str) -> (r: Option<SystemPrimitive>)
    ensures
        r == find_in_table(instance_table(), signature@),
{
    find_primitive(&instance_primitives(), signature)
}

/// Search for a class primitive matching the given signature.
pub fn get_class_primitive(signature: &str) -> (r: Option<SystemPrimitive>)
    ensures
        r == find_in_table(class_table(), signature@),
{
    find_primitive(&class_primitives(), signature)
}

} // verus!
