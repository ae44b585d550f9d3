//! Verified core of a Simple Object Machine (SOM) interpreter: the NaN-boxed
//! value encoding, the bytecode compiler's back end (code generation context,
//! peephole pass, stack-depth analysis, inlining rewrites), the integer
//! primitives with their big-integer promotion rules, the primitive tables and
//! the control-flow decisions of the specialized AST nodes.

pub mod value;
pub mod bytecode;
pub mod interner;
pub mod compiler;
pub mod literal_set;
pub mod peephole;
pub mod bigint;
pub mod primitives;
pub mod specialized;
pub mod method_compiler;
pub mod inliner;
pub mod gc;
pub mod convert;
pub mod interpreter;
pub mod ast;
pub mod codegen;
pub mod class_compiler;
pub mod shell;
pub mod value_enum;
pub mod numerals;
pub mod frames;
pub mod class_shape;
pub mod globals;
