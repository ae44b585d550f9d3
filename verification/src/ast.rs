//! The parse tree the bytecode compiler reads, and the objects it allocates
//! while compiling (strings, big integers, literal arrays, blocks), held in
//! a heap of their own until the interpreter loads them.

use crate::bigint::BigInteger;
use crate::compiler::{Literal, MethodInfo};
use crate::bytecode::Bytecode;
use vstd::prelude::*;

verus! {

/// A literal as the parser reads it.
pub enum AstLiteral {
    Symbol(String),
    String(String),
    /// A double, by the bits of its IEEE 754 representation.
    Double(u64),
    Integer(i32),
    /// An integer too large for an `i32` as the lexer saw it; the compiler
    /// unboxes it when it fits after all.
    BigInteger(BigInteger),
    Array(Vec<AstLiteral>),
}

/// An expression.
pub enum Expression {
    /// A local variable of this method or block.
    LocalVarRead(usize),
    /// A local variable `up` scopes out, then its index.
    NonLocalVarRead(usize, usize),
    /// An argument `up` scopes out (0: here), then its index (0: `self`).
    ArgRead(usize, usize),
    /// A name that is not a local or an argument: a field, `nil`, `super`,
    /// or a global.
    GlobalRead(String),
    LocalVarWrite(usize, Box<Expression>),
    NonLocalVarWrite(usize, usize, Box<Expression>),
    /// An assignment to a name that is not a local or an argument: a field.
    GlobalWrite(String, Box<Expression>),
    ArgWrite(usize, usize, Box<Expression>),
    Message(Box<Message>),
    /// A return of the value, from the method `up` scopes out (0: here).
    Exit(Box<Expression>, usize),
    Literal(AstLiteral),
    Block(Box<AstBlock>),
}

/// A message send.
pub struct Message {
    pub receiver: Expression,
    pub signature: String,
    pub values: Vec<Expression>,
}

/// A block.
pub struct AstBlock {
    pub nbr_params: usize,
    pub nbr_locals: usize,
    pub body: Vec<Expression>,
}

/// What a method runs: a primitive of the VM, or a body of expressions with
/// its count of locals.
pub enum MethodBody {
    Primitive,
    Body { locals_nbr: usize, exprs: Vec<Expression> },
}

/// A method definition.
pub struct MethodDef {
    pub signature: String,
    pub body: MethodBody,
}

/// A class definition: the fields and methods of its instances, and those
/// of the class itself.
pub struct ClassDef {
    pub name: String,
    pub instance_locals: Vec<String>,
    pub instance_methods: Vec<MethodDef>,
    pub static_locals: Vec<String>,
    pub static_methods: Vec<MethodDef>,
}

/// The objects the compiler allocates; a literal that refers to one holds
/// its index in the list of its kind.
pub struct Heap {
    pub strings: Vec<String>,
    pub big_integers: Vec<BigInteger>,
    pub arrays: Vec<Vec<Literal>>,
    pub blocks: Vec<MethodInfo>,
}

/// A compiled block, as plain values.
pub struct BlockView {
    pub body: Seq<Bytecode>,
    pub literals: Seq<Literal>,
    pub nbr_locals: usize,
    pub nbr_params: usize,
    pub max_stack_size: u8,
}

/// The heap, as plain values.
pub struct HeapView {
    pub strings: Seq<Seq<char>>,
    pub big_integers: Seq<Seq<u8>>,
    pub arrays: Seq<Seq<Literal>>,
    pub blocks: Seq<BlockView>,
}

/// A compiled block as plain values.
pub open spec fn block_view(m: MethodInfo) -> BlockView {
    BlockView {
        body: m.body@,
        literals: m.literals@,
        nbr_locals: m.nbr_locals,
        nbr_params: m.nbr_params,
        max_stack_size: m.max_stack_size,
    }
}

impl Heap {
    /// The heap as plain values.
    pub open spec fn view(&self) -> HeapView {
        HeapView {
            strings: self.strings@.map_values(|s: String| s@),
            big_integers: self.big_integers@.map_values(|b: BigInteger| b.bytes@),
            arrays: self.arrays@.map_values(|a: Vec<Literal>| a@),
            blocks: self.blocks@.map_values(|m: MethodInfo| block_view(m)),
        }
    }

    /// An empty heap.
    pub fn new() -> (r: Heap)
        ensures
            r.view().strings == Seq::<Seq<char>>::empty(),
            r.view().big_integers == Seq::<Seq<u8>>::empty(),
            r.view().arrays == Seq::<Seq<Literal>>::empty(),
            r.view().blocks == Seq::<BlockView>::empty(),
    {
        let r = Heap { strings: Vec::new(), big_integers: Vec::new(), arrays: Vec::new(), blocks: Vec::new() };
        assert(r.view().strings =~= Seq::<Seq<char>>::empty());
        assert(r.view().big_integers =~= Seq::<Seq<u8>>::empty());
        assert(r.view().arrays =~= Seq::<Seq<Literal>>::empty());
        assert(r.view().blocks =~= Seq::<BlockView>::empty());
        r
    }
}

} // verus!
