//! The bytecode compiler's code generation contexts and the analyses and
//! rewrites it runs over a finished body.

use crate::bytecode::{Bytecode, jump_offset, with_jump_offset, set_jump_offset};
use crate::peephole::{dup_popx_pop_precondition, remove_dup_popx_pop, without_dup_popx_pop};
use crate::literal_set::{
    key_literal, key_to_literal, lemma_literal_key_roundtrip, literal_set_get_index,
    literal_set_insert_full, literal_set_items, literal_set_len, literal_set_new,
    literal_set_shift_remove_index, literal_to_key, valid_key,
};
use crate::value::Interned;
use indexmap::IndexSet;
use vstd::prelude::*;

verus! {

/// A literal referenced by a compiled body. Heap objects are held by their
/// address; a double by the bits of its IEEE 754 representation.
#[derive(Clone, Copy, Debug, PartialEq, Eq, Structural)]
pub enum Literal {
    Symbol(Interned),
    String(u64),
    Double(u64),
    Integer(i32),
    BigInteger(u64),
    Array(u64),
    Block(u64),
}

/// The code generation context of a block (and, through `MethodGenCtxt`, of a
/// method): its instructions, its literal table and its variable counts.
pub struct BlockGenCtxt {
    /// The lexical depth of this context: 0 for a method, one more than the
    /// enclosing context for a block.
    pub scope: usize,
    pub args_nbr: usize,
    pub locals_nbr: usize,
    /// The literal table, by key; no literal occurs twice.
    pub literals: IndexSet<(u8, u64)>,
    /// The instructions emitted so far (`None` before the first one).
    pub body: Option<Vec<Bytecode>>,
}

/// A compiled method or block: its instructions, its literal table, its
/// variable counts and the stack depth its frames need.
pub struct MethodInfo {
    pub body: Vec<Bytecode>,
    pub literals: Vec<Literal>,
    pub nbr_locals: usize,
    pub nbr_params: usize,
    pub max_stack_size: u8,
}

/// No literal occurs twice in a literal table.
pub open spec fn literals_unique(lits: Seq<Literal>) -> bool {
    forall|i: int, j: int| 0 <= i < j < lits.len() ==> #[trigger] lits[i] != #[trigger] lits[j]
}

/// The instructions of an optional body, an absent body counting as empty.
pub open spec fn body_seq(body: Option<Vec<Bytecode>>) -> Seq<Bytecode> {
    match body {
        Some(b) => b@,
        None => Seq::empty(),
    }
}

impl BlockGenCtxt {
    /// A context is well formed when its literal table has no duplicates.
    pub open spec fn wf(&self) -> bool {
        &&& forall|i: int|
            0 <= i < literal_set_items(self.literals).len() ==> valid_key(
                #[trigger] literal_set_items(self.literals)[i],
            )
        &&& literals_unique(self.lits())
    }

    /// The literal table, in order.
    pub open spec fn lits(&self) -> Seq<Literal> {
        literal_set_items(self.literals).map_values(|k: (u8, u64)| key_literal(k))
    }

    /// The instructions emitted so far.
    pub open spec fn instrs(&self) -> Seq<Bytecode> {
        body_seq(self.body)
    }

    /// Creates the context of a block nested in a context of depth `outer_scope`.
    pub fn new(outer_scope: usize, args_nbr: usize, locals_nbr: usize) -> (r: Self)
        requires
            outer_scope < usize::MAX,
        ensures
            r.wf(),
            r.scope == outer_scope + 1,
            r.args_nbr == args_nbr,
            r.locals_nbr == locals_nbr,
            r.lits() == Seq::<Literal>::empty(),
            r.body is None,
    {
        let r = BlockGenCtxt {
            scope: outer_scope + 1,
            args_nbr,
            locals_nbr,
            literals: literal_set_new(),
            body: None,
        };
        assert(r.lits() =~= Seq::<Literal>::empty());
        r
    }

    /// The lexical depth of this context.
    pub fn get_scope(&self) -> (r: usize)
        ensures
            r == self.scope,
    {
        self.scope
    }

    /// Appends an instruction.
    pub fn push_instr(&mut self, instr: Bytecode)
        ensures
            final(self).body is Some,
            final(self).instrs() == old(self).instrs().push(instr),
            final(self).literals == old(self).literals,
            final(self).scope == old(self).scope,
            final(self).args_nbr == old(self).args_nbr,
            final(self).locals_nbr == old(self).locals_nbr,
    {
        let mut body = match self.body.take() {
            Some(b) => b,
            None => Vec::new(),
        };
        body.push(instr);
        self.body = Some(body);
    }

    /// Removes the last instruction (if there is one).
    pub fn pop_instr(&mut self)
        requires
            old(self).body is Some,
        ensures
            final(self).body is Some,
            final(self).instrs() == (if old(self).instrs().len() == 0 {
                old(self).instrs()
            } else {
                old(self).instrs().drop_last()
            }),
            final(self).literals == old(self).literals,
            final(self).scope == old(self).scope,
            final(self).args_nbr == old(self).args_nbr,
            final(self).locals_nbr == old(self).locals_nbr,
    {
        let mut body = self.body.take().unwrap();
        body.pop();
        self.body = Some(body);
    }

    /// The instructions emitted so far.
    pub fn get_instructions(&self) -> (r: &Vec<Bytecode>)
        requires
            self.body is Some,
        ensures
            r@ == self.instrs(),
    {
        self.body.as_ref().unwrap()
    }

    /// Returns the literal at an index, if there is one.
    pub fn get_literal(&self, idx: usize) -> (r: Option<Literal>)
        requires
            self.wf(),
        ensures
            r == (if idx < self.lits().len() {
                Some(self.lits()[idx as int])
            } else {
                None::<Literal>
            }),
    {
        match literal_set_get_index(&self.literals, idx) {
            Some(k) => Some(key_to_literal(k)),
            None => None,
        }
    }

    /// The literal table, in order.
    pub fn literals_vec(&self) -> (r: Vec<Literal>)
        requires
            self.wf(),
        ensures
            r@ == self.lits(),
    {
        let n = literal_set_len(&self.literals);
        let mut r: Vec<Literal> = Vec::new();
        let mut i: usize = 0;
        while i < n
            invariant
                self.wf(),
                n == self.lits().len(),
                i <= n,
                r@ == self.lits().subrange(0, i as int),
            decreases n - i,
        {
            let l = self.get_literal(i).unwrap();
            r.push(l);
            assert(r@ =~= self.lits().subrange(0, i + 1));
            i += 1;
        }
        assert(r@ =~= self.lits());
        r
    }

    /// Adds a literal to the table unless an equal one is there, and returns
    /// its index.
    pub fn push_literal(&mut self, literal: Literal) -> (r: usize)
        requires
            old(self).wf(),
        ensures
            final(self).wf(),
            r < final(self).lits().len(),
            final(self).lits()[r as int] == literal,
            old(self).lits().contains(literal) ==> final(self).lits() == old(self).lits(),
            !old(self).lits().contains(literal) ==> final(self).lits() == old(self).lits().push(literal),
            final(self).body == old(self).body,
            final(self).scope == old(self).scope,
            final(self).args_nbr == old(self).args_nbr,
            final(self).locals_nbr == old(self).locals_nbr,
    {
        let ghost items0 = literal_set_items(self.literals);
        let ghost lits0 = self.lits();
        let key = literal_to_key(literal);
        proof {
            lemma_literal_key_roundtrip(literal, key);
            assert(lits0.contains(literal) <==> items0.contains(key)) by {
                if lits0.contains(literal) {
                    let i = choose|i: int| 0 <= i < lits0.len() && lits0[i] == literal;
                    lemma_literal_key_roundtrip(literal, items0[i]);
                    assert(items0[i] == key);
                }
                if items0.contains(key) {
                    let i = choose|i: int| 0 <= i < items0.len() && items0[i] == key;
                    assert(lits0[i] == literal);
                }
            }
        }
        let (idx, _) = literal_set_insert_full(&mut self.literals, key);
        proof {
            let items = literal_set_items(self.literals);
            if !items0.contains(key) {
                assert(self.lits() =~= lits0.push(literal));
                assert forall|a: int, b: int| 0 <= a < b < self.lits().len() implies
                    #[trigger] self.lits()[a] != #[trigger] self.lits()[b] by {
                    if b == lits0.len() {
                        assert(lits0[a] != literal);
                    } else {
                        assert(lits0[a] != lits0[b]);
                    }
                }
            } else {
                assert(self.lits() =~= lits0);
            }
        }
        idx
    }

    /// Removes the literal at an index, shifting the ones after it.
    pub fn remove_literal(&mut self, idx: usize) -> (r: Option<Literal>)
        requires
            old(self).wf(),
        ensures
            final(self).wf(),
            idx < old(self).lits().len() ==> r == Some(old(self).lits()[idx as int])
                && final(self).lits() == old(self).lits().remove(idx as int),
            idx >= old(self).lits().len() ==> r is None && final(self).lits() == old(self).lits(),
            final(self).body == old(self).body,
            final(self).scope == old(self).scope,
            final(self).args_nbr == old(self).args_nbr,
            final(self).locals_nbr == old(self).locals_nbr,
    {
        let ghost items0 = literal_set_items(self.literals);
        let ghost lits0 = self.lits();
        match literal_set_shift_remove_index(&mut self.literals, idx) {
            Some(k) => {
                proof {
                    assert(self.lits() =~= lits0.remove(idx as int));
                    assert forall|a: int, b: int| 0 <= a < b < self.lits().len() implies
                        #[trigger] self.lits()[a] != #[trigger] self.lits()[b] by {
                        let a2 = if a < idx { a } else { a + 1 };
                        let b2 = if b < idx { b } else { b + 1 };
                        assert(self.lits()[a] == lits0[a2]);
                        assert(self.lits()[b] == lits0[b2]);
                    }
                    assert forall|i: int| 0 <= i < literal_set_items(self.literals).len() implies valid_key(
                        #[trigger] literal_set_items(self.literals)[i],
                    ) by {
                        let i2 = if i < idx { i } else { i + 1 };
                        assert(literal_set_items(self.literals)[i] == items0[i2]);
                    }
                }
                Some(key_to_literal(k))
            },
            None => {
                proof {
                    assert(self.lits() =~= lits0);
                }
                None
            },
        }
    }

    /// The index the next instruction will have.
    pub fn get_cur_instr_idx(&self) -> (r: usize)
        requires
            self.body is Some,
        ensures
            r == self.instrs().len(),
    {
        self.get_instructions().len()
    }

    /// Replaces the offset of the jump at `idx_to_patch`.
    pub fn patch_jump(&mut self, idx_to_patch: usize, new_val: u16)
        requires
            old(self).body is Some,
            idx_to_patch < old(self).instrs().len(),
            jump_offset(old(self).instrs()[idx_to_patch as int]) is Some,
        ensures
            final(self).body is Some,
            final(self).instrs() == old(self).instrs().update(
                idx_to_patch as int,
                with_jump_offset(old(self).instrs()[idx_to_patch as int], new_val),
            ),
            final(self).literals == old(self).literals,
            final(self).scope == old(self).scope,
            final(self).args_nbr == old(self).args_nbr,
            final(self).locals_nbr == old(self).locals_nbr,
    {
        let mut body = self.body.take().unwrap();
        let patched = set_jump_offset(body[idx_to_patch], new_val);
        body.set(idx_to_patch, patched);
        self.body = Some(body);
    }

    /// Makes the jump at `idx_to_backpatch` land on the next instruction to be
    /// emitted.
    pub fn backpatch_jump_to_current(&mut self, idx_to_backpatch: usize)
        requires
            old(self).body is Some,
            idx_to_backpatch < old(self).instrs().len(),
            jump_offset(old(self).instrs()[idx_to_backpatch as int]) is Some,
        ensures
            final(self).body is Some,
            final(self).instrs() == old(self).instrs().update(
                idx_to_backpatch as int,
                with_jump_offset(
                    old(self).instrs()[idx_to_backpatch as int],
                    (old(self).instrs().len() - idx_to_backpatch) as u16,
                ),
            ),
            final(self).literals == old(self).literals,
            final(self).scope == old(self).scope,
            final(self).args_nbr == old(self).args_nbr,
            final(self).locals_nbr == old(self).locals_nbr,
    {
        let jump_offset = self.get_cur_instr_idx() - idx_to_backpatch;
        self.patch_jump(idx_to_backpatch, jump_offset as u16)
    }

    pub fn get_nbr_locals(&self) -> (r: usize)
        ensures
            r == self.locals_nbr,
    {
        self.locals_nbr
    }

    pub fn set_nbr_locals(&mut self, nbr_locals: usize)
        ensures
            final(self).locals_nbr == nbr_locals,
            final(self).body == old(self).body,
            final(self).literals == old(self).literals,
            final(self).scope == old(self).scope,
            final(self).args_nbr == old(self).args_nbr,
    {
        self.locals_nbr = nbr_locals;
    }

    pub fn get_nbr_args(&self) -> (r: usize)
        ensures
            r == self.args_nbr,
    {
        self.args_nbr
    }

    pub fn set_nbr_args(&mut self, nbr_args: usize)
        ensures
            final(self).args_nbr == nbr_args,
            final(self).body == old(self).body,
            final(self).literals == old(self).literals,
            final(self).scope == old(self).scope,
            final(self).locals_nbr == old(self).locals_nbr,
    {
        self.args_nbr = nbr_args;
    }

    /// Removes the `DUP; POP_x; POP` sequences that no jump lands on, keeping
    /// the stores, and shortens the jumps over them.
    pub fn remove_dup_popx_pop_sequences(&mut self)
        requires
            dup_popx_pop_precondition(old(self).instrs()),
        ensures
            final(self).body is Some <==> old(self).body is Some,
            final(self).instrs() == without_dup_popx_pop(old(self).instrs()),
            final(self).literals == old(self).literals,
            final(self).scope == old(self).scope,
            final(self).args_nbr == old(self).args_nbr,
            final(self).locals_nbr == old(self).locals_nbr,
    {
        match self.body.take() {
            None => {},
            Some(body) => {
                let new_body = remove_dup_popx_pop(&body);
                self.body = Some(new_body);
            },
        }
    }
}

/// The code generation context of a method: a block context plus the method's
/// signature.
pub struct MethodGenCtxt {
    pub signature: String,
    pub inner: BlockGenCtxt,
}

impl MethodGenCtxt {
    /// Creates the context of a method with the given signature and counts.
    pub fn new(signature: String, args_nbr: usize, locals_nbr: usize) -> (r: Self)
        ensures
            r.signature@ == signature@,
            r.inner.wf(),
            r.inner.scope == 0,
            r.inner.args_nbr == args_nbr,
            r.inner.locals_nbr == locals_nbr,
            r.inner.lits() == Seq::<Literal>::empty(),
            r.inner.body is None,
    {
        let r = MethodGenCtxt {
            signature,
            inner: BlockGenCtxt { scope: 0, args_nbr, locals_nbr, literals: literal_set_new(), body: None },
        };
        assert(r.inner.lits() =~= Seq::<Literal>::empty());
        r
    }

    /// A method is at lexical depth 0.
    pub fn get_scope(&self) -> (r: usize)
        ensures
            r == 0,
    {
        0
    }

    pub fn push_instr(&mut self, instr: Bytecode)
        ensures
            final(self).inner.body is Some,
            final(self).inner.instrs() == old(self).inner.instrs().push(instr),
            final(self).inner.literals == old(self).inner.literals,
            final(self).inner.locals_nbr == old(self).inner.locals_nbr,
            final(self).inner.args_nbr == old(self).inner.args_nbr,
            final(self).signature == old(self).signature,
    {
        self.inner.push_instr(instr)
    }

    pub fn pop_instr(&mut self)
        requires
            old(self).inner.body is Some,
        ensures
            final(self).inner.body is Some,
            final(self).inner.instrs() == (if old(self).inner.instrs().len() == 0 {
                old(self).inner.instrs()
            } else {
                old(self).inner.instrs().drop_last()
            }),
            final(self).inner.literals == old(self).inner.literals,
            final(self).inner.locals_nbr == old(self).inner.locals_nbr,
            final(self).inner.args_nbr == old(self).inner.args_nbr,
            final(self).signature == old(self).signature,
    {
        self.inner.pop_instr();
    }

    pub fn get_instructions(&self) -> (r: &Vec<Bytecode>)
        requires
            self.inner.body is Some,
        ensures
            r@ == self.inner.instrs(),
    {
        self.inner.get_instructions()
    }

    pub fn push_literal(&mut self, literal: Literal) -> (r: usize)
        requires
            old(self).inner.wf(),
        ensures
            final(self).inner.wf(),
            r < final(self).inner.lits().len(),
            final(self).inner.lits()[r as int] == literal,
            old(self).inner.lits().contains(literal) ==> final(self).inner.lits() == old(self).inner.lits(),
            !old(self).inner.lits().contains(literal) ==> final(self).inner.lits() == old(
                self,
            ).inner.lits().push(literal),
            final(self).inner.body == old(self).inner.body,
            final(self).signature == old(self).signature,
    {
        self.inner.push_literal(literal)
    }

    pub fn get_literal(&self, idx: usize) -> (r: Option<Literal>)
        requires
            self.inner.wf(),
        ensures
            r == (if idx < self.inner.lits().len() {
                Some(self.inner.lits()[idx as int])
            } else {
                None::<Literal>
            }),
    {
        self.inner.get_literal(idx)
    }

    pub fn remove_literal(&mut self, idx: usize) -> (r: Option<Literal>)
        requires
            old(self).inner.wf(),
        ensures
            final(self).inner.wf(),
            idx < old(self).inner.lits().len() ==> r == Some(old(self).inner.lits()[idx as int])
                && final(self).inner.lits() == old(self).inner.lits().remove(idx as int),
            idx >= old(self).inner.lits().len() ==> r is None && final(self).inner.lits()
                == old(self).inner.lits(),
            final(self).inner.body == old(self).inner.body,
            final(self).signature == old(self).signature,
    {
        self.inner.remove_literal(idx)
    }

    pub fn get_cur_instr_idx(&self) -> (r: usize)
        requires
            self.inner.body is Some,
        ensures
            r == self.inner.instrs().len(),
    {
        self.inner.get_cur_instr_idx()
    }

    pub fn patch_jump(&mut self, idx_to_backpatch: usize, new_val: u16)
        requires
            old(self).inner.body is Some,
            idx_to_backpatch < old(self).inner.instrs().len(),
            jump_offset(old(self).inner.instrs()[idx_to_backpatch as int]) is Some,
        ensures
            final(self).inner.body is Some,
            final(self).inner.instrs() == old(self).inner.instrs().update(
                idx_to_backpatch as int,
                with_jump_offset(old(self).inner.instrs()[idx_to_backpatch as int], new_val),
            ),
            final(self).inner.literals == old(self).inner.literals,
            final(self).signature == old(self).signature,
    {
        self.inner.patch_jump(idx_to_backpatch, new_val)
    }

    pub fn backpatch_jump_to_current(&mut self, idx_to_backpatch: usize)
        requires
            old(self).inner.body is Some,
            idx_to_backpatch < old(self).inner.instrs().len(),
            jump_offset(old(self).inner.instrs()[idx_to_backpatch as int]) is Some,
        ensures
            final(self).inner.body is Some,
            final(self).inner.instrs() == old(self).inner.instrs().update(
                idx_to_backpatch as int,
                with_jump_offset(
                    old(self).inner.instrs()[idx_to_backpatch as int],
                    (old(self).inner.instrs().len() - idx_to_backpatch) as u16,
                ),
            ),
            final(self).inner.literals == old(self).inner.literals,
            final(self).signature == old(self).signature,
    {
        self.inner.backpatch_jump_to_current(idx_to_backpatch);
    }

    pub fn remove_dup_popx_pop_sequences(&mut self)
        requires
            dup_popx_pop_precondition(old(self).inner.instrs()),
        ensures
            final(self).inner.body is Some <==> old(self).inner.body is Some,
            final(self).inner.instrs() == without_dup_popx_pop(old(self).inner.instrs()),
            final(self).inner.literals == old(self).inner.literals,
            final(self).inner.locals_nbr == old(self).inner.locals_nbr,
            final(self).inner.args_nbr == old(self).inner.args_nbr,
            final(self).signature == old(self).signature,
    {
        self.inner.remove_dup_popx_pop_sequences();
    }

    pub fn get_nbr_locals(&self) -> (r: usize)
        ensures
            r == self.inner.locals_nbr,
    {
        self.inner.get_nbr_locals()
    }

    pub fn set_nbr_locals(&mut self, nbr_locals: usize)
        ensures
            final(self).inner.locals_nbr == nbr_locals,
            final(self).inner.body == old(self).inner.body,
            final(self).inner.literals == old(self).inner.literals,
            final(self).inner.args_nbr == old(self).inner.args_nbr,
            final(self).signature == old(self).signature,
    {
        self.inner.set_nbr_locals(nbr_locals)
    }

    pub fn get_nbr_args(&self) -> (r: usize)
        ensures
            r == self.inner.args_nbr,
    {
        self.inner.get_nbr_args()
    }

    pub fn set_nbr_args(&mut self, nbr_args: usize)
        ensures
            final(self).inner.args_nbr == nbr_args,
            final(self).inner.body == old(self).inner.body,
            final(self).inner.literals == old(self).inner.literals,
            final(self).inner.locals_nbr == old(self).inner.locals_nbr,
            final(self).signature == old(self).signature,
    {
        self.inner.set_nbr_args(nbr_args)
    }
}

} // verus!
