//! Code generation: the bytecode of an expression, emitted into the context
//! of the method or block that holds it. Literals are added to the
//! context's table, names are interned, and the objects literals refer to
//! (strings, big integers, arrays, compiled blocks) are allocated in the
//! compiler's heap. Control messages whose arguments are literal blocks
//! (`ifTrue:`, `whileTrue:`, `and:`, `to:do:` and the like) are inlined: the
//! blocks' code runs in the sender's context, between conditional jumps.

use crate::ast::{AstBlock, AstLiteral, BlockView, Expression, Heap, HeapView, Message, MethodBody, MethodDef, block_view};
use crate::bigint::{BigInteger, big_to_i32, fits_i32};
use crate::bytecode::Bytecode;
use crate::compiler::{BlockGenCtxt, Literal, MethodGenCtxt, MethodInfo};
use crate::inliner::{
    begin_conditional, begin_or_and, begin_to_do, end_or_and, end_to_do, end_while, middle_of_conditional,
    inline_kind, JumpType, adapt_block_after_outer_inlined, adapt_instr, inline_compiled_block, lemma_inline_run_prefix, take_last_push_block, if_jump, if_nil_jump, inlinable_at, inline_kind_of, inline_run, insert_literal,
    lemma_pushed_literal_index, literal_index, moved_len, non_local_returns_valid, or_and_jump, pop_jump,
    pop_nil_jump, push_blocks_valid, pushed_blocks, InlineKind, OrAndChoice,
};
use crate::bytecode::with_jump_offset;
use crate::interner::{Interner, id_of, lemma_id_of_unique, names_unique};
use crate::literal_set::literal_set_len;
use crate::method_compiler::{
    args_nbr, finish_method, finished_method_body, trivial_method, with_method_end, CompiledMethod, Method, TrivialKind,
    finish_block, finished_block_body, max_stack_depth, nb_params, selector_params, stack_size_computable,
};
use crate::peephole::dup_popx_pop_precondition;
use crate::primitives::str_eq;
use crate::value::Interned;
use vstd::prelude::*;

verus! {

/// What the compiler has built so far: the current context's instructions,
/// literals and number of locals, the interned names, and the heap.
pub struct GenState {
    pub instrs: Seq<Bytecode>,
    pub lits: Seq<Literal>,
    pub locals: usize,
    pub names: Seq<Seq<char>>,
    pub heap: HeapView,
}

/// Which instruction refers to a literal of the table.
pub enum LiteralRef {
    Global,
    Constant,
    Block,
}

/// The instruction of that kind for the literal at index `k`.
pub open spec fn literal_ref_instr(kind: LiteralRef, k: u8) -> Bytecode {
    match kind {
        LiteralRef::Global => Bytecode::PushGlobal(k),
        LiteralRef::Constant => Bytecode::PushConstant(k),
        LiteralRef::Block => Bytecode::PushBlock(k),
    }
}

/// What the compiler works with besides the context being filled: the
/// interner, the names of the fields of the class being compiled, and the
/// heap.
pub struct CompileEnv {
    pub interner: Interner,
    pub fields: Vec<Interned>,
    pub heap: Heap,
}

/// The state of the compiler, as plain values.
pub open spec fn state_of(ctxt: BlockGenCtxt, env: CompileEnv) -> GenState {
    GenState {
        instrs: ctxt.instrs(),
        lits: ctxt.lits(),
        locals: ctxt.locals_nbr,
        names: env.interner.view(),
        heap: env.heap.view(),
    }
}

/// The same state with one more instruction.
pub open spec fn emit(st: GenState, bc: Bytecode) -> GenState {
    GenState { instrs: st.instrs.push(bc), ..st }
}

/// The same state with a literal added to the table (unless it is there),
/// and the instruction that names it, built from its index.
pub open spec fn emit_with_literal(st: GenState, l: Literal, make: spec_fn(u8) -> Bytecode) -> GenState {
    GenState {
        instrs: st.instrs.push(make(literal_index(st.lits, l) as u8)),
        lits: insert_literal(st.lits, l),
        ..st
    }
}

/// Interning a name: the table and the name's id; `None` when the table is
/// full.
pub open spec fn intern_name(names: Seq<Seq<char>>, s: Seq<char>) -> Option<(Seq<Seq<char>>, Interned)> {
    if names.len() >= u32::MAX {
        None
    } else {
        let n = if names.contains(s) { names } else { names.push(s) };
        Some((n, Interned(id_of(n, s) as u32)))
    }
}

/// Interning into a table without duplicates keeps it so, only adds at
/// the end, keeps every string's id, and gives the string its position.
pub proof fn lemma_intern_name(names: Seq<Seq<char>>, s: Seq<char>)
    requires
        names_unique(names),
        intern_name(names, s) is Some,
    ensures
        ({
            let (n, id) = intern_name(names, s).unwrap();
            &&& names_unique(n)
            &&& names.len() <= n.len()
            &&& n.subrange(0, names.len() as int) == names
            &&& n.contains(s)
            &&& id.0 as int == id_of(n, s)
            &&& 0 <= id_of(n, s) < n.len()
            &&& n[id_of(n, s)] == s
            &&& forall|t: Seq<char>| names.contains(t) ==> id_of(n, t) == id_of(names, t)
        }),
{
    let (n, id) = intern_name(names, s).unwrap();
    if names.contains(s) {
        let i = choose|i: int| 0 <= i < names.len() && names[i] == s;
        lemma_id_of_unique(names, i);
        assert(n.subrange(0, names.len() as int) =~= names);
    } else {
        assert(n == names.push(s));
        assert forall|i: int, j: int| 0 <= i < j < n.len() implies #[trigger] n[i] != #[trigger] n[j] by {
            if j == names.len() {
                assert(names[i] != s);
            } else {
                assert(names[i] != names[j]);
            }
        }
        lemma_id_of_unique(n, names.len() as int);
        assert(n.subrange(0, names.len() as int) =~= names);
        assert forall|t: Seq<char>| names.contains(t) implies id_of(n, t) == id_of(names, t) by {
            let i = choose|i: int| 0 <= i < names.len() && names[i] == t;
            lemma_id_of_unique(names, i);
            lemma_id_of_unique(n, i);
        }
    }
    assert forall|t: Seq<char>| names.contains(t) implies id_of(n, t) == id_of(names, t) by {
        let i = choose|i: int| 0 <= i < names.len() && names[i] == t;
        lemma_id_of_unique(names, i);
        assert(n[i] == t);
        lemma_id_of_unique(n, i);
    }
}

/// The index of the first field named `s`, from the field `i` on.
pub open spec fn field_index_from(names: Seq<Seq<char>>, fields: Seq<Interned>, s: Seq<char>, i: int) -> Option<
    usize,
>
    decreases fields.len() - i,
{
    if i < 0 || i >= fields.len() {
        None
    } else if names[fields[i].0 as int] == s {
        Some(i as usize)
    } else {
        field_index_from(names, fields, s, i + 1)
    }
}

/// The first string literal of the table, from the position `i` on, whose
/// string is `s`.
pub open spec fn string_literal_from(lits: Seq<Literal>, strings: Seq<Seq<char>>, s: Seq<char>, i: int) -> Option<
    Literal,
>
    decreases lits.len() - i,
{
    if i < 0 || i >= lits.len() {
        None
    } else if lits[i] matches Literal::String(a) && a < strings.len() && strings[a as int] == s {
        Some(lits[i])
    } else {
        string_literal_from(lits, strings, s, i + 1)
    }
}

/// A literal of the parse tree, made a literal of compiled code: symbols are
/// interned; a string reuses an equal string literal of the table, or is
/// allocated; a big integer that fits is unboxed, else allocated; an array
/// has its elements converted, then is allocated. The instructions and the
/// table do not change.
pub open spec fn literal_converted(st: GenState, lit: AstLiteral) -> Option<(GenState, Literal)>
    decreases lit,
{
    match lit {
        AstLiteral::Symbol(s) => match intern_name(st.names, s@) {
            Some((n, id)) => Some((GenState { names: n, ..st }, Literal::Symbol(id))),
            None => None,
        },
        AstLiteral::String(s) => match string_literal_from(st.lits, st.heap.strings, s@, 0) {
            Some(l) => Some((st, l)),
            None => Some(
                (
                    GenState { heap: HeapView { strings: st.heap.strings.push(s@), ..st.heap }, ..st },
                    Literal::String(st.heap.strings.len() as u64),
                ),
            ),
        },
        AstLiteral::Double(b) => Some((st, Literal::Double(b))),
        AstLiteral::Integer(v) => Some((st, Literal::Integer(v))),
        AstLiteral::BigInteger(b) => if fits_i32(b@) {
            Some((st, Literal::Integer(b@ as i32)))
        } else {
            Some(
                (
                    GenState {
                        heap: HeapView { big_integers: st.heap.big_integers.push(b.bytes@), ..st.heap },
                        ..st
                    },
                    Literal::BigInteger(st.heap.big_integers.len() as u64),
                ),
            )
        },
        AstLiteral::Array(vals) => match literals_converted(st, vals@, vals@.len() as int) {
            Some((s2, ls)) => Some(
                (
                    GenState { heap: HeapView { arrays: s2.heap.arrays.push(ls), ..s2.heap }, ..s2 },
                    Literal::Array(s2.heap.arrays.len() as u64),
                ),
            ),
            None => None,
        },
    }
}

/// The first `k` literals of a list, converted one after the other.
pub open spec fn literals_converted(st: GenState, vals: Seq<AstLiteral>, k: int) -> Option<(GenState, Seq<Literal>)>
    decreases vals, k,
{
    if k <= 0 || k > vals.len() {
        Some((st, Seq::empty()))
    } else {
        match literals_converted(st, vals, k - 1) {
            Some((s2, ls)) => match literal_converted(s2, vals[k - 1]) {
                Some((s3, l)) => Some((s3, ls.push(l))),
                None => None,
            },
            None => None,
        }
    }
}

/// What adapting a compiled block after an outer block was inlined needs:
/// its pushed blocks are in its literals, its non-local returns name a
/// scope, and its stack size can be computed.
pub open spec fn adapt_ok(b: BlockView, names: Seq<Seq<char>>) -> bool {
    &&& push_blocks_valid(b.body, b.literals)
    &&& non_local_returns_valid(b.body)
    &&& stack_size_computable(b.body, names)
}

/// A compiled block adapted after a block it is nested in was inlined
/// `adjust` scopes out (see `adapt_block_after_outer_inlined`).
pub open spec fn adapted_block(b: BlockView, names: Seq<Seq<char>>, adjust: usize) -> BlockView {
    BlockView {
        body: b.body.map_values(|bc: Bytecode| adapt_instr(bc, adjust)),
        max_stack_size: (max_stack_depth(b.body, names, b.body.len() as int) + 1) as u8,
        ..b
    }
}

/// The heap's blocks after adapting the block at `addr`, then the blocks it
/// pushes, in order, each the same way; `None` when a block is missing or
/// cannot be adapted, or when a block pushes one that was not made before
/// it.
pub open spec fn adapted_tree(blocks: Seq<BlockView>, names: Seq<Seq<char>>, addr: int, adjust: usize) -> Option<
    Seq<BlockView>,
>
    decreases addr + 1, 0int,
{
    if addr < 0 || addr >= blocks.len() || !adapt_ok(blocks[addr], names) {
        None
    } else {
        let b = blocks[addr];
        let kids = pushed_blocks(b.body, b.literals, b.body.len() as int);
        adapted_all(blocks.update(addr, adapted_block(b, names, adjust)), names, kids, kids.len() as int, addr, adjust)
    }
}

/// The heap's blocks after adapting the first `k` blocks of a list, each
/// with the blocks it pushes; every one of them must have been made before
/// the block at `bound`.
pub open spec fn adapted_all(
    blocks: Seq<BlockView>,
    names: Seq<Seq<char>>,
    addrs: Seq<u64>,
    k: int,
    bound: int,
    adjust: usize,
) -> Option<Seq<BlockView>>
    decreases bound, k,
{
    if k <= 0 || k > addrs.len() {
        Some(blocks)
    } else {
        match adapted_all(blocks, names, addrs, k - 1, bound, adjust) {
            Some(b2) => if addrs[k - 1] < bound {
                adapted_tree(b2, names, addrs[k - 1] as int, adjust)
            } else {
                None
            },
            None => None,
        }
    }
}

/// Inlining the compiled block at `a` into the current context: its
/// instructions but the last move over (see `inline_run`), its parameters
/// and locals become locals of the context, and the blocks the moved
/// instructions push are adapted one scope out. `None` when the block is
/// missing or cannot be inlined.
pub open spec fn block_inlined(s: GenState, a: u64) -> Option<GenState> {
    if a >= s.heap.blocks.len() {
        None
    } else {
        let blk = s.heap.blocks[a as int];
        let nl = s.locals as u8;
        let na = blk.nbr_params as u8;
        let m = moved_len(blk.body);
        if (nl as usize) + blk.nbr_locals + blk.nbr_params > usize::MAX || !(forall|i: int|
            0 <= i < m ==> #[trigger] inlinable_at(s.instrs, s.lits, blk.body, blk.literals, nl, na, i)) {
            None
        } else {
            match inline_run(s.instrs, s.lits, blk.body, blk.literals, nl, na, m) {
                Some((ri, rl)) => {
                    let kids = pushed_blocks(blk.body, blk.literals, m);
                    match adapted_all(s.heap.blocks, s.names, kids, kids.len() as int, a as int, 1) {
                        Some(blocks) => Some(
                            GenState {
                                instrs: ri,
                                lits: rl,
                                locals: ((nl as usize) + blk.nbr_locals + blk.nbr_params) as usize,
                                names: s.names,
                                heap: HeapView { blocks, ..s.heap },
                            },
                        ),
                        None => None,
                    }
                },
                None => None,
            }
        }
    }
}

/// Inlining the block the last instruction pushes instead: the `PushBlock`
/// goes, then, when its literal is a block, the literal goes and the block
/// is inlined.
pub open spec fn last_push_inlined(s: GenState) -> Option<GenState> {
    let b = s.instrs.last()->PushBlock_0 as int;
    let popped = GenState { instrs: s.instrs.drop_last(), ..s };
    if 0 <= b < s.lits.len() && s.lits[b] is Block {
        block_inlined(GenState { lits: s.lits.remove(b), ..popped }, s.lits[b]->Block_0)
    } else {
        Some(popped)
    }
}

/// After compiling an expression to inline: when its code ends with a
/// `PushBlock`, that block is inlined.
pub open spec fn tail_inlined(r: Option<GenState>) -> Option<GenState> {
    match r {
        Some(s) => if s.instrs.len() > 0 && s.instrs.last() is PushBlock {
            last_push_inlined(s)
        } else {
            Some(s)
        },
        None => None,
    }
}

/// The jump at `j` made to land on the next instruction.
pub open spec fn backpatched(s: GenState, j: int) -> GenState {
    GenState {
        instrs: s.instrs.update(j, with_jump_offset(s.instrs[j], (s.instrs.len() - j) as u16)),
        ..s
    }
}

/// A one-branch conditional finished: its jump lands after the branch.
pub open spec fn cond_end(r: Option<GenState>, j: int) -> Option<GenState> {
    match r {
        Some(s) => Some(backpatched(s, j)),
        None => None,
    }
}

/// The jump over the second branch of a two-branch conditional, and the
/// first jump landed on that branch.
pub open spec fn cond_middle(s: GenState, j: int) -> GenState {
    backpatched(emit(s, Bytecode::Jump(0)), j)
}

/// An inlined loop finished: the body's value dropped, the jump back to the
/// condition (which started at `pre`), the conditional jump at `c` landed
/// after the loop, and `nil` as the loop's value.
pub open spec fn while_end(s: GenState, pre: int, c: int) -> GenState {
    let n = s.instrs.len();
    emit(
        backpatched(emit(emit(s, Bytecode::Pop), Bytecode::JumpBackward((n + 2 - pre) as u16)), c),
        Bytecode::PushNil,
    )
}

/// The global an inlined `or:` answers when its receiver is `true`, and
/// `and:` when it is `false`.
pub open spec fn or_and_name(c: OrAndChoice) -> Seq<char> {
    if c == OrAndChoice::Or {
        "true"@
    } else {
        "false"@
    }
}

/// An inlined `or:` / `and:` finished: a jump over the constant answer, the
/// first jump (at `j`) landed on it, and the constant read as a global.
pub open spec fn or_and_end(s: GenState, c: OrAndChoice, j: int) -> Option<GenState> {
    match intern_name(s.names, or_and_name(c)) {
        Some((n, id)) => {
            let s2 = GenState { names: n, ..cond_middle(s, j) };
            Some(
                backpatched(
                    emit_with_literal(s2, Literal::Symbol(id), |k: u8| literal_ref_instr(LiteralRef::Global, k)),
                    s.instrs.len() as int,
                ),
            )
        },
        None => None,
    }
}

/// The head of an inlined `to:do:` loop: the counter and the end copied,
/// the exit test, and the counter stored in the local after the context's
/// locals.
pub open spec fn to_do_start(s: GenState) -> GenState {
    emit(
        emit(emit(emit(s, Bytecode::Dup2), Bytecode::JumpIfGreater(0)), Bytecode::Dup),
        Bytecode::PopLocal(0, s.locals as u8),
    )
}

/// An inlined `to:do:` loop finished: the body's value dropped, the counter
/// incremented, the jump back to the test at `jig`, and the test's exit
/// landed after the loop.
pub open spec fn to_do_end(s: GenState, jig: int) -> GenState {
    let n = s.instrs.len();
    backpatched(
        emit(emit(emit(s, Bytecode::Pop), Bytecode::Inc), Bytecode::JumpBackward((n + 2 - jig) as u16)),
        jig,
    )
}

/// Whether the arguments of a message (and, for a loop, the code of its
/// receiver) have the shape its inlining needs: blocks where a block is
/// inlined.
pub open spec fn shape_ok(k: InlineKind, vals: Seq<Expression>, instrs: Seq<Bytecode>) -> bool {
    match k {
        InlineKind::IfTrueOrIfFalse(_) | InlineKind::OrAnd(_) | InlineKind::IfNilOrIfNotNil(_) => vals.len() == 1
            && vals[0] is Block,
        InlineKind::IfTrueIfFalse(_) | InlineKind::IfNilIfNotNil(_) => vals.len() == 2 && vals[0] is Block
            && vals[1] is Block,
        InlineKind::While(_) => vals.len() == 1 && instrs.len() > 0 && instrs.last() is PushBlock
            && vals[0] is Block,
        InlineKind::ToDo => vals.len() == 2 && vals[1] is Block,
    }
}

/// The code of an inlined control message, once its receiver's code is in
/// `s1`: conditionals jump over their inlined branches, loops jump back,
/// `or:` / `and:` jump to a constant answer.
pub open spec fn gen_inlined(s1: GenState, scope: int, fields: Seq<Interned>, vals: Seq<Expression>, k: InlineKind) -> Option<
    GenState,
>
    decreases vals,
{
    let j = s1.instrs.len() as int;
    if !shape_ok(k, vals, s1.instrs) {
        None
    } else {
        proof {
            assert(vals.len() >= 1);
            assert(decreases_to!(vals => vals[0]));
            if k is IfTrueIfFalse || k is IfNilIfNotNil || k is ToDo {
                assert(decreases_to!(vals => vals[1]));
            }
        }
    match k {
        InlineKind::IfTrueOrIfFalse(jt) => cond_end(
            tail_inlined(gen_expr(emit(s1, if_jump(jt)), scope, fields, vals[0])),
            j,
        ),
        InlineKind::IfNilOrIfNotNil(jt) => cond_end(
            tail_inlined(gen_expr(emit(s1, if_nil_jump(jt)), scope, fields, vals[0])),
            j,
        ),
        InlineKind::IfTrueIfFalse(jt) => match tail_inlined(gen_expr(emit(s1, pop_jump(jt)), scope, fields, vals[0])) {
            Some(s3) => cond_end(
                tail_inlined(gen_expr(cond_middle(s3, j), scope, fields, vals[1])),
                s3.instrs.len() as int,
            ),
            None => None,
        },
        InlineKind::IfNilIfNotNil(jt) => match tail_inlined(
            gen_expr(emit(s1, pop_nil_jump(jt)), scope, fields, vals[0]),
        ) {
            Some(s3) => cond_end(
                tail_inlined(gen_expr(cond_middle(s3, j), scope, fields, vals[1])),
                s3.instrs.len() as int,
            ),
            None => None,
        },
        InlineKind::While(jt) => match last_push_inlined(s1) {
            Some(s2) => match tail_inlined(gen_expr(emit(s2, pop_jump(jt)), scope, fields, vals[0])) {
                Some(s4) => Some(while_end(s4, j, s2.instrs.len() as int)),
                None => None,
            },
            None => None,
        },
        InlineKind::OrAnd(c) => match tail_inlined(gen_expr(emit(s1, or_and_jump(c)), scope, fields, vals[0])) {
            Some(s3) => or_and_end(s3, c, j),
            None => None,
        },
        InlineKind::ToDo => match tail_inlined(gen_expr(s1, scope, fields, vals[0])) {
            Some(s2) => match tail_inlined(gen_expr(to_do_start(s2), scope, fields, vals[1])) {
                Some(s4) => Some(to_do_end(s4, s2.instrs.len() + 1int)),
                None => None,
            },
            None => None,
        },
    }
    }
}

/// Whether a receiver is `super`.
pub open spec fn is_super_receiver(e: Expression) -> bool {
    e matches Expression::GlobalRead(s) && s@ == "super"@
}

/// The send instruction for a selector with `nb` parameters.
pub open spec fn send_instr(is_super: bool, nb: nat, sym: Interned) -> Bytecode {
    if is_super {
        Bytecode::SuperSend(sym)
    } else if nb == 0 {
        Bytecode::Send1(sym)
    } else if nb == 1 {
        Bytecode::Send2(sym)
    } else if nb == 2 {
        Bytecode::Send3(sym)
    } else {
        Bytecode::SendN(sym)
    }
}

/// The code of an expression, emitted in a context at lexical depth
/// `scope` of a class whose fields are `fields`; `None` when the compiler
/// would fail: an assignment to a name that is no field, a full interner,
/// or a block too deep or too large for its bytecode.
pub open spec fn gen_expr(st: GenState, scope: int, fields: Seq<Interned>, e: Expression) -> Option<GenState>
    decreases e,
{
    match e {
        Expression::LocalVarRead(i) => Some(emit(st, Bytecode::PushLocal(i as u8))),
        Expression::NonLocalVarRead(up, i) => Some(emit(st, Bytecode::PushNonLocal(up as u8, i as u8))),
        Expression::ArgRead(up, i) => Some(
            emit(
                st,
                if up == 0 && i == 0 {
                    Bytecode::PushSelf
                } else if up == 0 {
                    Bytecode::PushArg(i as u8)
                } else {
                    Bytecode::PushNonLocalArg(up as u8, i as u8)
                },
            ),
        ),
        Expression::GlobalRead(name) => match field_index_from(st.names, fields, name@, 0) {
            Some(idx) => Some(emit(st, Bytecode::PushField(idx as u8))),
            None => if name@ == "nil"@ {
                Some(emit(st, Bytecode::PushNil))
            } else if name@ == "super"@ {
                Some(
                    emit(
                        st,
                        if scope == 0 {
                            Bytecode::PushSelf
                        } else {
                            Bytecode::PushNonLocalArg(scope as u8, 0)
                        },
                    ),
                )
            } else {
                match intern_name(st.names, name@) {
                    Some((n, id)) => Some(
                        emit_with_literal(
                            GenState { names: n, ..st },
                            Literal::Symbol(id),
                            |k: u8| Bytecode::PushGlobal(k),
                        ),
                    ),
                    None => None,
                }
            },
        },
        Expression::LocalVarWrite(i, x) => match gen_expr(st, scope, fields, *x) {
            Some(s) => Some(emit(emit(s, Bytecode::Dup), Bytecode::PopLocal(0, i as u8))),
            None => None,
        },
        Expression::NonLocalVarWrite(up, i, x) => match gen_expr(st, scope, fields, *x) {
            Some(s) => Some(emit(emit(s, Bytecode::Dup), Bytecode::PopLocal(up as u8, i as u8))),
            None => None,
        },
        Expression::GlobalWrite(name, x) => match field_index_from(st.names, fields, name@, 0) {
            Some(idx) => match gen_expr(st, scope, fields, *x) {
                Some(s) => Some(emit(emit(s, Bytecode::Dup), Bytecode::PopField(idx as u8))),
                None => None,
            },
            None => None,
        },
        Expression::ArgWrite(up, i, x) => match gen_expr(st, scope, fields, *x) {
            Some(s) => Some(emit(emit(s, Bytecode::Dup), Bytecode::PopArg(up as u8, i as u8))),
            None => None,
        },
        Expression::Message(m) => gen_message(st, scope, fields, *m),
        Expression::Exit(x, up) => if up == 0 && *x matches Expression::ArgRead(0, 0) {
            Some(emit(st, Bytecode::ReturnSelf))
        } else {
            match gen_expr(st, scope, fields, *x) {
                Some(s) => Some(
                    emit(
                        s,
                        if up == 0 {
                            Bytecode::ReturnLocal
                        } else {
                            Bytecode::ReturnNonLocal(up as u8)
                        },
                    ),
                ),
                None => None,
            }
        },
        Expression::Literal(lit) => match literal_converted(st, lit) {
            Some((s, l)) => if l == Literal::Integer(0) {
                Some(emit(s, Bytecode::Push0))
            } else if l == Literal::Integer(1) {
                Some(emit(s, Bytecode::Push1))
            } else {
                Some(emit_with_literal(s, l, |k: u8| Bytecode::PushConstant(k)))
            },
            None => None,
        },
        Expression::Block(b) => match gen_block(st, scope, fields, *b) {
            Some((s, l)) => Some(emit_with_literal(s, l, |k: u8| Bytecode::PushBlock(k))),
            None => None,
        },
    }
}

/// The code of a message send: the receiver, then, for a control message
/// whose arguments have the shape it needs, its inlined code (see
/// `gen_inlined`); else `Inc` or `Dec` for `+ 1` and `- 1` sent to anything
/// but `super`; else the arguments and the send.
pub open spec fn gen_message(st: GenState, scope: int, fields: Seq<Interned>, m: Message) -> Option<GenState>
    decreases m,
{
    let is_super = is_super_receiver(m.receiver);
    let kind = inline_kind_of(m.signature@);
    match gen_expr(st, scope, fields, m.receiver) {
        Some(s1) => if kind is Some && shape_ok(kind->Some_0, m.values@, s1.instrs) {
            gen_inlined(s1, scope, fields, m.values@, kind->Some_0)
        } else if (m.signature@ == "+"@ || m.signature@ == "-"@) && !is_super && m.values@.len() == 1
            && m.values@[0] matches Expression::Literal(AstLiteral::Integer(1)) {
            Some(
                emit(
                    s1,
                    if m.signature@ == "+"@ {
                        Bytecode::Inc
                    } else {
                        Bytecode::Dec
                    },
                ),
            )
        } else {
            match gen_seq(s1, scope, fields, m.values@, m.values@.len() as int) {
                Some(s2) => match intern_name(s2.names, m.signature@) {
                    Some((n, id)) => Some(
                        emit(
                            GenState { names: n, ..s2 },
                            send_instr(is_super, selector_params(m.signature@), id),
                        ),
                    ),
                    None => None,
                },
                None => None,
            }
        },
        None => None,
    }
}

/// The code of the first `k` expressions, one after the other.
pub open spec fn gen_seq(st: GenState, scope: int, fields: Seq<Interned>, es: Seq<Expression>, k: int) -> Option<
    GenState,
>
    decreases es, k,
{
    if k <= 0 || k > es.len() {
        Some(st)
    } else {
        match gen_seq(st, scope, fields, es, k - 1) {
            Some(s) => gen_expr(s, scope, fields, es[k - 1]),
            None => None,
        }
    }
}

/// The code of the first `k` expressions of a block's body: each followed by
/// a `POP`, but the last, followed by a `ReturnLocal`.
pub open spec fn gen_block_body(st: GenState, scope: int, fields: Seq<Interned>, es: Seq<Expression>, k: int) -> Option<
    GenState,
>
    decreases es, k,
{
    if k <= 0 || k > es.len() {
        Some(st)
    } else {
        match gen_block_body(st, scope, fields, es, k - 1) {
            Some(s) => match gen_expr(s, scope, fields, es[k - 1]) {
                Some(s2) => Some(
                    emit(
                        s2,
                        if k == es.len() {
                            Bytecode::ReturnLocal
                        } else {
                            Bytecode::Pop
                        },
                    ),
                ),
                None => None,
            },
            None => None,
        }
    }
}

/// A block compiled in a context at depth `scope`: its body compiled in a
/// fresh context one scope deeper, finished (see `finish_block`), and
/// allocated in the heap; the literal that refers to it. The current
/// context does not change.
pub open spec fn gen_block(st: GenState, scope: int, fields: Seq<Interned>, b: AstBlock) -> Option<(GenState, Literal)>
    decreases b,
{
    if scope < 0 || scope >= usize::MAX {
        None
    } else {
        let inner0 = GenState { instrs: Seq::empty(), lits: Seq::empty(), locals: b.nbr_locals, ..st };
        match gen_block_body(inner0, scope + 1, fields, b.body@, b.body@.len() as int) {
            Some(inner) => {
                let body = finished_block_body(
                    if b.body@.len() == 0 {
                        None
                    } else {
                        Some(inner.instrs)
                    },
                );
                if !dup_popx_pop_precondition(inner.instrs) || !stack_size_computable(body, inner.names) {
                    None
                } else {
                    let view = BlockView {
                        body,
                        literals: inner.lits,
                        nbr_locals: inner.locals,
                        nbr_params: b.nbr_params,
                        max_stack_size: (max_stack_depth(body, inner.names, body.len() as int) + 1) as u8,
                    };
                    Some(
                        (
                            GenState {
                                instrs: st.instrs,
                                lits: st.lits,
                                locals: st.locals,
                                names: inner.names,
                                heap: HeapView { blocks: inner.heap.blocks.push(view), ..inner.heap },
                            },
                            Literal::Block(inner.heap.blocks.len() as u64),
                        ),
                    )
                }
            },
            None => None,
        }
    }
}

impl CompileEnv {
    /// The interner has no duplicates and every field names an interned
    /// string.
    pub open spec fn wf(&self) -> bool {
        &&& self.interner.wf()
        &&& forall|i: int| 0 <= i < self.fields@.len() ==> (#[trigger] self.fields@[i]).0 < self.interner.view().len()
    }
}

/// The index of the first field named `name`.
pub fn find_field(env: &CompileEnv, name: &str) -> (r: Option<usize>)
    requires
        env.wf(),
    ensures
        r == field_index_from(env.interner.view(), env.fields@, name@, 0),
{
    let ghost names = env.interner.view();
    let ghost fields = env.fields@;
    let mut i: usize = 0;
    while i < env.fields.len()
        invariant
            env.wf(),
            names == env.interner.view(),
            fields == env.fields@,
            i <= fields.len(),
            field_index_from(names, fields, name@, 0) == field_index_from(names, fields, name@, i as int),
        decreases fields.len() - i,
    {
        let f = env.fields[i];
        if str_eq(env.interner.lookup(f), name) {
            return Some(i);
        }
        i += 1;
    }
    None
}

/// Interns a name in the environment's interner.
pub fn intern_symbol(env: &mut CompileEnv, name: &str) -> (r: Interned)
    requires
        old(env).wf(),
        intern_name(old(env).interner.view(), name@) is Some,
    ensures
        final(env).wf(),
        intern_name(old(env).interner.view(), name@) == Some((final(env).interner.view(), r)),
        r.0 < final(env).interner.view().len(),
        old(env).interner.view().len() <= final(env).interner.view().len(),
        final(env).fields == old(env).fields,
        final(env).heap == old(env).heap,
{
    let r = env.interner.intern(name);
    proof {
        assert(r.0 as int == id_of(env.interner.view(), name@));
        assert forall|i: int| 0 <= i < env.fields@.len() implies (#[trigger] env.fields@[i]).0
            < env.interner.view().len() by {
            assert(old(env).fields@[i].0 < old(env).interner.view().len());
        }
    }
    r
}

/// The first string literal of a context's table whose string is `s`.
pub fn find_string_literal(ctxt: &BlockGenCtxt, env: &CompileEnv, s: &str) -> (r: Option<Literal>)
    requires
        ctxt.wf(),
    ensures
        r == string_literal_from(ctxt.lits(), env.heap.view().strings, s@, 0),
{
    let ghost lits = ctxt.lits();
    let ghost strings = env.heap.view().strings;
    let n = literal_set_len(&ctxt.literals);
    let mut i: usize = 0;
    while i < n
        invariant
            ctxt.wf(),
            lits == ctxt.lits(),
            strings == env.heap.view().strings,
            n == lits.len(),
            i <= n,
            string_literal_from(lits, strings, s@, 0) == string_literal_from(lits, strings, s@, i as int),
        decreases n - i,
    {
        if let Some(Literal::String(a)) = ctxt.get_literal(i) {
            if a < env.heap.strings.len() as u64 {
                if str_eq(env.heap.strings[a as usize].as_str(), s) {
                    return Some(Literal::String(a));
                }
            }
        }
        i += 1;
    }
    None
}

/// When a list of literals converts, so does each of its prefixes.
proof fn lemma_literals_prefix(st: GenState, vals: Seq<AstLiteral>, j: int, k: int)
    requires
        0 <= j <= k <= vals.len(),
        literals_converted(st, vals, k) is Some,
    ensures
        literals_converted(st, vals, j) is Some,
    decreases k - j,
{
    if j < k {
        lemma_literals_prefix(st, vals, j, k - 1);
    }
}

/// Converts a literal of the parse tree into a literal of compiled code,
/// interning and allocating what it needs.
pub fn convert_literal(lit: &AstLiteral, ctxt: &BlockGenCtxt, env: &mut CompileEnv) -> (r: Literal)
    requires
        ctxt.wf(),
        old(env).wf(),
        literal_converted(state_of(*ctxt, *old(env)), *lit) is Some,
    ensures
        final(env).wf(),
        final(env).fields == old(env).fields,
        old(env).interner.view().len() <= final(env).interner.view().len(),
        literal_converted(state_of(*ctxt, *old(env)), *lit) == Some((state_of(*ctxt, *final(env)), r)),
    decreases lit,
{
    let ghost st0 = state_of(*ctxt, *env);
    match lit {
        AstLiteral::Symbol(s) => {
            let id = intern_symbol(env, s.as_str());
            Literal::Symbol(id)
        },
        AstLiteral::String(s) => match find_string_literal(ctxt, env, s.as_str()) {
            Some(l) => l,
            None => {
                let idx = env.heap.strings.len() as u64;
                env.heap.strings.push(s.clone());
                proof {
                    assert(env.heap.view().strings =~= st0.heap.strings.push(s@));
                    assert(env.heap.view() == HeapView { strings: st0.heap.strings.push(s@), ..st0.heap });
                }
                Literal::String(idx)
            },
        },
        AstLiteral::Double(b) => Literal::Double(*b),
        AstLiteral::Integer(v) => Literal::Integer(*v),
        AstLiteral::BigInteger(b) => match big_to_i32(b) {
            Some(v) => Literal::Integer(v),
            None => {
                let idx = env.heap.big_integers.len() as u64;
                let copy = BigInteger { bytes: b.bytes.clone() };
                assert(copy.bytes@ =~= b.bytes@);
                env.heap.big_integers.push(copy);
                proof {
                    assert(env.heap.view().big_integers =~= st0.heap.big_integers.push(b.bytes@));
                    assert(env.heap.view() == HeapView {
                        big_integers: st0.heap.big_integers.push(b.bytes@),
                        ..st0.heap
                    });
                }
                Literal::BigInteger(idx)
            },
        },
        AstLiteral::Array(vals) => {
            proof {
                lemma_literals_prefix(st0, vals@, 0, vals@.len() as int);
            }
            let mut out: Vec<Literal> = Vec::new();
            let mut i: usize = 0;
            while i < vals.len()
                invariant
                    *lit == AstLiteral::Array(*vals),
                    ctxt.wf(),
                    env.wf(),
                    env.fields == old(env).fields,
                    old(env).interner.view().len() <= env.interner.view().len(),
                    st0 == state_of(*ctxt, *old(env)),
                    i <= vals@.len(),
                    literals_converted(st0, vals@, vals@.len() as int) is Some,
                    literals_converted(st0, vals@, i as int) == Some((state_of(*ctxt, *env), out@)),
                decreases vals@.len() - i,
            {
                proof {
                    lemma_literals_prefix(st0, vals@, i + 1, vals@.len() as int);
                    assert(decreases_to!(*lit => (*lit)->Array_0));
                    assert(decreases_to!(*vals => vals@));
                    assert(decreases_to!(vals@ => vals@[i as int]));
                }
                let l = convert_literal(&vals[i], ctxt, env);
                out.push(l);
                i += 1;
            }
            let idx = env.heap.arrays.len() as u64;
            let ghost s2 = state_of(*ctxt, *env);
            env.heap.arrays.push(out);
            proof {
                assert(env.heap.view().arrays =~= s2.heap.arrays.push(out@));
                assert(env.heap.view() == HeapView { arrays: s2.heap.arrays.push(out@), ..s2.heap });
            }
            Literal::Array(idx)
        },
    }
}

/// When a sequence of expressions compiles, so does each of its prefixes.
proof fn lemma_seq_prefix(st: GenState, scope: int, fields: Seq<Interned>, es: Seq<Expression>, j: int, k: int)
    requires
        0 <= j <= k <= es.len(),
        gen_seq(st, scope, fields, es, k) is Some,
    ensures
        gen_seq(st, scope, fields, es, j) is Some,
    decreases k - j,
{
    if j < k {
        lemma_seq_prefix(st, scope, fields, es, j, k - 1);
    }
}

/// When a block body compiles, so does each of its prefixes.
proof fn lemma_block_body_prefix(
    st: GenState,
    scope: int,
    fields: Seq<Interned>,
    es: Seq<Expression>,
    j: int,
    k: int,
)
    requires
        0 <= j <= k <= es.len(),
        gen_block_body(st, scope, fields, es, k) is Some,
    ensures
        gen_block_body(st, scope, fields, es, j) is Some,
    decreases k - j,
{
    if j < k {
        lemma_block_body_prefix(st, scope, fields, es, j, k - 1);
    }
}

/// Adds a literal to the context's table and emits the instruction that
/// refers to it by its index.
fn emit_literal_ref(ctxt: &mut BlockGenCtxt, env: &CompileEnv, l: Literal, kind: LiteralRef)
    requires
        old(ctxt).wf(),
    ensures
        final(ctxt).wf(),
        final(ctxt).scope == old(ctxt).scope,
        final(ctxt).args_nbr == old(ctxt).args_nbr,
        final(ctxt).locals_nbr == old(ctxt).locals_nbr,
        final(ctxt).body is Some,
        state_of(*final(ctxt), *env) == emit_with_literal(
            state_of(*old(ctxt), *env),
            l,
            |k: u8| literal_ref_instr(kind, k),
        ),
{
    let ghost before = ctxt.lits();
    let idx = ctxt.push_literal(l);
    proof {
        lemma_pushed_literal_index(before, ctxt.lits(), l, idx as int);
    }
    let k = idx as u8;
    let instr = match kind {
        LiteralRef::Global => Bytecode::PushGlobal(k),
        LiteralRef::Constant => Bytecode::PushConstant(k),
        LiteralRef::Block => Bytecode::PushBlock(k),
    };
    ctxt.push_instr(instr);
}

/// The blocks of the heap, as plain values.
pub open spec fn blocks_view(blocks: Seq<MethodInfo>) -> Seq<BlockView> {
    blocks.map_values(|m: MethodInfo| block_view(m))
}

proof fn lemma_adapted_all_prefix(
    blocks: Seq<BlockView>,
    names: Seq<Seq<char>>,
    addrs: Seq<u64>,
    j: int,
    k: int,
    bound: int,
    adjust: usize,
)
    requires
        0 <= j <= k <= addrs.len(),
        adapted_all(blocks, names, addrs, k, bound, adjust) is Some,
    ensures
        adapted_all(blocks, names, addrs, j, bound, adjust) is Some,
    decreases k - j,
{
    if j < k {
        lemma_adapted_all_prefix(blocks, names, addrs, j, k - 1, bound, adjust);
    }
}

/// Adapts the block at `addr` of the heap after a block it is nested in
/// was inlined, then the blocks it pushes (see `adapted_tree`).
fn adapt_tree(blocks: &mut Vec<MethodInfo>, interner: &Interner, addr: u64, adjust: usize)
    requires
        adapted_tree(blocks_view(old(blocks)@), interner.view(), addr as int, adjust) is Some,
    ensures
        adapted_tree(blocks_view(old(blocks)@), interner.view(), addr as int, adjust) == Some(
            blocks_view(final(blocks)@),
        ),
    decreases addr + 1, 0int,
{
    let ghost v0 = blocks_view(blocks@);
    let ghost b0 = blocks@[addr as int];
    assert(v0[addr as int] == block_view(b0));
    assert(addr < blocks.len());
    let entry = &mut blocks[addr as usize];
    let kids = adapt_block_after_outer_inlined(entry, adjust, interner);
    proof {
        let b1 = blocks@[addr as int];
        assert(block_view(b1) == adapted_block(block_view(b0), interner.view(), adjust));
        assert(blocks_view(blocks@) =~= v0.update(addr as int, adapted_block(block_view(b0), interner.view(), adjust)));
    }
    adapt_blocks(blocks, interner, &kids, addr, adjust);
}

/// Adapts the blocks of a list, in order, each with the blocks it pushes
/// (see `adapted_all`).
fn adapt_blocks(blocks: &mut Vec<MethodInfo>, interner: &Interner, addrs: &Vec<u64>, bound: u64, adjust: usize)
    requires
        adapted_all(blocks_view(old(blocks)@), interner.view(), addrs@, addrs@.len() as int, bound as int, adjust)
            is Some,
    ensures
        adapted_all(blocks_view(old(blocks)@), interner.view(), addrs@, addrs@.len() as int, bound as int, adjust)
            == Some(blocks_view(final(blocks)@)),
    decreases bound, addrs@.len(),
{
    let ghost v0 = blocks_view(blocks@);
    let ghost names = interner.view();
    proof {
        lemma_adapted_all_prefix(v0, names, addrs@, 0, addrs@.len() as int, bound as int, adjust);
    }
    let mut i: usize = 0;
    while i < addrs.len()
        invariant
            v0 == blocks_view(old(blocks)@),
            names == interner.view(),
            i <= addrs@.len(),
            adapted_all(v0, names, addrs@, addrs@.len() as int, bound as int, adjust) is Some,
            adapted_all(v0, names, addrs@, i as int, bound as int, adjust) == Some(blocks_view(blocks@)),
        decreases addrs@.len() - i,
    {
        proof {
            lemma_adapted_all_prefix(v0, names, addrs@, i + 1, addrs@.len() as int, bound as int, adjust);
        }
        adapt_tree(blocks, interner, addrs[i], adjust);
        i += 1;
    }
}

/// The first `k` instructions are kept.
pub open spec fn keeps_prefix(before: Seq<Bytecode>, after: Seq<Bytecode>, k: int) -> bool {
    &&& 0 <= k <= before.len()
    &&& k <= after.len()
    &&& after.subrange(0, k) == before.subrange(0, k)
}

proof fn lemma_keeps_prefix_trans(a: Seq<Bytecode>, b: Seq<Bytecode>, c: Seq<Bytecode>, k1: int, k2: int, k: int)
    requires
        keeps_prefix(a, b, k1),
        keeps_prefix(b, c, k2),
        0 <= k <= k1,
        k <= k2,
    ensures
        keeps_prefix(a, c, k),
{
    assert(c.subrange(0, k) =~= a.subrange(0, k)) by {
        assert forall|i: int| 0 <= i < k implies c[i] == a[i] by {
            assert(c.subrange(0, k2)[i] == b.subrange(0, k2)[i]);
            assert(b.subrange(0, k1)[i] == a.subrange(0, k1)[i]);
        }
    }
}

/// Inlines the compiled block at `a` of the heap into the context (see
/// `block_inlined`).
fn inline_block(ctxt: &mut BlockGenCtxt, env: &mut CompileEnv, a: u64)
    requires
        old(ctxt).wf(),
        old(env).wf(),
        old(ctxt).body is Some,
        block_inlined(state_of(*old(ctxt), *old(env)), a) is Some,
    ensures
        final(ctxt).wf(),
        final(env).wf(),
        final(env).fields == old(env).fields,
        final(env).interner == old(env).interner,
        final(ctxt).scope == old(ctxt).scope,
        final(ctxt).args_nbr == old(ctxt).args_nbr,
        final(ctxt).body is Some,
        keeps_prefix(old(ctxt).instrs(), final(ctxt).instrs(), old(ctxt).instrs().len() as int),
        block_inlined(state_of(*old(ctxt), *old(env)), a) == Some(state_of(*final(ctxt), *final(env))),
{
    let ghost s0 = state_of(*ctxt, *env);
    assert(a < env.heap.blocks.len());
    assert(s0.heap.blocks[a as int] == block_view(env.heap.blocks@[a as int]));
    let r = inline_compiled_block(ctxt, &env.heap.blocks[a as usize]);
    match r {
        Some(kids) => {
            proof {
                let blk = s0.heap.blocks[a as int];
                lemma_inline_run_prefix(
                    s0.instrs,
                    s0.lits,
                    blk.body,
                    blk.literals,
                    s0.locals as u8,
                    blk.nbr_params as u8,
                    moved_len(blk.body),
                );
                assert(s0.instrs.subrange(0, s0.instrs.len() as int) =~= s0.instrs);
            }
            adapt_blocks(&mut env.heap.blocks, &env.interner, &kids, a, 1);
        },
        // A block that cannot be inlined: ruled out by the precondition.
        None => {},
    }
}

/// Inlines the block the last instruction pushes instead of pushing it
/// (see `last_push_inlined`).
fn inline_last_push_block(ctxt: &mut BlockGenCtxt, env: &mut CompileEnv)
    requires
        old(ctxt).wf(),
        old(env).wf(),
        old(ctxt).body is Some,
        old(ctxt).instrs().len() > 0,
        old(ctxt).instrs().last() is PushBlock,
        last_push_inlined(state_of(*old(ctxt), *old(env))) is Some,
    ensures
        final(ctxt).wf(),
        final(env).wf(),
        final(env).fields == old(env).fields,
        final(env).interner == old(env).interner,
        final(ctxt).scope == old(ctxt).scope,
        final(ctxt).args_nbr == old(ctxt).args_nbr,
        final(ctxt).body is Some,
        keeps_prefix(old(ctxt).instrs(), final(ctxt).instrs(), old(ctxt).instrs().len() - 1),
        last_push_inlined(state_of(*old(ctxt), *old(env))) == Some(state_of(*final(ctxt), *final(env))),
{
    let ghost i0 = ctxt.instrs();
    match take_last_push_block(ctxt) {
        Some(a) => {
            proof {
                assert(ctxt.instrs().subrange(0, i0.len() - 1) =~= i0.subrange(0, i0.len() - 1));
            }
            let ghost i1 = ctxt.instrs();
            inline_block(ctxt, env, a);
            proof {
                lemma_keeps_prefix_trans(i0, i1, ctxt.instrs(), i0.len() - 1, i1.len() as int, i0.len() - 1);
            }
        },
        None => {
            proof {
                assert(ctxt.instrs().subrange(0, i0.len() - 1) =~= i0.subrange(0, i0.len() - 1));
            }
        },
    }
}

/// After the code of an expression to inline: when it ends with a
/// `PushBlock`, inlines that block (see `tail_inlined`).
fn inline_tail(ctxt: &mut BlockGenCtxt, env: &mut CompileEnv)
    requires
        old(ctxt).wf(),
        old(env).wf(),
        old(ctxt).body is Some,
        old(ctxt).instrs().len() > 0,
        tail_inlined(Some(state_of(*old(ctxt), *old(env)))) is Some,
    ensures
        final(ctxt).wf(),
        final(env).wf(),
        final(env).fields == old(env).fields,
        final(env).interner == old(env).interner,
        final(ctxt).scope == old(ctxt).scope,
        final(ctxt).args_nbr == old(ctxt).args_nbr,
        final(ctxt).body is Some,
        keeps_prefix(old(ctxt).instrs(), final(ctxt).instrs(), old(ctxt).instrs().len() - 1),
        tail_inlined(Some(state_of(*old(ctxt), *old(env)))) == Some(state_of(*final(ctxt), *final(env))),
{
    let n = ctxt.get_cur_instr_idx();
    let ends_with_block = match ctxt.get_instructions()[n - 1] {
        Bytecode::PushBlock(_) => true,
        _ => false,
    };
    if ends_with_block {
        inline_last_push_block(ctxt, env);
    } else {
        proof {
            let i0 = ctxt.instrs();
            assert(i0.subrange(0, i0.len() - 1) =~= i0.subrange(0, i0.len() - 1));
        }
    }
}

/// Whether the arguments of a control message (and, for a loop, the code of
/// its receiver) have the shape its inlining needs (see `shape_ok`).
fn shape_matches(k: InlineKind, vals: &Vec<Expression>, ctxt: &BlockGenCtxt) -> (r: bool)
    requires
        ctxt.body is Some,
    ensures
        r == shape_ok(k, vals@, ctxt.instrs()),
{
    let is_block_at = |i: usize| -> (b: bool)
        requires
            i < vals@.len(),
        ensures
            b == vals@[i as int] is Block,
        {
            match &vals[i] {
                Expression::Block(_) => true,
                _ => false,
            }
        };
    match k {
        InlineKind::IfTrueOrIfFalse(_) | InlineKind::OrAnd(_) | InlineKind::IfNilOrIfNotNil(_) => vals.len() == 1
            && is_block_at(0),
        InlineKind::IfTrueIfFalse(_) | InlineKind::IfNilIfNotNil(_) => vals.len() == 2 && is_block_at(0)
            && is_block_at(1),
        InlineKind::While(_) => {
            let instrs = ctxt.get_instructions();
            let n = instrs.len();
            vals.len() == 1 && n > 0 && match instrs[n - 1] {
                Bytecode::PushBlock(_) => true,
                _ => false,
            } && is_block_at(0)
        },
        InlineKind::ToDo => vals.len() == 2 && is_block_at(1),
    }
}

/// The instruction at an index below a kept prefix is the same.
proof fn lemma_kept_at(a: Seq<Bytecode>, b: Seq<Bytecode>, k: int, j: int)
    requires
        keeps_prefix(a, b, k),
        0 <= j < k,
    ensures
        b[j] == a[j],
{
    assert(b.subrange(0, k)[j] == a.subrange(0, k)[j]);
}

/// Code emitted after `a` (keeping it) then followed by an inlining step
/// (keeping all but its last instruction) keeps `a`.
proof fn lemma_code_then_tail(a: Seq<Bytecode>, b: Seq<Bytecode>, c: Seq<Bytecode>)
    requires
        a.len() < b.len(),
        b.subrange(0, a.len() as int) == a,
        keeps_prefix(b, c, b.len() - 1),
    ensures
        keeps_prefix(a, c, a.len() as int),
{
    assert(c.subrange(0, a.len() as int) =~= a.subrange(0, a.len() as int)) by {
        assert forall|x: int| 0 <= x < a.len() implies c[x] == a[x] by {
            assert(c.subrange(0, b.len() - 1)[x] == b.subrange(0, b.len() - 1)[x]);
            assert(b.subrange(0, a.len() as int)[x] == a[x]);
        }
    }
}

/// Instructions appended or changed at or after `k` keep the first `k`.
proof fn lemma_keeps_before(a: Seq<Bytecode>, b: Seq<Bytecode>, k: int)
    requires
        0 <= k <= a.len(),
        k <= b.len(),
        forall|x: int| 0 <= x < k ==> b[x] == a[x],
    ensures
        keeps_prefix(a, b, k),
{
    assert(b.subrange(0, k) =~= a.subrange(0, k));
}

/// Inlines `ifTrue:` / `ifFalse:`: a jump over the inlined block, which
/// leaves `nil` when it jumps.
fn inline_if_true_or_if_false(jt: JumpType, vals: &Vec<Expression>, ctxt: &mut BlockGenCtxt, env: &mut CompileEnv)
    requires
        old(ctxt).wf(),
        old(env).wf(),
        old(ctxt).body is Some,
        old(ctxt).instrs().len() > 0,
        shape_ok(InlineKind::IfTrueOrIfFalse(jt), vals@, old(ctxt).instrs()),
        gen_inlined(state_of(*old(ctxt), *old(env)), old(ctxt).scope as int, old(env).fields@, vals@, InlineKind::IfTrueOrIfFalse(jt))
            is Some,
    ensures
        final(ctxt).wf(),
        final(env).wf(),
        final(env).fields == old(env).fields,
        old(env).interner.view().len() <= final(env).interner.view().len(),
        final(ctxt).scope == old(ctxt).scope,
        final(ctxt).args_nbr == old(ctxt).args_nbr,
        final(ctxt).body is Some,
        old(ctxt).instrs().len() <= final(ctxt).instrs().len(),
        keeps_prefix(old(ctxt).instrs(), final(ctxt).instrs(), old(ctxt).instrs().len() - 1),
        gen_inlined(state_of(*old(ctxt), *old(env)), old(ctxt).scope as int, old(env).fields@, vals@, InlineKind::IfTrueOrIfFalse(jt))
            == Some(state_of(*final(ctxt), *final(env))),
    decreases vals,
{
    let ghost i1 = ctxt.instrs();
    let ghost l1 = i1.len() as int;
    proof {
        assert(decreases_to!(vals => vals@));
        assert(decreases_to!(vals@ => vals@[0]));
        if vals@.len() >= 2 {
            assert(decreases_to!(vals@ => vals@[1]));
        }
    }
    let j = begin_conditional(ctxt, jt, false, false);
    let ghost ia = ctxt.instrs();
    codegen(&vals[0], ctxt, env);
    let ghost ib = ctxt.instrs();
    inline_tail(ctxt, env);
    let ghost ic = ctxt.instrs();
    proof {
        lemma_code_then_tail(ia, ib, ic);
        lemma_kept_at(ia, ic, ia.len() as int, j as int);
    }
    ctxt.backpatch_jump_to_current(j);
    proof {
        let f = ctxt.instrs();
        assert forall|x: int| 0 <= x < l1 - 1 implies f[x] == i1[x] by {
            lemma_kept_at(ia, ic, ia.len() as int, x);
        }
        lemma_keeps_before(i1, f, l1 - 1);
    }
}

/// Inlines `ifNil:` / `ifNotNil:`: a jump over the inlined block, which
/// leaves the receiver when it jumps.
fn inline_if_nil_or_if_not_nil(jt: JumpType, vals: &Vec<Expression>, ctxt: &mut BlockGenCtxt, env: &mut CompileEnv)
    requires
        old(ctxt).wf(),
        old(env).wf(),
        old(ctxt).body is Some,
        old(ctxt).instrs().len() > 0,
        shape_ok(InlineKind::IfNilOrIfNotNil(jt), vals@, old(ctxt).instrs()),
        gen_inlined(state_of(*old(ctxt), *old(env)), old(ctxt).scope as int, old(env).fields@, vals@, InlineKind::IfNilOrIfNotNil(jt))
            is Some,
    ensures
        final(ctxt).wf(),
        final(env).wf(),
        final(env).fields == old(env).fields,
        old(env).interner.view().len() <= final(env).interner.view().len(),
        final(ctxt).scope == old(ctxt).scope,
        final(ctxt).args_nbr == old(ctxt).args_nbr,
        final(ctxt).body is Some,
        old(ctxt).instrs().len() <= final(ctxt).instrs().len(),
        keeps_prefix(old(ctxt).instrs(), final(ctxt).instrs(), old(ctxt).instrs().len() - 1),
        gen_inlined(state_of(*old(ctxt), *old(env)), old(ctxt).scope as int, old(env).fields@, vals@, InlineKind::IfNilOrIfNotNil(jt))
            == Some(state_of(*final(ctxt), *final(env))),
    decreases vals,
{
    let ghost i1 = ctxt.instrs();
    let ghost l1 = i1.len() as int;
    proof {
        assert(decreases_to!(vals => vals@));
        assert(decreases_to!(vals@ => vals@[0]));
        if vals@.len() >= 2 {
            assert(decreases_to!(vals@ => vals@[1]));
        }
    }
    let j = begin_conditional(ctxt, jt, true, false);
    let ghost ia = ctxt.instrs();
    codegen(&vals[0], ctxt, env);
    let ghost ib = ctxt.instrs();
    inline_tail(ctxt, env);
    let ghost ic = ctxt.instrs();
    proof {
        lemma_code_then_tail(ia, ib, ic);
        lemma_kept_at(ia, ic, ia.len() as int, j as int);
    }
    ctxt.backpatch_jump_to_current(j);
    proof {
        let f = ctxt.instrs();
        assert forall|x: int| 0 <= x < l1 - 1 implies f[x] == i1[x] by {
            lemma_kept_at(ia, ic, ia.len() as int, x);
        }
        lemma_keeps_before(i1, f, l1 - 1);
    }
}

/// Inlines `ifTrue:ifFalse:` / `ifFalse:ifTrue:`: a jump to the second
/// inlined block, and one over it after the first.
fn inline_if_true_if_false(jt: JumpType, vals: &Vec<Expression>, ctxt: &mut BlockGenCtxt, env: &mut CompileEnv)
    requires
        old(ctxt).wf(),
        old(env).wf(),
        old(ctxt).body is Some,
        old(ctxt).instrs().len() > 0,
        shape_ok(InlineKind::IfTrueIfFalse(jt), vals@, old(ctxt).instrs()),
        gen_inlined(state_of(*old(ctxt), *old(env)), old(ctxt).scope as int, old(env).fields@, vals@, InlineKind::IfTrueIfFalse(jt))
            is Some,
    ensures
        final(ctxt).wf(),
        final(env).wf(),
        final(env).fields == old(env).fields,
        old(env).interner.view().len() <= final(env).interner.view().len(),
        final(ctxt).scope == old(ctxt).scope,
        final(ctxt).args_nbr == old(ctxt).args_nbr,
        final(ctxt).body is Some,
        old(ctxt).instrs().len() <= final(ctxt).instrs().len(),
        keeps_prefix(old(ctxt).instrs(), final(ctxt).instrs(), old(ctxt).instrs().len() - 1),
        gen_inlined(state_of(*old(ctxt), *old(env)), old(ctxt).scope as int, old(env).fields@, vals@, InlineKind::IfTrueIfFalse(jt))
            == Some(state_of(*final(ctxt), *final(env))),
    decreases vals,
{
    let ghost i1 = ctxt.instrs();
    let ghost l1 = i1.len() as int;
    proof {
        assert(decreases_to!(vals => vals@));
        assert(decreases_to!(vals@ => vals@[0]));
        if vals@.len() >= 2 {
            assert(decreases_to!(vals@ => vals@[1]));
        }
    }
    let j = begin_conditional(ctxt, jt, false, true);
    let ghost ia = ctxt.instrs();
    codegen(&vals[0], ctxt, env);
    let ghost ib = ctxt.instrs();
    inline_tail(ctxt, env);
    let ghost ic = ctxt.instrs();
    proof {
        lemma_code_then_tail(ia, ib, ic);
        lemma_kept_at(ia, ic, ia.len() as int, j as int);
    }
    let m = middle_of_conditional(ctxt, j);
    let ghost id = ctxt.instrs();
    codegen(&vals[1], ctxt, env);
    let ghost ie = ctxt.instrs();
    inline_tail(ctxt, env);
    let ghost iff = ctxt.instrs();
    proof {
        lemma_code_then_tail(id, ie, iff);
        lemma_kept_at(id, iff, id.len() as int, m as int);
    }
    ctxt.backpatch_jump_to_current(m);
    proof {
        let f = ctxt.instrs();
        assert forall|x: int| 0 <= x < l1 - 1 implies f[x] == i1[x] by {
            lemma_kept_at(ia, ic, ia.len() as int, x);
            lemma_kept_at(id, iff, id.len() as int, x);
        }
        lemma_keeps_before(i1, f, l1 - 1);
    }
}

/// Inlines `ifNil:ifNotNil:` / `ifNotNil:ifNil:`: a jump to the second
/// inlined block, and one over it after the first.
fn inline_if_nil_if_not_nil(jt: JumpType, vals: &Vec<Expression>, ctxt: &mut BlockGenCtxt, env: &mut CompileEnv)
    requires
        old(ctxt).wf(),
        old(env).wf(),
        old(ctxt).body is Some,
        old(ctxt).instrs().len() > 0,
        shape_ok(InlineKind::IfNilIfNotNil(jt), vals@, old(ctxt).instrs()),
        gen_inlined(state_of(*old(ctxt), *old(env)), old(ctxt).scope as int, old(env).fields@, vals@, InlineKind::IfNilIfNotNil(jt))
            is Some,
    ensures
        final(ctxt).wf(),
        final(env).wf(),
        final(env).fields == old(env).fields,
        old(env).interner.view().len() <= final(env).interner.view().len(),
        final(ctxt).scope == old(ctxt).scope,
        final(ctxt).args_nbr == old(ctxt).args_nbr,
        final(ctxt).body is Some,
        old(ctxt).instrs().len() <= final(ctxt).instrs().len(),
        keeps_prefix(old(ctxt).instrs(), final(ctxt).instrs(), old(ctxt).instrs().len() - 1),
        gen_inlined(state_of(*old(ctxt), *old(env)), old(ctxt).scope as int, old(env).fields@, vals@, InlineKind::IfNilIfNotNil(jt))
            == Some(state_of(*final(ctxt), *final(env))),
    decreases vals,
{
    let ghost i1 = ctxt.instrs();
    let ghost l1 = i1.len() as int;
    proof {
        assert(decreases_to!(vals => vals@));
        assert(decreases_to!(vals@ => vals@[0]));
        if vals@.len() >= 2 {
            assert(decreases_to!(vals@ => vals@[1]));
        }
    }
    let j = begin_conditional(ctxt, jt, true, true);
    let ghost ia = ctxt.instrs();
    codegen(&vals[0], ctxt, env);
    let ghost ib = ctxt.instrs();
    inline_tail(ctxt, env);
    let ghost ic = ctxt.instrs();
    proof {
        lemma_code_then_tail(ia, ib, ic);
        lemma_kept_at(ia, ic, ia.len() as int, j as int);
    }
    let m = middle_of_conditional(ctxt, j);
    let ghost id = ctxt.instrs();
    codegen(&vals[1], ctxt, env);
    let ghost ie = ctxt.instrs();
    inline_tail(ctxt, env);
    let ghost iff = ctxt.instrs();
    proof {
        lemma_code_then_tail(id, ie, iff);
        lemma_kept_at(id, iff, id.len() as int, m as int);
    }
    ctxt.backpatch_jump_to_current(m);
    proof {
        let f = ctxt.instrs();
        assert forall|x: int| 0 <= x < l1 - 1 implies f[x] == i1[x] by {
            lemma_kept_at(ia, ic, ia.len() as int, x);
            lemma_kept_at(id, iff, id.len() as int, x);
        }
        lemma_keeps_before(i1, f, l1 - 1);
    }
}

/// Inlines `whileTrue:` / `whileFalse:`: the receiver block and the
/// argument block are both inlined, with a jump out and a jump back.
fn inline_while(jt: JumpType, vals: &Vec<Expression>, ctxt: &mut BlockGenCtxt, env: &mut CompileEnv)
    requires
        old(ctxt).wf(),
        old(env).wf(),
        old(ctxt).body is Some,
        old(ctxt).instrs().len() > 0,
        shape_ok(InlineKind::While(jt), vals@, old(ctxt).instrs()),
        gen_inlined(state_of(*old(ctxt), *old(env)), old(ctxt).scope as int, old(env).fields@, vals@, InlineKind::While(jt))
            is Some,
    ensures
        final(ctxt).wf(),
        final(env).wf(),
        final(env).fields == old(env).fields,
        old(env).interner.view().len() <= final(env).interner.view().len(),
        final(ctxt).scope == old(ctxt).scope,
        final(ctxt).args_nbr == old(ctxt).args_nbr,
        final(ctxt).body is Some,
        old(ctxt).instrs().len() <= final(ctxt).instrs().len(),
        keeps_prefix(old(ctxt).instrs(), final(ctxt).instrs(), old(ctxt).instrs().len() - 1),
        gen_inlined(state_of(*old(ctxt), *old(env)), old(ctxt).scope as int, old(env).fields@, vals@, InlineKind::While(jt))
            == Some(state_of(*final(ctxt), *final(env))),
    decreases vals,
{
    let ghost i1 = ctxt.instrs();
    let ghost l1 = i1.len() as int;
    proof {
        assert(decreases_to!(vals => vals@));
        assert(decreases_to!(vals@ => vals@[0]));
        if vals@.len() >= 2 {
            assert(decreases_to!(vals@ => vals@[1]));
        }
    }

    let pre = ctxt.get_cur_instr_idx();
    inline_last_push_block(ctxt, env);
    let ghost ib = ctxt.instrs();
    let c = begin_conditional(ctxt, jt, false, true);
    let ghost ic = ctxt.instrs();
    codegen(&vals[0], ctxt, env);
    let ghost id = ctxt.instrs();
    inline_tail(ctxt, env);
    let ghost ie = ctxt.instrs();
    proof {
        lemma_code_then_tail(ic, id, ie);
        lemma_kept_at(ic, ie, ic.len() as int, c as int);
    }
    end_while(ctxt, pre, c);
    proof {
        let f = ctxt.instrs();
        assert forall|x: int| 0 <= x < l1 - 1 implies f[x] == i1[x] by {
            lemma_kept_at(i1, ib, l1 - 1, x);
            lemma_kept_at(ic, ie, ic.len() as int, x);
        }
        lemma_keeps_before(i1, f, l1 - 1);
    }
}

/// Inlines `or:` / `and:`: a jump to the constant answer over the inlined
/// block.
fn inline_or_and(choice: OrAndChoice, vals: &Vec<Expression>, ctxt: &mut BlockGenCtxt, env: &mut CompileEnv)
    requires
        old(ctxt).wf(),
        old(env).wf(),
        old(ctxt).body is Some,
        old(ctxt).instrs().len() > 0,
        shape_ok(InlineKind::OrAnd(choice), vals@, old(ctxt).instrs()),
        gen_inlined(state_of(*old(ctxt), *old(env)), old(ctxt).scope as int, old(env).fields@, vals@, InlineKind::OrAnd(choice))
            is Some,
    ensures
        final(ctxt).wf(),
        final(env).wf(),
        final(env).fields == old(env).fields,
        old(env).interner.view().len() <= final(env).interner.view().len(),
        final(ctxt).scope == old(ctxt).scope,
        final(ctxt).args_nbr == old(ctxt).args_nbr,
        final(ctxt).body is Some,
        old(ctxt).instrs().len() <= final(ctxt).instrs().len(),
        keeps_prefix(old(ctxt).instrs(), final(ctxt).instrs(), old(ctxt).instrs().len() - 1),
        gen_inlined(state_of(*old(ctxt), *old(env)), old(ctxt).scope as int, old(env).fields@, vals@, InlineKind::OrAnd(choice))
            == Some(state_of(*final(ctxt), *final(env))),
    decreases vals,
{
    let ghost i1 = ctxt.instrs();
    let ghost l1 = i1.len() as int;
    proof {
        assert(decreases_to!(vals => vals@));
        assert(decreases_to!(vals@ => vals@[0]));
        if vals@.len() >= 2 {
            assert(decreases_to!(vals@ => vals@[1]));
        }
    }

    let j = begin_or_and(ctxt, choice);
    let ghost ia = ctxt.instrs();
    codegen(&vals[0], ctxt, env);
    let ghost ib = ctxt.instrs();
    inline_tail(ctxt, env);
    let ghost ic = ctxt.instrs();
    let ghost names0 = env.interner.view();
    proof {
        lemma_code_then_tail(ia, ib, ic);
        lemma_kept_at(ia, ic, ia.len() as int, j as int);
    }
    let ghost st3 = state_of(*ctxt, *env);
    end_or_and(ctxt, &mut env.interner, choice, j);
    proof {
        let name = or_and_name(choice);
        let n3 = env.interner.view();
        let id = Interned(id_of(n3, name) as u32);
        let sym = Literal::Symbol(id);
        assert(intern_name(names0, name) == Some((n3, id)));
        let cm = GenState { names: n3, ..cond_middle(st3, j as int) };
        let target = backpatched(
            emit_with_literal(cm, sym, |x: u8| literal_ref_instr(LiteralRef::Global, x)),
            st3.instrs.len() as int,
        );
        assert(target.instrs =~= ctxt.instrs());
        assert(target.lits == ctxt.lits());
        assert(target == state_of(*ctxt, *env));
        assert forall|i: int| 0 <= i < env.fields@.len() implies (#[trigger] env.fields@[i]).0
            < env.interner.view().len() by {
            assert(env.fields@[i].0 < names0.len());
        }
        let f = ctxt.instrs();
        assert forall|x: int| 0 <= x < l1 - 1 implies f[x] == i1[x] by {
            lemma_kept_at(ia, ic, ia.len() as int, x);
        }
        lemma_keeps_before(i1, f, l1 - 1);
    }
}

/// Inlines `to:do:`: the counter in a new local, the inlined body, and the
/// test and increment around it.
fn inline_to_do(vals: &Vec<Expression>, ctxt: &mut BlockGenCtxt, env: &mut CompileEnv)
    requires
        old(ctxt).wf(),
        old(env).wf(),
        old(ctxt).body is Some,
        old(ctxt).instrs().len() > 0,
        shape_ok(InlineKind::ToDo, vals@, old(ctxt).instrs()),
        gen_inlined(state_of(*old(ctxt), *old(env)), old(ctxt).scope as int, old(env).fields@, vals@, InlineKind::ToDo)
            is Some,
    ensures
        final(ctxt).wf(),
        final(env).wf(),
        final(env).fields == old(env).fields,
        old(env).interner.view().len() <= final(env).interner.view().len(),
        final(ctxt).scope == old(ctxt).scope,
        final(ctxt).args_nbr == old(ctxt).args_nbr,
        final(ctxt).body is Some,
        old(ctxt).instrs().len() <= final(ctxt).instrs().len(),
        keeps_prefix(old(ctxt).instrs(), final(ctxt).instrs(), old(ctxt).instrs().len() - 1),
        gen_inlined(state_of(*old(ctxt), *old(env)), old(ctxt).scope as int, old(env).fields@, vals@, InlineKind::ToDo)
            == Some(state_of(*final(ctxt), *final(env))),
    decreases vals,
{
    let ghost i1 = ctxt.instrs();
    let ghost l1 = i1.len() as int;
    proof {
        assert(decreases_to!(vals => vals@));
        assert(decreases_to!(vals@ => vals@[0]));
        if vals@.len() >= 2 {
            assert(decreases_to!(vals@ => vals@[1]));
        }
    }

    codegen(&vals[0], ctxt, env);
    let ghost ia = ctxt.instrs();
    inline_tail(ctxt, env);
    let ghost ib = ctxt.instrs();
    proof {
        lemma_code_then_tail(i1, ia, ib);
    }
    let jig = begin_to_do(ctxt);
    let ghost ic = ctxt.instrs();
    codegen(&vals[1], ctxt, env);
    let ghost id = ctxt.instrs();
    inline_tail(ctxt, env);
    let ghost ie = ctxt.instrs();
    proof {
        lemma_code_then_tail(ic, id, ie);
        lemma_kept_at(ic, ie, ic.len() as int, jig as int);
    }
    end_to_do(ctxt, jig);
    proof {
        let f = ctxt.instrs();
        assert forall|x: int| 0 <= x < l1 - 1 implies f[x] == i1[x] by {
            lemma_kept_at(i1, ib, l1, x);
            lemma_kept_at(ic, ie, ic.len() as int, x);
        }
        lemma_keeps_before(i1, f, l1 - 1);
    }
}

/// Emits the code of an expression into a context.
pub fn codegen(e: &Expression, ctxt: &mut BlockGenCtxt, env: &mut CompileEnv)
    requires
        old(ctxt).wf(),
        old(env).wf(),
        gen_expr(state_of(*old(ctxt), *old(env)), old(ctxt).scope as int, old(env).fields@, *e) is Some,
    ensures
        final(ctxt).wf(),
        final(env).wf(),
        final(env).fields == old(env).fields,
        old(env).interner.view().len() <= final(env).interner.view().len(),
        final(ctxt).scope == old(ctxt).scope,
        final(ctxt).args_nbr == old(ctxt).args_nbr,
        final(ctxt).body is Some,
        old(ctxt).instrs().len() < final(ctxt).instrs().len(),
        final(ctxt).instrs().subrange(0, old(ctxt).instrs().len() as int) == old(ctxt).instrs(),
        gen_expr(state_of(*old(ctxt), *old(env)), old(ctxt).scope as int, old(env).fields@, *e) == Some(
            state_of(*final(ctxt), *final(env)),
        ),
    decreases e,
{
    match e {
        Expression::LocalVarRead(idx) => ctxt.push_instr(Bytecode::PushLocal(*idx as u8)),
        Expression::NonLocalVarRead(up, idx) => ctxt.push_instr(Bytecode::PushNonLocal(*up as u8, *idx as u8)),
        Expression::ArgRead(up, idx) => {
            let instr = if *up == 0 && *idx == 0 {
                Bytecode::PushSelf
            } else if *up == 0 {
                Bytecode::PushArg(*idx as u8)
            } else {
                Bytecode::PushNonLocalArg(*up as u8, *idx as u8)
            };
            ctxt.push_instr(instr);
        },
        Expression::GlobalRead(name) => match find_field(env, name.as_str()) {
            Some(idx) => ctxt.push_instr(Bytecode::PushField(idx as u8)),
            None => {
                if str_eq(name.as_str(), "nil") {
                    ctxt.push_instr(Bytecode::PushNil);
                } else if str_eq(name.as_str(), "super") {
                    let scope = ctxt.get_scope();
                    if scope == 0 {
                        ctxt.push_instr(Bytecode::PushSelf);
                    } else {
                        ctxt.push_instr(Bytecode::PushNonLocalArg(scope as u8, 0));
                    }
                } else {
                    let id = intern_symbol(env, name.as_str());
                    emit_literal_ref(ctxt, env, Literal::Symbol(id), LiteralRef::Global);
                }
            },
        },
        Expression::LocalVarWrite(idx, x) => {
            proof {
                assert(decreases_to!(*e => (*e)->LocalVarWrite_1));
            }
            codegen(x, ctxt, env);
            ctxt.push_instr(Bytecode::Dup);
            ctxt.push_instr(Bytecode::PopLocal(0, *idx as u8));
        },
        Expression::NonLocalVarWrite(up, idx, x) => {
            proof {
                assert(decreases_to!(*e => (*e)->NonLocalVarWrite_2));
            }
            codegen(x, ctxt, env);
            ctxt.push_instr(Bytecode::Dup);
            ctxt.push_instr(Bytecode::PopLocal(*up as u8, *idx as u8));
        },
        Expression::GlobalWrite(name, x) => match find_field(env, name.as_str()) {
            Some(idx) => {
                proof {
                    assert(decreases_to!(*e => (*e)->GlobalWrite_1));
                }
                codegen(x, ctxt, env);
                ctxt.push_instr(Bytecode::Dup);
                ctxt.push_instr(Bytecode::PopField(idx as u8));
            },
            // An assignment to a name that is no field: ruled out by the
            // precondition.
            None => {},
        },
        Expression::ArgWrite(up, idx, x) => {
            proof {
                assert(decreases_to!(*e => (*e)->ArgWrite_2));
            }
            codegen(x, ctxt, env);
            ctxt.push_instr(Bytecode::Dup);
            ctxt.push_instr(Bytecode::PopArg(*up as u8, *idx as u8));
        },
        Expression::Message(m) => {
            proof {
                assert(decreases_to!(*e => (*e)->Message_0));
            }
            codegen_message(m, ctxt, env);
        },
        Expression::Exit(x, up) => {
            let returns_self = match &**x {
                Expression::ArgRead(0, 0) => *up == 0,
                _ => false,
            };
            if returns_self {
                ctxt.push_instr(Bytecode::ReturnSelf);
            } else {
                proof {
                    assert(decreases_to!(*e => (*e)->Exit_0));
                }
                codegen(x, ctxt, env);
                if *up == 0 {
                    ctxt.push_instr(Bytecode::ReturnLocal);
                } else {
                    ctxt.push_instr(Bytecode::ReturnNonLocal(*up as u8));
                }
            }
        },
        Expression::Literal(lit) => {
            let l = convert_literal(lit, ctxt, env);
            match l {
                Literal::Integer(0) => ctxt.push_instr(Bytecode::Push0),
                Literal::Integer(1) => ctxt.push_instr(Bytecode::Push1),
                _ => emit_literal_ref(ctxt, env, l, LiteralRef::Constant),
            }
        },
        Expression::Block(b) => {
            proof {
                assert(decreases_to!(*e => (*e)->Block_0));
            }
            let l = compile_block(b, ctxt, env);
            emit_literal_ref(ctxt, env, l, LiteralRef::Block);
        },
    }
}

/// Emits the code of a message send into a context.
pub fn codegen_message(m: &Message, ctxt: &mut BlockGenCtxt, env: &mut CompileEnv)
    requires
        old(ctxt).wf(),
        old(env).wf(),
        gen_message(state_of(*old(ctxt), *old(env)), old(ctxt).scope as int, old(env).fields@, *m) is Some,
    ensures
        final(ctxt).wf(),
        final(env).wf(),
        final(env).fields == old(env).fields,
        old(env).interner.view().len() <= final(env).interner.view().len(),
        final(ctxt).scope == old(ctxt).scope,
        final(ctxt).args_nbr == old(ctxt).args_nbr,
        final(ctxt).body is Some,
        old(ctxt).instrs().len() < final(ctxt).instrs().len(),
        final(ctxt).instrs().subrange(0, old(ctxt).instrs().len() as int) == old(ctxt).instrs(),
        gen_message(state_of(*old(ctxt), *old(env)), old(ctxt).scope as int, old(env).fields@, *m) == Some(
            state_of(*final(ctxt), *final(env)),
        ),
    decreases m,
{
    let ghost i0 = ctxt.instrs();
    let is_super = match &m.receiver {
        Expression::GlobalRead(s) => str_eq(s.as_str(), "super"),
        _ => false,
    };
    codegen(&m.receiver, ctxt, env);
    let sig = m.signature.as_str();
    let ghost i1 = ctxt.instrs();
    if let Some(k) = inline_kind(sig) {
        if shape_matches(k, &m.values, ctxt) {
            proof {
                assert(decreases_to!(*m => m.values));
            }
            match k {
                InlineKind::IfTrueOrIfFalse(jt) => inline_if_true_or_if_false(jt, &m.values, ctxt, env),
                InlineKind::IfNilOrIfNotNil(jt) => inline_if_nil_or_if_not_nil(jt, &m.values, ctxt, env),
                InlineKind::IfTrueIfFalse(jt) => inline_if_true_if_false(jt, &m.values, ctxt, env),
                InlineKind::IfNilIfNotNil(jt) => inline_if_nil_if_not_nil(jt, &m.values, ctxt, env),
                InlineKind::While(jt) => inline_while(jt, &m.values, ctxt, env),
                InlineKind::OrAnd(choice) => inline_or_and(choice, &m.values, ctxt, env),
                InlineKind::ToDo => inline_to_do(&m.values, ctxt, env),
            }
            proof {
                let i2 = ctxt.instrs();
                assert(i2.subrange(0, i0.len() as int) =~= i0) by {
                    assert forall|x: int| 0 <= x < i0.len() implies i2[x] == i0[x] by {
                        assert(i2.subrange(0, i1.len() - 1)[x] == i1.subrange(0, i1.len() - 1)[x]);
                        assert(i1.subrange(0, i0.len() as int)[x] == i0[x]);
                    }
                }
            }
            return;
        }
    }
    let plus = str_eq(sig, "+");
    let minus = str_eq(sig, "-");
    let by_one = m.values.len() == 1 && match &m.values[0] {
        Expression::Literal(AstLiteral::Integer(1)) => true,
        _ => false,
    };
    if (plus || minus) && !is_super && by_one {
        if plus {
            ctxt.push_instr(Bytecode::Inc);
        } else {
            ctxt.push_instr(Bytecode::Dec);
        }
    } else {
        let ghost s1 = state_of(*ctxt, *env);
        let ghost scope = ctxt.scope as int;
        let ghost fields = env.fields@;
        let n = m.values.len();
        proof {
            lemma_seq_prefix(s1, scope, fields, m.values@, 0, n as int);
        }
        let mut i: usize = 0;
        while i < n
            invariant
                ctxt.wf(),
                env.wf(),
                env.fields == old(env).fields,
                old(env).interner.view().len() <= env.interner.view().len(),
                fields == env.fields@,
                ctxt.scope == old(ctxt).scope,
                scope == ctxt.scope as int,
                ctxt.args_nbr == old(ctxt).args_nbr,
                ctxt.body is Some,
                n == m.values@.len(),
                i <= n,
                i0.len() < ctxt.instrs().len(),
                ctxt.instrs().subrange(0, i0.len() as int) == i0,
                gen_seq(s1, scope, fields, m.values@, n as int) is Some,
                gen_seq(s1, scope, fields, m.values@, i as int) == Some(state_of(*ctxt, *env)),
            decreases n - i,
        {
            proof {
                lemma_seq_prefix(s1, scope, fields, m.values@, i + 1, n as int);
                assert(decreases_to!(*m => m.values));
                assert(decreases_to!(m.values => m.values@));
                assert(decreases_to!(m.values@ => m.values@[i as int]));
            }
            codegen(&m.values[i], ctxt, env);
            i += 1;
        }
        let nb = nb_params(sig);
        let sym = intern_symbol(env, sig);
        let instr = if is_super {
            Bytecode::SuperSend(sym)
        } else if nb == 0 {
            Bytecode::Send1(sym)
        } else if nb == 1 {
            Bytecode::Send2(sym)
        } else if nb == 2 {
            Bytecode::Send3(sym)
        } else {
            Bytecode::SendN(sym)
        };
        ctxt.push_instr(instr);
    }
}

/// Compiles a block nested in a context: its body in a fresh context one
/// scope deeper, each expression followed by a `POP` but the last, followed
/// by a `ReturnLocal`; the compiled block goes to the heap, and the literal
/// that refers to it is returned.
pub fn compile_block(b: &AstBlock, ctxt: &BlockGenCtxt, env: &mut CompileEnv) -> (r: Literal)
    requires
        old(env).wf(),
        gen_block(state_of(*ctxt, *old(env)), ctxt.scope as int, old(env).fields@, *b) is Some,
    ensures
        final(env).wf(),
        final(env).fields == old(env).fields,
        old(env).interner.view().len() <= final(env).interner.view().len(),
        gen_block(state_of(*ctxt, *old(env)), ctxt.scope as int, old(env).fields@, *b) == Some(
            (state_of(*ctxt, *final(env)), r),
        ),
    decreases b,
{
    let ghost st0 = state_of(*ctxt, *env);
    let ghost inner0 = GenState { instrs: Seq::empty(), lits: Seq::empty(), locals: b.nbr_locals, ..st0 };
    let ghost fields = env.fields@;
    let mut inner = BlockGenCtxt::new(ctxt.scope, b.nbr_params, b.nbr_locals);
    let ghost scope = inner.scope as int;
    assert(state_of(inner, *env) == inner0);
    let n = b.body.len();
    proof {
        lemma_block_body_prefix(inner0, scope, fields, b.body@, 0, n as int);
    }
    let mut i: usize = 0;
    while i < n
        invariant
            inner.wf(),
            env.wf(),
            env.fields == old(env).fields,
            old(env).interner.view().len() <= env.interner.view().len(),
            fields == env.fields@,
            scope == inner.scope as int,
            scope == ctxt.scope + 1,
            inner.args_nbr == b.nbr_params,
            n == b.body@.len(),
            i <= n,
            i == 0 ==> inner.body is None,
            i > 0 ==> inner.body is Some,
            gen_block_body(inner0, scope, fields, b.body@, n as int) is Some,
            gen_block_body(inner0, scope, fields, b.body@, i as int) == Some(state_of(inner, *env)),
        decreases n - i,
    {
        proof {
            lemma_block_body_prefix(inner0, scope, fields, b.body@, i + 1, n as int);
            assert(decreases_to!(*b => b.body));
            assert(decreases_to!(b.body => b.body@));
            assert(decreases_to!(b.body@ => b.body@[i as int]));
        }
        codegen(&b.body[i], &mut inner, env);
        if i + 1 == n {
            inner.push_instr(Bytecode::ReturnLocal);
        } else {
            inner.push_instr(Bytecode::Pop);
        }
        i += 1;
    }
    let ghost inner_st = state_of(inner, *env);
    let info = finish_block(&mut inner, &env.interner);
    let idx = env.heap.blocks.len() as u64;
    let ghost view = block_view(info);
    env.heap.blocks.push(info);
    proof {
        assert(env.heap.view().blocks =~= inner_st.heap.blocks.push(view));
        assert(env.heap.view() == HeapView { blocks: inner_st.heap.blocks.push(view), ..inner_st.heap });
    }
    Literal::Block(idx)
}

/// The code of the first `k` expressions of a method's body, each followed
/// by a `POP`.
pub open spec fn gen_method_exprs(st: GenState, fields: Seq<Interned>, es: Seq<Expression>, k: int) -> Option<
    GenState,
>
    decreases es, k,
{
    if k <= 0 || k > es.len() {
        Some(st)
    } else {
        match gen_method_exprs(st, fields, es, k - 1) {
            Some(s) => match gen_expr(s, 0, fields, es[k - 1]) {
                Some(s2) => Some(emit(s2, Bytecode::Pop)),
                None => None,
            },
            None => None,
        }
    }
}

/// The state after compiling a method's expressions in a fresh method
/// context.
pub open spec fn method_exprs_state(st: GenState, fields: Seq<Interned>, es: Seq<Expression>, locals: usize) -> Option<
    GenState,
> {
    gen_method_exprs(
        GenState { instrs: Seq::empty(), lits: Seq::empty(), locals, ..st },
        fields,
        es,
        es.len() as int,
    )
}

/// A compiled method, as plain values.
pub enum CompiledView {
    Primitive,
    Trivial(TrivialKind),
    Defined(BlockView),
}

/// A compiled method as plain values.
pub open spec fn method_view(m: CompiledMethod) -> CompiledView {
    match m {
        CompiledMethod::Primitive => CompiledView::Primitive,
        CompiledMethod::Trivial(k) => CompiledView::Trivial(k),
        CompiledMethod::Defined(info) => CompiledView::Defined(block_view(info)),
    }
}

/// The method a finished body makes: trivial when the body allows it, else
/// a bytecode method with that body and literal table, and the stack size
/// its frames need.
pub open spec fn finished_method(
    body: Seq<Bytecode>,
    lits: Seq<Literal>,
    params: nat,
    locals: usize,
    names: Seq<Seq<char>>,
) -> CompiledView {
    match trivial_method(body, lits, params as int) {
        Some(k) => CompiledView::Trivial(k),
        None => CompiledView::Defined(
            BlockView {
                body,
                literals: lits,
                nbr_locals: locals,
                nbr_params: params as usize,
                max_stack_size: (max_stack_depth(body, names, body.len() as int) + 1) as u8,
            },
        ),
    }
}

/// The names and heap of the environment, with no instruction and no
/// literal: the state a method starts compiling from.
pub open spec fn env_state(env: CompileEnv) -> GenState {
    GenState { instrs: Seq::empty(), lits: Seq::empty(), locals: 0, names: env.interner.view(), heap: env.heap.view() }
}

/// A method definition compiled in a class whose fields are `fields`: the
/// new names and heap, and the method; `None` when the compiler would fail
/// (an empty signature, or a body that does not compile or cannot be
/// analyzed). A primitive stays one; a body has its expressions compiled,
/// each followed by a `POP`, its end settled and its redundant sequences
/// removed.
pub open spec fn method_compiled(st: GenState, fields: Seq<Interned>, d: MethodDef) -> Option<
    (GenState, CompiledView),
> {
    if d.signature@.len() == 0 {
        None
    } else {
        match d.body {
            MethodBody::Primitive => Some((st, CompiledView::Primitive)),
            MethodBody::Body { locals_nbr, exprs } => match method_exprs_state(st, fields, exprs@, locals_nbr) {
                Some(s) => {
                    let empty = exprs@.len() == 0;
                    let body = finished_method_body(s.instrs, empty);
                    if dup_popx_pop_precondition(with_method_end(s.instrs, empty)) && stack_size_computable(
                        body,
                        s.names,
                    ) {
                        Some(
                            (
                                GenState {
                                    instrs: st.instrs,
                                    lits: st.lits,
                                    locals: st.locals,
                                    names: s.names,
                                    heap: s.heap,
                                },
                                finished_method(body, s.lits, selector_params(d.signature@), s.locals, s.names),
                            ),
                        )
                    } else {
                        None
                    }
                },
                None => None,
            },
        }
    }
}

/// When a method's expressions compile, so does each prefix of them.
proof fn lemma_method_exprs_prefix(st: GenState, fields: Seq<Interned>, es: Seq<Expression>, j: int, k: int)
    requires
        0 <= j <= k <= es.len(),
        gen_method_exprs(st, fields, es, k) is Some,
    ensures
        gen_method_exprs(st, fields, es, j) is Some,
    decreases k - j,
{
    if j < k {
        lemma_method_exprs_prefix(st, fields, es, j, k - 1);
    }
}

/// Compiles a method of a class whose fields are `env.fields` (see
/// `method_compiled`). The method keeps the definition's signature and has
/// no holder yet.
pub fn compile_method(defn: &MethodDef, env: &mut CompileEnv) -> (r: Method)
    requires
        old(env).wf(),
        method_compiled(env_state(*old(env)), old(env).fields@, *defn) is Some,
    ensures
        final(env).wf(),
        final(env).fields == old(env).fields,
        old(env).interner.view().len() <= final(env).interner.view().len(),
        method_compiled(env_state(*old(env)), old(env).fields@, *defn) == Some(
            (env_state(*final(env)), method_view(r.kind)),
        ),
        r.signature@ == defn.signature@,
        r.holder is None,
{
    let kind = compile_method_code(defn, env);
    Method { kind, signature: defn.signature.clone(), holder: None }
}

/// The code of a compiled method (see `compile_method`).
fn compile_method_code(defn: &MethodDef, env: &mut CompileEnv) -> (r: CompiledMethod)
    requires
        old(env).wf(),
        method_compiled(env_state(*old(env)), old(env).fields@, *defn) is Some,
    ensures
        final(env).wf(),
        final(env).fields == old(env).fields,
        old(env).interner.view().len() <= final(env).interner.view().len(),
        method_compiled(env_state(*old(env)), old(env).fields@, *defn) == Some(
            (env_state(*final(env)), method_view(r)),
        ),
{
    match &defn.body {
        MethodBody::Primitive => CompiledMethod::Primitive,
        MethodBody::Body { locals_nbr, exprs } => {
            let nargs = args_nbr(defn.signature.as_str());
            let mut ctxt = MethodGenCtxt::new(defn.signature.clone(), nargs, *locals_nbr);
            let ghost fields = env.fields@;
            let ghost st0 = state_of(ctxt.inner, *env);
            assert(st0 == GenState { instrs: Seq::empty(), lits: Seq::empty(), locals: *locals_nbr, ..env_state(*old(env)) });
            let n = exprs.len();
            proof {
                lemma_method_exprs_prefix(st0, fields, exprs@, 0, n as int);
            }
            let mut i: usize = 0;
            while i < n
                invariant
                    ctxt.inner.wf(),
                    env.wf(),
                    env.fields == old(env).fields,
                    old(env).interner.view().len() <= env.interner.view().len(),
                    fields == env.fields@,
                    ctxt.inner.scope == 0,
                    ctxt.signature@ == defn.signature@,
                    n == exprs@.len(),
                    i <= n,
                    i > 0 ==> ctxt.inner.body is Some,
                    gen_method_exprs(st0, fields, exprs@, n as int) is Some,
                    gen_method_exprs(st0, fields, exprs@, i as int) == Some(state_of(ctxt.inner, *env)),
                decreases n - i,
            {
                proof {
                    lemma_method_exprs_prefix(st0, fields, exprs@, i + 1, n as int);
                }
                codegen(&exprs[i], &mut ctxt.inner, env);
                ctxt.inner.push_instr(Bytecode::Pop);
                i += 1;
            }
            let r = finish_method(&mut ctxt, n == 0, &env.interner);
            r
        },
    }
}

} // verus!
