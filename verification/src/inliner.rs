//! Inlining of blocks into the method or block that sends them a control
//! message: the block's instructions are rewritten to run in the enclosing
//! context (its arguments and locals become locals there, its outer
//! references come one scope closer), and its literals move into the
//! enclosing literal table.

use crate::bytecode::{Bytecode, with_jump_offset};
use crate::compiler::{BlockGenCtxt, Literal, MethodInfo, literals_unique};
use crate::interner::{Interner, id_of, lemma_id_unique};
use crate::value::Interned;
use crate::method_compiler::{get_max_stack_size, max_stack_depth, sends_interned, stack_depth, stack_effect};
use crate::primitives::str_eq;
use vstd::prelude::*;

verus! {

/// Which way the conditional jump of an inlined control structure goes.
#[derive(Clone, Copy, Debug, PartialEq, Eq, Structural)]
pub enum JumpType {
    JumpOnFalse,
    JumpOnTrue,
}

/// Which of `or:` and `and:` is inlined.
#[derive(Clone, Copy, Debug, PartialEq, Eq, Structural)]
pub enum OrAndChoice {
    Or,
    And,
}

/// The inlining a message send gets, chosen by its selector.
#[derive(Clone, Copy, Debug, PartialEq, Eq, Structural)]
pub enum InlineKind {
    IfTrueOrIfFalse(JumpType),
    IfTrueIfFalse(JumpType),
    While(JumpType),
    OrAnd(OrAndChoice),
    ToDo,
    IfNilOrIfNotNil(JumpType),
    IfNilIfNotNil(JumpType),
}

/// The inlining for each selector that has one.
pub open spec fn inline_kind_of(s: Seq<char>) -> Option<InlineKind> {
    if s == "ifTrue:"@ {
        Some(InlineKind::IfTrueOrIfFalse(JumpType::JumpOnFalse))
    } else if s == "ifFalse:"@ {
        Some(InlineKind::IfTrueOrIfFalse(JumpType::JumpOnTrue))
    } else if s == "ifTrue:ifFalse:"@ {
        Some(InlineKind::IfTrueIfFalse(JumpType::JumpOnFalse))
    } else if s == "ifFalse:ifTrue:"@ {
        Some(InlineKind::IfTrueIfFalse(JumpType::JumpOnTrue))
    } else if s == "whileTrue:"@ {
        Some(InlineKind::While(JumpType::JumpOnFalse))
    } else if s == "whileFalse:"@ {
        Some(InlineKind::While(JumpType::JumpOnTrue))
    } else if s == "or:"@ || s == "||"@ {
        Some(InlineKind::OrAnd(OrAndChoice::Or))
    } else if s == "and:"@ || s == "&&"@ {
        Some(InlineKind::OrAnd(OrAndChoice::And))
    } else if s == "to:do:"@ {
        Some(InlineKind::ToDo)
    } else if s == "ifNil:"@ {
        Some(InlineKind::IfNilOrIfNotNil(JumpType::JumpOnFalse))
    } else if s == "ifNotNil:"@ {
        Some(InlineKind::IfNilOrIfNotNil(JumpType::JumpOnTrue))
    } else if s == "ifNil:ifNotNil:"@ {
        Some(InlineKind::IfNilIfNotNil(JumpType::JumpOnFalse))
    } else if s == "ifNotNil:ifNil:"@ {
        Some(InlineKind::IfNilIfNotNil(JumpType::JumpOnTrue))
    } else {
        None
    }
}

/// The inlining a message with this selector gets, if any.
pub fn inline_kind(signature: &str) -> (r: Option<InlineKind>)
    ensures
        r == inline_kind_of(signature@),
{
    if str_eq(signature, "ifTrue:") {
        Some(InlineKind::IfTrueOrIfFalse(JumpType::JumpOnFalse))
    } else if str_eq(signature, "ifFalse:") {
        Some(InlineKind::IfTrueOrIfFalse(JumpType::JumpOnTrue))
    } else if str_eq(signature, "ifTrue:ifFalse:") {
        Some(InlineKind::IfTrueIfFalse(JumpType::JumpOnFalse))
    } else if str_eq(signature, "ifFalse:ifTrue:") {
        Some(InlineKind::IfTrueIfFalse(JumpType::JumpOnTrue))
    } else if str_eq(signature, "whileTrue:") {
        Some(InlineKind::While(JumpType::JumpOnFalse))
    } else if str_eq(signature, "whileFalse:") {
        Some(InlineKind::While(JumpType::JumpOnTrue))
    } else if str_eq(signature, "or:") || str_eq(signature, "||") {
        Some(InlineKind::OrAnd(OrAndChoice::Or))
    } else if str_eq(signature, "and:") || str_eq(signature, "&&") {
        Some(InlineKind::OrAnd(OrAndChoice::And))
    } else if str_eq(signature, "to:do:") {
        Some(InlineKind::ToDo)
    } else if str_eq(signature, "ifNil:") {
        Some(InlineKind::IfNilOrIfNotNil(JumpType::JumpOnFalse))
    } else if str_eq(signature, "ifNotNil:") {
        Some(InlineKind::IfNilOrIfNotNil(JumpType::JumpOnTrue))
    } else if str_eq(signature, "ifNil:ifNotNil:") {
        Some(InlineKind::IfNilIfNotNil(JumpType::JumpOnFalse))
    } else if str_eq(signature, "ifNotNil:ifNil:") {
        Some(InlineKind::IfNilIfNotNil(JumpType::JumpOnTrue))
    } else {
        None
    }
}

/// The scope distance of a reference to an outer variable after the block
/// that holds it was inlined `adjust` scopes out: references to the block's
/// own variables stay, references past the inlined scope come one closer.
pub open spec fn adapted_up_idx(up: u8, adjust: usize) -> u8 {
    if up == 0 {
        0
    } else if up > (adjust as u8) {
        (up - 1) as u8
    } else {
        up
    }
}

/// An instruction of a block nested in an inlined block, adapted.
pub open spec fn adapt_instr(bc: Bytecode, adjust: usize) -> Bytecode {
    match bc {
        Bytecode::PushNonLocal(up, idx) => {
            let n = adapted_up_idx(up, adjust);
            if n == 0 {
                Bytecode::PushLocal(idx)
            } else {
                Bytecode::PushNonLocal(n, idx)
            }
        },
        Bytecode::PopLocal(up, idx) => Bytecode::PopLocal(adapted_up_idx(up, adjust), idx),
        Bytecode::PushNonLocalArg(up, idx) => {
            let n = adapted_up_idx(up, adjust);
            if n == 0 {
                if idx == 0 {
                    Bytecode::PushSelf
                } else {
                    Bytecode::PushArg(idx)
                }
            } else {
                Bytecode::PushNonLocalArg(n, idx)
            }
        },
        Bytecode::PopArg(up, idx) => Bytecode::PopArg(adapted_up_idx(up, adjust), idx),
        Bytecode::ReturnNonLocal(scope) => if scope == 1 {
            Bytecode::ReturnLocal
        } else {
            Bytecode::ReturnNonLocal((scope - 1) as u8)
        },
        _ => bc,
    }
}

/// A block's literal table holds a block at every index its `PushBlock`
/// instructions name.
pub open spec fn push_blocks_valid(body: Seq<Bytecode>, literals: Seq<Literal>) -> bool {
    forall|i: int|
        0 <= i < body.len() ==> match #[trigger] body[i] {
            Bytecode::PushBlock(b) => b < literals.len() && literals[b as int] is Block,
            _ => true,
        }
}

/// Non-local returns name a scope of at least one.
pub open spec fn non_local_returns_valid(body: Seq<Bytecode>) -> bool {
    forall|i: int|
        0 <= i < body.len() ==> match #[trigger] body[i] {
            Bytecode::ReturnNonLocal(s) => s >= 1,
            _ => true,
        }
}

/// The addresses of the blocks a body pushes, in the order of its
/// instructions.
pub open spec fn pushed_blocks(body: Seq<Bytecode>, literals: Seq<Literal>, k: int) -> Seq<u64>
    decreases k,
{
    if k <= 0 {
        Seq::empty()
    } else {
        pushed_blocks(body, literals, k - 1) + match body[k - 1] {
            Bytecode::PushBlock(b) => match literals[b as int] {
                Literal::Block(addr) => seq![addr],
                _ => Seq::empty(),
            },
            _ => Seq::empty(),
        }
    }
}

/// Adapting a nested block after its outer block was inlined keeps the
/// depth its operand stack reaches after every instruction, and so the stack
/// size its frames need.
pub proof fn lemma_adapt_keeps_effect(body: Seq<Bytecode>, names: Seq<Seq<char>>, adjust: usize, k: int)
    requires
        0 <= k <= body.len(),
    ensures
        stack_depth(body.map_values(|bc: Bytecode| adapt_instr(bc, adjust)), names, k) == stack_depth(
            body,
            names,
            k,
        ),
        max_stack_depth(body.map_values(|bc: Bytecode| adapt_instr(bc, adjust)), names, k)
            == max_stack_depth(body, names, k),
    decreases k,
{
    if k > 0 {
        lemma_adapt_keeps_effect(body, names, adjust, k - 1);
        let nb = body.map_values(|bc: Bytecode| adapt_instr(bc, adjust));
        assert(nb[k - 1] == adapt_instr(body[k - 1], adjust));
        assert(stack_effect(nb[k - 1], names) == stack_effect(body[k - 1], names));
    }
}

/// Adapts a block nested in a block that was just inlined `adjust_scope_by`
/// scopes out: its references to outer variables and its non-local returns
/// come closer, and its stack size is computed again. The blocks it pushes
/// in turn are given back, in order, to be adapted the same way.
pub fn adapt_block_after_outer_inlined(block: &mut MethodInfo, adjust_scope_by: usize, interner: &Interner) -> (r:
    Vec<u64>)
    requires
        push_blocks_valid(old(block).body@, old(block).literals@),
        non_local_returns_valid(old(block).body@),
        sends_interned(old(block).body@, interner.view()),
        forall|k: int|
            0 <= k <= old(block).body@.len() ==> 0 <= #[trigger] stack_depth(
                old(block).body@,
                interner.view(),
                k,
            ) <= u8::MAX,
        max_stack_depth(old(block).body@, interner.view(), old(block).body@.len() as int) < u8::MAX,
    ensures
        final(block).body@ == old(block).body@.map_values(|bc: Bytecode| adapt_instr(bc, adjust_scope_by)),
        final(block).max_stack_size == max_stack_depth(
            old(block).body@,
            interner.view(),
            old(block).body@.len() as int,
        ) + 1,
        final(block).literals == old(block).literals,
        final(block).nbr_locals == old(block).nbr_locals,
        final(block).nbr_params == old(block).nbr_params,
        r@ == pushed_blocks(old(block).body@, old(block).literals@, old(block).body@.len() as int),
{
    let ghost body0 = block.body@;
    let ghost names = interner.view();
    let adjust: u8 = adjust_scope_by as u8;
    let mut new_body: Vec<Bytecode> = Vec::new();
    let mut nested: Vec<u64> = Vec::new();
    let n = block.body.len();
    let mut i: usize = 0;
    while i < n
        invariant
            n == body0.len(),
            block.body@ == body0,
            adjust == adjust_scope_by as u8,
            push_blocks_valid(body0, block.literals@),
            non_local_returns_valid(body0),
            i <= n,
            new_body@ == body0.subrange(0, i as int).map_values(|bc: Bytecode| adapt_instr(bc, adjust_scope_by)),
            nested@ == pushed_blocks(body0, block.literals@, i as int),
        decreases n - i,
    {
        let bc = block.body[i];
        let adapted = match bc {
            Bytecode::PushNonLocal(up, idx) => {
                let nu = if up == 0 { 0 } else if up > adjust { up - 1 } else { up };
                if nu == 0 {
                    Bytecode::PushLocal(idx)
                } else {
                    Bytecode::PushNonLocal(nu, idx)
                }
            },
            Bytecode::PopLocal(up, idx) => {
                let nu = if up == 0 { 0 } else if up > adjust { up - 1 } else { up };
                Bytecode::PopLocal(nu, idx)
            },
            Bytecode::PushNonLocalArg(up, idx) => {
                let nu = if up == 0 { 0 } else if up > adjust { up - 1 } else { up };
                if nu == 0 {
                    if idx == 0 {
                        Bytecode::PushSelf
                    } else {
                        Bytecode::PushArg(idx)
                    }
                } else {
                    Bytecode::PushNonLocalArg(nu, idx)
                }
            },
            Bytecode::PopArg(up, idx) => {
                let nu = if up == 0 { 0 } else if up > adjust { up - 1 } else { up };
                Bytecode::PopArg(nu, idx)
            },
            Bytecode::ReturnNonLocal(scope) => {
                assert(body0[i as int] == bc);
                if scope - 1 == 0 {
                    Bytecode::ReturnLocal
                } else {
                    Bytecode::ReturnNonLocal(scope - 1)
                }
            },
            Bytecode::PushBlock(b) => {
                assert(body0[i as int] == bc);
                match block.literals[b as usize] {
                    Literal::Block(addr) => nested.push(addr),
                    _ => {},
                }
                bc
            },
            _ => bc,
        };
        new_body.push(adapted);
        proof {
            assert(body0.subrange(0, i + 1).map_values(|bc: Bytecode| adapt_instr(bc, adjust_scope_by))
                =~= body0.subrange(0, i as int).map_values(|bc: Bytecode| adapt_instr(bc, adjust_scope_by)).push(
                adapt_instr(body0[i as int], adjust_scope_by),
            ));
        }
        i += 1;
    }
    proof {
        assert(body0.subrange(0, n as int) =~= body0);
        lemma_adapt_keeps_effect(body0, names, adjust_scope_by, n as int);
        let nb = new_body@;
        assert forall|k: int| 0 <= k <= nb.len() implies 0 <= #[trigger] stack_depth(nb, names, k) <= u8::MAX by {
            lemma_adapt_keeps_effect(body0, names, adjust_scope_by, k);
        }
        assert forall|i: int| 0 <= i < nb.len() implies match #[trigger] nb[i] {
            Bytecode::SendN(s) | Bytecode::SuperSend(s) => s.0 < names.len(),
            _ => true,
        } by {
            assert(nb[i] == adapt_instr(body0[i], adjust_scope_by));
        }
    }
    let max_stack_size = get_max_stack_size(&new_body, interner);
    block.body = new_body;
    block.max_stack_size = max_stack_size;
    nested
}

/// The literal table after adding a literal, unless an equal one is there.
pub open spec fn insert_literal(lits: Seq<Literal>, l: Literal) -> Seq<Literal> {
    if lits.contains(l) {
        lits
    } else {
        lits.push(l)
    }
}

/// The index of a literal once it is in the table.
pub open spec fn literal_index(lits: Seq<Literal>, l: Literal) -> int {
    choose|i: int| 0 <= i < insert_literal(lits, l).len() && insert_literal(lits, l)[i] == l
}

/// After `push_literal`, the index it answered is the one `literal_index`
/// names: literals are unique in the table.
pub proof fn lemma_pushed_literal_index(before: Seq<Literal>, after: Seq<Literal>, l: Literal, r: int)
    requires
        after == insert_literal(before, l),
        literals_unique(after),
        0 <= r < after.len(),
        after[r] == l,
    ensures
        literal_index(before, l) == r,
{
    let c = literal_index(before, l);
    assert(0 <= c < after.len() && after[c] == l);
    if c != r {
        if c < r {
            assert(after[c] != after[r]);
        } else {
            assert(after[r] != after[c]);
        }
    }
}

/// The same literal-referencing instruction, naming another index.
pub open spec fn with_literal_index(bc: Bytecode, k: u8) -> Bytecode {
    match bc {
        Bytecode::PushBlock(_) => Bytecode::PushBlock(k),
        Bytecode::PushGlobal(_) => Bytecode::PushGlobal(k),
        _ => Bytecode::PushConstant(k),
    }
}

/// The literal index an instruction names, for the instructions that name
/// one.
pub open spec fn literal_ref(bc: Bytecode) -> Option<u8> {
    match bc {
        Bytecode::PushBlock(b) => Some(b),
        Bytecode::PushGlobal(b) => Some(b),
        Bytecode::PushConstant(b) => Some(b),
        _ => None,
    }
}

/// One instruction of an inlined block that names no literal, as it reads
/// in the enclosing context; `None` for the block's own return, which goes.
/// `nl` is the number of locals the context had before inlining and `na`
/// the number of the block's parameters, both as bytes.
pub open spec fn plain_moved(bc: Bytecode, nl: u8, na: u8) -> Option<Bytecode> {
    match bc {
        Bytecode::PushLocal(idx) => Some(Bytecode::PushLocal((nl + na + idx) as u8)),
        Bytecode::PushNonLocal(up, idx) => Some(
            if up == 1 {
                Bytecode::PushLocal(idx)
            } else {
                Bytecode::PushNonLocal((up - 1) as u8, idx)
            },
        ),
        Bytecode::PopLocal(up, idx) => Some(
            if up == 0 {
                Bytecode::PopLocal(0, (nl + na + idx) as u8)
            } else {
                Bytecode::PopLocal((up - 1) as u8, idx)
            },
        ),
        Bytecode::PushArg(idx) => Some(Bytecode::PushLocal((nl + idx - 1) as u8)),
        Bytecode::PushNonLocalArg(up, idx) => Some(
            if up == 1 {
                if idx == 0 {
                    Bytecode::PushSelf
                } else {
                    Bytecode::PushArg(idx)
                }
            } else {
                Bytecode::PushNonLocalArg((up - 1) as u8, idx)
            },
        ),
        Bytecode::PopArg(up, idx) => Some(Bytecode::PopArg((up - 1) as u8, idx)),
        Bytecode::ReturnNonLocal(s) => Some(
            if s == 1 {
                Bytecode::ReturnLocal
            } else {
                Bytecode::ReturnNonLocal((s - 1) as u8)
            },
        ),
        Bytecode::ReturnLocal => None,
        _ => Some(bc),
    }
}

/// One instruction of an inlined block, moved into the enclosing context
/// whose instructions and literals are `(instrs, lits)`: an instruction that
/// names a literal names the literal's index in the context's table, the
/// literal being added there; `None` when the block has no such literal.
pub open spec fn inline_instr(
    instrs: Seq<Bytecode>,
    lits: Seq<Literal>,
    bc: Bytecode,
    block_lits: Seq<Literal>,
    nl: u8,
    na: u8,
) -> Option<(Seq<Bytecode>, Seq<Literal>)> {
    match literal_ref(bc) {
        Some(b) => if b < block_lits.len() {
            let l = block_lits[b as int];
            Some(
                (
                    instrs.push(with_literal_index(bc, literal_index(lits, l) as u8)),
                    insert_literal(lits, l),
                ),
            )
        } else {
            None
        },
        None => match plain_moved(bc, nl, na) {
            Some(x) => Some((instrs.push(x), lits)),
            None => Some((instrs, lits)),
        },
    }
}

/// The first `k` instructions of an inlined block, moved one after the other
/// into the enclosing context; `None` from the first that names a missing
/// literal.
pub open spec fn inline_run(
    instrs: Seq<Bytecode>,
    lits: Seq<Literal>,
    body: Seq<Bytecode>,
    block_lits: Seq<Literal>,
    nl: u8,
    na: u8,
    k: int,
) -> Option<(Seq<Bytecode>, Seq<Literal>)>
    decreases k,
{
    if k <= 0 {
        Some((instrs, lits))
    } else {
        match inline_run(instrs, lits, body, block_lits, nl, na, k - 1) {
            Some((i, l)) => inline_instr(i, l, body[k - 1], block_lits, nl, na),
            None => None,
        }
    }
}

/// The instructions the inliner can move without a fault: byte indices that
/// do not overflow, scopes of at least one, blocks where a block is pushed,
/// and no `ReturnSelf`.
pub open spec fn inlinable_instr(bc: Bytecode, block_lits: Seq<Literal>, nl: u8, na: u8) -> bool {
    match bc {
        Bytecode::PushLocal(idx) => nl + na + idx <= u8::MAX,
        Bytecode::PopLocal(up, idx) => up == 0 ==> nl + na + idx <= u8::MAX,
        Bytecode::PushArg(idx) => 1 <= nl + idx <= u8::MAX,
        Bytecode::PushNonLocal(up, _) | Bytecode::PushNonLocalArg(up, _) | Bytecode::PopArg(up, _)
        | Bytecode::ReturnNonLocal(up) => up >= 1,
        Bytecode::PushBlock(b) => b < block_lits.len() ==> block_lits[b as int] is Block,
        Bytecode::ReturnSelf => false,
        _ => true,
    }
}

/// The instruction at `i` can be moved without a fault, if the run gets
/// that far.
pub open spec fn inlinable_at(
    instrs: Seq<Bytecode>,
    lits: Seq<Literal>,
    body: Seq<Bytecode>,
    block_lits: Seq<Literal>,
    nl: u8,
    na: u8,
    i: int,
) -> bool {
    inline_run(instrs, lits, body, block_lits, nl, na, i) is Some ==> inlinable_instr(body[i], block_lits, nl, na)
}

/// The number of instructions the inliner moves: all but the last, which is
/// the block's own return.
pub open spec fn moved_len(body: Seq<Bytecode>) -> int {
    if body.len() == 0 {
        0
    } else {
        body.len() - 1
    }
}

/// The literal index an instruction names, if it names one.
fn get_literal_ref(bc: &Bytecode) -> (r: Option<u8>)
    ensures
        r == literal_ref(*bc),
{
    match *bc {
        Bytecode::PushBlock(b) => Some(b),
        Bytecode::PushGlobal(b) => Some(b),
        Bytecode::PushConstant(b) => Some(b),
        _ => None,
    }
}

/// Rewrites an instruction that names no literal for the enclosing context.
fn move_plain(bc: Bytecode, nl: u8, na: u8) -> (r: Option<Bytecode>)
    requires
        literal_ref(bc) is None,
        inlinable_instr(bc, Seq::empty(), nl, na),
    ensures
        r == plain_moved(bc, nl, na),
{
    match bc {
        Bytecode::PushLocal(idx) => Some(Bytecode::PushLocal(nl + na + idx)),
        Bytecode::PushNonLocal(up, idx) => {
            if up - 1 == 0 {
                Some(Bytecode::PushLocal(idx))
            } else {
                Some(Bytecode::PushNonLocal(up - 1, idx))
            }
        },
        Bytecode::PopLocal(up, idx) => {
            if up == 0 {
                Some(Bytecode::PopLocal(up, nl + na + idx))
            } else {
                Some(Bytecode::PopLocal(up - 1, idx))
            }
        },
        Bytecode::PushArg(idx) => Some(Bytecode::PushLocal(nl + idx - 1)),
        Bytecode::PushNonLocalArg(up, idx) => {
            if up - 1 == 0 {
                if idx == 0 {
                    Some(Bytecode::PushSelf)
                } else {
                    Some(Bytecode::PushArg(idx))
                }
            } else {
                Some(Bytecode::PushNonLocalArg(up - 1, idx))
            }
        },
        Bytecode::PopArg(up, idx) => Some(Bytecode::PopArg(up - 1, idx)),
        Bytecode::ReturnNonLocal(s) => {
            if s - 1 == 0 {
                Some(Bytecode::ReturnLocal)
            } else {
                Some(Bytecode::ReturnNonLocal(s - 1))
            }
        },
        Bytecode::ReturnLocal => None,
        _ => Some(bc),
    }
}

/// The addresses of the blocks an instruction pushes.
pub open spec fn pushed_by(bc: Bytecode, literals: Seq<Literal>) -> Seq<u64> {
    match bc {
        Bytecode::PushBlock(b) => match literals[b as int] {
            Literal::Block(addr) => seq![addr],
            _ => Seq::empty(),
        },
        _ => Seq::empty(),
    }
}

/// Moves an instruction that names the literal `b` of the block: the literal
/// goes into the context's table, and the instruction names it there. A
/// pushed block is recorded in `nested`. Answers `false`, changing nothing,
/// when the block has no literal `b`.
fn inline_literal_ref(
    ctxt: &mut BlockGenCtxt,
    bc: Bytecode,
    b: u8,
    block_lits: &Vec<Literal>,
    nested: &mut Vec<u64>,
) -> (ok: bool)
    requires
        old(ctxt).wf(),
        literal_ref(bc) == Some(b),
    ensures
        final(ctxt).wf(),
        final(ctxt).locals_nbr == old(ctxt).locals_nbr,
        final(ctxt).scope == old(ctxt).scope,
        final(ctxt).args_nbr == old(ctxt).args_nbr,
        old(ctxt).body is Some ==> final(ctxt).body is Some,
        ok == (b < block_lits@.len()),
        forall|nl: u8, na: u8|
            ok ==> #[trigger] inline_instr(old(ctxt).instrs(), old(ctxt).lits(), bc, block_lits@, nl, na)
                == Some((final(ctxt).instrs(), final(ctxt).lits())),
        ok ==> final(nested)@ == old(nested)@ + pushed_by(bc, block_lits@),
{
    if (b as usize) >= block_lits.len() {
        return false;
    }
    let lit = block_lits[b as usize];
    match lit {
        Literal::Block(addr) => {
            if let Bytecode::PushBlock(_) = bc {
                nested.push(addr);
            }
        },
        _ => {},
    }
    let ghost lits_before = ctxt.lits();
    let k = ctxt.push_literal(lit);
    proof {
        let s = insert_literal(lits_before, lit);
        assert(s == ctxt.lits());
        assert(s[k as int] == lit);
        let c = literal_index(lits_before, lit);
        assert(0 <= c < s.len() && s[c] == lit);
        if c != k {
            if c < k {
                assert(ctxt.lits()[c] != ctxt.lits()[k as int]);
            } else {
                assert(ctxt.lits()[k as int] != ctxt.lits()[c]);
            }
        }
    }
    let moved = match bc {
        Bytecode::PushBlock(_) => Bytecode::PushBlock(k as u8),
        Bytecode::PushGlobal(_) => Bytecode::PushGlobal(k as u8),
        _ => Bytecode::PushConstant(k as u8),
    };
    ctxt.push_instr(moved);
    proof {
        assert(nested@ =~= old(nested)@ + pushed_by(bc, block_lits@));
    }
    true
}

/// Moves one instruction of an inlined block into the context, recording a
/// pushed block in `nested`; `false` when it names a literal the block does
/// not have.
fn inline_step(
    ctxt: &mut BlockGenCtxt,
    bc: Bytecode,
    block_lits: &Vec<Literal>,
    nl: u8,
    na: u8,
    nested: &mut Vec<u64>,
) -> (ok: bool)
    requires
        old(ctxt).wf(),
        inlinable_instr(bc, block_lits@, nl, na),
    ensures
        final(ctxt).wf(),
        final(ctxt).locals_nbr == old(ctxt).locals_nbr,
        final(ctxt).scope == old(ctxt).scope,
        final(ctxt).args_nbr == old(ctxt).args_nbr,
        old(ctxt).body is Some ==> final(ctxt).body is Some,
        ok == inline_instr(old(ctxt).instrs(), old(ctxt).lits(), bc, block_lits@, nl, na) is Some,
        ok ==> inline_instr(old(ctxt).instrs(), old(ctxt).lits(), bc, block_lits@, nl, na) == Some(
            (final(ctxt).instrs(), final(ctxt).lits()),
        ),
        ok ==> final(nested)@ == old(nested)@ + pushed_by(bc, block_lits@),
{
    match get_literal_ref(&bc) {
        Some(b) => inline_literal_ref(ctxt, bc, b, block_lits, nested),
        None => {
            match move_plain(bc, nl, na) {
                Some(x) => ctxt.push_instr(x),
                None => {},
            }
            assert(nested@ =~= old(nested)@ + pushed_by(bc, block_lits@));
            true
        },
    }
}

/// A run of the inliner only adds instructions after those of the context.
pub proof fn lemma_inline_run_prefix(
    instrs: Seq<Bytecode>,
    lits: Seq<Literal>,
    body: Seq<Bytecode>,
    block_lits: Seq<Literal>,
    nl: u8,
    na: u8,
    k: int,
)
    requires
        inline_run(instrs, lits, body, block_lits, nl, na, k) is Some,
    ensures
        ({
            let ri = inline_run(instrs, lits, body, block_lits, nl, na, k)->Some_0.0;
            &&& instrs.len() <= ri.len()
            &&& ri.subrange(0, instrs.len() as int) == instrs
        }),
    decreases k,
{
    if k <= 0 {
        assert(instrs.subrange(0, instrs.len() as int) =~= instrs);
    } else {
        lemma_inline_run_prefix(instrs, lits, body, block_lits, nl, na, k - 1);
        let prev = inline_run(instrs, lits, body, block_lits, nl, na, k - 1)->Some_0.0;
        let ri = inline_run(instrs, lits, body, block_lits, nl, na, k)->Some_0.0;
        assert(ri.subrange(0, instrs.len() as int) =~= instrs) by {
            assert forall|i: int| 0 <= i < instrs.len() implies ri[i] == instrs[i] by {
                assert(prev.subrange(0, instrs.len() as int)[i] == instrs[i]);
            }
        }
    }
}

/// Once a run of the inliner has failed, running it further fails too.
proof fn lemma_run_stays_none(
    instrs: Seq<Bytecode>,
    lits: Seq<Literal>,
    body: Seq<Bytecode>,
    block_lits: Seq<Literal>,
    nl: u8,
    na: u8,
    k: int,
    k2: int,
)
    requires
        0 <= k <= k2,
        inline_run(instrs, lits, body, block_lits, nl, na, k) is None,
    ensures
        inline_run(instrs, lits, body, block_lits, nl, na, k2) is None,
    decreases k2 - k,
{
    if k2 > k {
        lemma_run_stays_none(instrs, lits, body, block_lits, nl, na, k, k2 - 1);
    }
}

/// Inlines a compiled block into the context `ctxt`: the block's parameters
/// and locals become locals of the context, its instructions but the last
/// are moved over (see `inline_instr`), and the literals they name are added
/// to the context's table. Answers `None` at the first instruction that names
/// a literal the block does not have; else the blocks the moved instructions
/// push, in order, which are to be adapted one scope out
/// (`adapt_block_after_outer_inlined`).
pub fn inline_compiled_block(ctxt: &mut BlockGenCtxt, block: &MethodInfo) -> (r: Option<Vec<u64>>)
    requires
        old(ctxt).wf(),
        (old(ctxt).locals_nbr as u8) as usize + block.nbr_locals + block.nbr_params <= usize::MAX,
        forall|i: int|
            0 <= i < moved_len(block.body@) ==> #[trigger] inlinable_at(
                old(ctxt).instrs(),
                old(ctxt).lits(),
                block.body@,
                block.literals@,
                old(ctxt).locals_nbr as u8,
                block.nbr_params as u8,
                i,
            ),
    ensures
        final(ctxt).wf(),
        final(ctxt).locals_nbr == (old(ctxt).locals_nbr as u8) as usize + block.nbr_locals + block.nbr_params,
        final(ctxt).scope == old(ctxt).scope,
        final(ctxt).args_nbr == old(ctxt).args_nbr,
        old(ctxt).body is Some ==> final(ctxt).body is Some,
        ({
            let run = inline_run(
                old(ctxt).instrs(),
                old(ctxt).lits(),
                block.body@,
                block.literals@,
                old(ctxt).locals_nbr as u8,
                block.nbr_params as u8,
                moved_len(block.body@),
            );
            &&& r is Some <==> run is Some
            &&& r is Some ==> (run matches Some((ri, rl)) && final(ctxt).instrs() == ri
                && final(ctxt).lits() == rl && r->0@ == pushed_blocks(
                block.body@,
                block.literals@,
                moved_len(block.body@),
            ))
        }),
{
    let nl: u8 = ctxt.get_nbr_locals() as u8;
    let na: u8 = block.nbr_params as u8;
    let ghost instrs0 = ctxt.instrs();
    let ghost lits0 = ctxt.lits();
    let ghost body = block.body@;
    let ghost blits = block.literals@;
    ctxt.set_nbr_locals(nl as usize + block.nbr_locals + block.nbr_params);
    let n = block.body.len();
    let m = if n == 0 { 0 } else { n - 1 };
    let mut nested: Vec<u64> = Vec::new();
    let mut i: usize = 0;
    while i < m
        invariant
            m == moved_len(body),
            instrs0 == old(ctxt).instrs(),
            lits0 == old(ctxt).lits(),
            body == block.body@,
            blits == block.literals@,
            nl == old(ctxt).locals_nbr as u8,
            na == block.nbr_params as u8,
            ctxt.wf(),
            ctxt.locals_nbr == (old(ctxt).locals_nbr as u8) as usize + block.nbr_locals + block.nbr_params,
            ctxt.scope == old(ctxt).scope,
            ctxt.args_nbr == old(ctxt).args_nbr,
            old(ctxt).body is Some ==> ctxt.body is Some,
            i <= m,
            forall|j: int| 0 <= j < m ==> #[trigger] inlinable_at(instrs0, lits0, body, blits, nl, na, j),
            inline_run(instrs0, lits0, body, blits, nl, na, i as int) == Some((ctxt.instrs(), ctxt.lits())),
            nested@ == pushed_blocks(body, blits, i as int),
        decreases m - i,
    {
        let bc = block.body[i];
        assert(inlinable_at(instrs0, lits0, body, blits, nl, na, i as int));
        assert(inline_run(instrs0, lits0, body, blits, nl, na, i + 1) == inline_instr(
            ctxt.instrs(),
            ctxt.lits(),
            bc,
            blits,
            nl,
            na,
        ));
        assert(pushed_blocks(body, blits, i + 1) =~= pushed_blocks(body, blits, i as int) + pushed_by(
            body[i as int],
            blits,
        ));
        let ghost instrs_i = ctxt.instrs();
        let ghost lits_i = ctxt.lits();
        if !inline_step(ctxt, bc, &block.literals, nl, na, &mut nested) {
            proof {
                assert(inline_instr(instrs_i, lits_i, bc, blits, nl, na) is None);
                assert(inline_run(instrs0, lits0, body, blits, nl, na, i + 1) is None);
                lemma_run_stays_none(instrs0, lits0, body, blits, nl, na, i + 1, m as int);
            }
            return None;
        }
        i += 1;
    }
    Some(nested)
}

/// The conditional jump that skips an inlined `ifTrue:` / `ifFalse:` body,
/// leaving `nil` as the result when it jumps.
pub open spec fn if_jump(jump_type: JumpType) -> Bytecode {
    match jump_type {
        JumpType::JumpOnFalse => Bytecode::JumpOnFalseTopNil(0),
        JumpType::JumpOnTrue => Bytecode::JumpOnTrueTopNil(0),
    }
}

/// The conditional jump that skips an inlined `ifNil:` / `ifNotNil:` body,
/// keeping the receiver as the result when it jumps.
pub open spec fn if_nil_jump(jump_type: JumpType) -> Bytecode {
    match jump_type {
        JumpType::JumpOnFalse => Bytecode::JumpOnNotNilTopTop(0),
        JumpType::JumpOnTrue => Bytecode::JumpOnNilTopTop(0),
    }
}

/// The conditional jump that pops the condition of an inlined two-branch
/// conditional or loop.
pub open spec fn pop_jump(jump_type: JumpType) -> Bytecode {
    match jump_type {
        JumpType::JumpOnFalse => Bytecode::JumpOnFalsePop(0),
        JumpType::JumpOnTrue => Bytecode::JumpOnTruePop(0),
    }
}

/// The conditional jump that pops the receiver of an inlined two-branch
/// nil test.
pub open spec fn pop_nil_jump(jump_type: JumpType) -> Bytecode {
    match jump_type {
        JumpType::JumpOnFalse => Bytecode::JumpOnNotNilPop(0),
        JumpType::JumpOnTrue => Bytecode::JumpOnNilPop(0),
    }
}

/// Starts an inlined conditional: emits the jump over its body, to be
/// patched once the body is emitted, and answers the jump's index. `nil_test`
/// picks the nil tests over the boolean ones, `pops` the jumps that pop what
/// they test.
pub fn begin_conditional(ctxt: &mut BlockGenCtxt, jump_type: JumpType, nil_test: bool, pops: bool) -> (r: usize)
    ensures
        r == old(ctxt).instrs().len(),
        final(ctxt).instrs() == old(ctxt).instrs().push(
            if nil_test {
                if pops {
                    pop_nil_jump(jump_type)
                } else {
                    if_nil_jump(jump_type)
                }
            } else {
                if pops {
                    pop_jump(jump_type)
                } else {
                    if_jump(jump_type)
                }
            },
        ),
        final(ctxt).literals == old(ctxt).literals,
        final(ctxt).locals_nbr == old(ctxt).locals_nbr,
        final(ctxt).scope == old(ctxt).scope,
        final(ctxt).args_nbr == old(ctxt).args_nbr,
{
    let idx = match &ctxt.body {
        Some(b) => b.len(),
        None => 0,
    };
    let jump = match (nil_test, pops, jump_type) {
        (false, false, JumpType::JumpOnFalse) => Bytecode::JumpOnFalseTopNil(0),
        (false, false, JumpType::JumpOnTrue) => Bytecode::JumpOnTrueTopNil(0),
        (false, true, JumpType::JumpOnFalse) => Bytecode::JumpOnFalsePop(0),
        (false, true, JumpType::JumpOnTrue) => Bytecode::JumpOnTruePop(0),
        (true, false, JumpType::JumpOnFalse) => Bytecode::JumpOnNotNilTopTop(0),
        (true, false, JumpType::JumpOnTrue) => Bytecode::JumpOnNilTopTop(0),
        (true, true, JumpType::JumpOnFalse) => Bytecode::JumpOnNotNilPop(0),
        (true, true, JumpType::JumpOnTrue) => Bytecode::JumpOnNilPop(0),
    };
    ctxt.push_instr(jump);
    idx
}

/// Between the two branches of an inlined two-branch conditional: emits the
/// jump over the second branch, then lands the first jump (at
/// `start_jump_idx`) on the second branch. Answers the new jump's index.
pub fn middle_of_conditional(ctxt: &mut BlockGenCtxt, start_jump_idx: usize) -> (r: usize)
    requires
        start_jump_idx < old(ctxt).instrs().len(),
        old(ctxt).instrs()[start_jump_idx as int] is JumpOnFalsePop || old(ctxt).instrs()[start_jump_idx as int] is JumpOnTruePop
            || old(ctxt).instrs()[start_jump_idx as int] is JumpOnNilPop || old(ctxt).instrs()[start_jump_idx as int] is JumpOnNotNilPop,
    ensures
        r == old(ctxt).instrs().len(),
        final(ctxt).instrs() == old(ctxt).instrs().push(Bytecode::Jump(0)).update(
            start_jump_idx as int,
            with_jump_offset(old(ctxt).instrs()[start_jump_idx as int], (r + 1 - start_jump_idx) as u16),
        ),
        final(ctxt).literals == old(ctxt).literals,
        final(ctxt).locals_nbr == old(ctxt).locals_nbr,
        final(ctxt).scope == old(ctxt).scope,
        final(ctxt).args_nbr == old(ctxt).args_nbr,
{
    let idx = ctxt.get_cur_instr_idx();
    ctxt.push_instr(Bytecode::Jump(0));
    ctxt.backpatch_jump_to_current(start_jump_idx);
    idx
}

/// Ends an inlined `whileTrue:` / `whileFalse:` whose condition starts at
/// `idx_pre_condition` and whose conditional jump is at `cond_jump_idx`:
/// drops the body's value, jumps back to the condition, lands the
/// conditional jump after the loop, and leaves `nil` as the loop's value.
pub fn end_while(ctxt: &mut BlockGenCtxt, idx_pre_condition: usize, cond_jump_idx: usize)
    requires
        1 <= idx_pre_condition <= old(ctxt).instrs().len(),
        cond_jump_idx < old(ctxt).instrs().len(),
        old(ctxt).instrs()[cond_jump_idx as int] is JumpOnFalsePop || old(ctxt).instrs()[cond_jump_idx as int] is JumpOnTruePop,
    ensures
        ({
            let n = old(ctxt).instrs().len();
            let with_back = old(ctxt).instrs().push(Bytecode::Pop).push(
                Bytecode::JumpBackward((n + 2 - idx_pre_condition) as u16),
            );
            final(ctxt).instrs() == with_back.update(
                cond_jump_idx as int,
                with_jump_offset(old(ctxt).instrs()[cond_jump_idx as int], (n + 2 - cond_jump_idx) as u16),
            ).push(Bytecode::PushNil)
        }),
        final(ctxt).literals == old(ctxt).literals,
        final(ctxt).locals_nbr == old(ctxt).locals_nbr,
        final(ctxt).scope == old(ctxt).scope,
        final(ctxt).args_nbr == old(ctxt).args_nbr,
{
    ctxt.push_instr(Bytecode::Pop);
    let back = ctxt.get_cur_instr_idx() - idx_pre_condition + 1;
    ctxt.push_instr(Bytecode::JumpBackward(back as u16));
    ctxt.backpatch_jump_to_current(cond_jump_idx);
    ctxt.push_instr(Bytecode::PushNil);
}

/// The jump that skips the inlined argument of `or:` (on `true`) or `and:`
/// (on `false`).
pub open spec fn or_and_jump(choice: OrAndChoice) -> Bytecode {
    match choice {
        OrAndChoice::Or => Bytecode::JumpOnTruePop(0),
        OrAndChoice::And => Bytecode::JumpOnFalsePop(0),
    }
}

/// Starts an inlined `or:` / `and:`: emits the jump over the argument and
/// answers its index.
pub fn begin_or_and(ctxt: &mut BlockGenCtxt, choice: OrAndChoice) -> (r: usize)
    ensures
        r == old(ctxt).instrs().len(),
        final(ctxt).instrs() == old(ctxt).instrs().push(or_and_jump(choice)),
        final(ctxt).literals == old(ctxt).literals,
        final(ctxt).locals_nbr == old(ctxt).locals_nbr,
        final(ctxt).scope == old(ctxt).scope,
        final(ctxt).args_nbr == old(ctxt).args_nbr,
{
    let idx = match &ctxt.body {
        Some(b) => b.len(),
        None => 0,
    };
    match choice {
        OrAndChoice::Or => ctxt.push_instr(Bytecode::JumpOnTruePop(0)),
        OrAndChoice::And => ctxt.push_instr(Bytecode::JumpOnFalsePop(0)),
    }
    idx
}

/// Ends an inlined `or:` / `and:` whose first jump is at
/// `skip_cond_jump_idx`: after the argument, jumps over the constant answer;
/// the first jump lands on the constant (`true` for `or:`, `false` for
/// `and:`), read as a global whose name is interned and added to the
/// literals.
pub fn end_or_and(ctxt: &mut BlockGenCtxt, interner: &mut Interner, choice: OrAndChoice, skip_cond_jump_idx: usize)
    requires
        old(ctxt).wf(),
        old(interner).wf(),
        old(interner).view().len() < u32::MAX,
        skip_cond_jump_idx < old(ctxt).instrs().len(),
        old(ctxt).instrs()[skip_cond_jump_idx as int] is JumpOnFalsePop || old(ctxt).instrs()[skip_cond_jump_idx as int] is JumpOnTruePop,
    ensures
        final(ctxt).wf(),
        final(interner).wf(),
        ({
            let name = if choice == OrAndChoice::Or { "true"@ } else { "false"@ };
            &&& old(interner).view().contains(name) ==> final(interner).view() == old(interner).view()
            &&& !old(interner).view().contains(name) ==> final(interner).view() == old(interner).view().push(name)
        }),
        ({
            let n = old(ctxt).instrs().len();
            let name = if choice == OrAndChoice::Or { "true"@ } else { "false"@ };
            let sym = Literal::Symbol(Interned(id_of(final(interner).view(), name) as u32));
            &&& final(interner).view().contains(name)
            &&& final(ctxt).lits() == insert_literal(old(ctxt).lits(), sym)
            &&& final(ctxt).instrs() == old(ctxt).instrs().push(Bytecode::Jump(2)).update(
                skip_cond_jump_idx as int,
                with_jump_offset(
                    old(ctxt).instrs()[skip_cond_jump_idx as int],
                    (n + 1 - skip_cond_jump_idx) as u16,
                ),
            ).push(Bytecode::PushGlobal(literal_index(old(ctxt).lits(), sym) as u8))
        }),
        final(ctxt).locals_nbr == old(ctxt).locals_nbr,
        final(ctxt).scope == old(ctxt).scope,
        final(ctxt).args_nbr == old(ctxt).args_nbr,
{
    let skip_return_true_idx = ctxt.get_cur_instr_idx();
    ctxt.push_instr(Bytecode::Jump(0));
    ctxt.backpatch_jump_to_current(skip_cond_jump_idx);
    let name = match choice {
        OrAndChoice::Or => interner.intern("true"),
        OrAndChoice::And => interner.intern("false"),
    };
    proof {
        lemma_id_unique(*interner, name.0 as int);
        assert(interner.view().contains(interner.view()[name.0 as int]));
    }
    let ghost lits_before = ctxt.lits();
    let idx = ctxt.push_literal(Literal::Symbol(name));
    proof {
        let l = Literal::Symbol(name);
        let s = insert_literal(lits_before, l);
        assert(s == ctxt.lits());
        let c = literal_index(lits_before, l);
        assert(0 <= c < s.len() && s[c] == l);
        if c != idx {
            if c < idx {
                assert(ctxt.lits()[c] != ctxt.lits()[idx as int]);
            } else {
                assert(ctxt.lits()[idx as int] != ctxt.lits()[c]);
            }
        }
    }
    ctxt.push_instr(Bytecode::PushGlobal(idx as u8));
    ctxt.backpatch_jump_to_current(skip_return_true_idx);
}

/// Starts an inlined `to:do:` once the receiver and the end value are on the
/// stack: copies both, jumps out when the counter is past the end, and
/// stores the counter in a new local of the context (the one after its
/// current locals). Answers the index of the exit jump.
pub fn begin_to_do(ctxt: &mut BlockGenCtxt) -> (r: usize)
    ensures
        r == old(ctxt).instrs().len() + 1,
        final(ctxt).instrs() == old(ctxt).instrs().push(Bytecode::Dup2).push(Bytecode::JumpIfGreater(0)).push(
            Bytecode::Dup,
        ).push(Bytecode::PopLocal(0, old(ctxt).locals_nbr as u8)),
        final(ctxt).literals == old(ctxt).literals,
        final(ctxt).locals_nbr == old(ctxt).locals_nbr,
        final(ctxt).scope == old(ctxt).scope,
        final(ctxt).args_nbr == old(ctxt).args_nbr,
{
    let idx_loop_accumulator = ctxt.get_nbr_locals() as u8;
    ctxt.push_instr(Bytecode::Dup2);
    let jump_if_greater_idx = ctxt.get_cur_instr_idx();
    ctxt.push_instr(Bytecode::JumpIfGreater(0));
    ctxt.push_instr(Bytecode::Dup);
    ctxt.push_instr(Bytecode::PopLocal(0, idx_loop_accumulator));
    jump_if_greater_idx
}

/// Ends an inlined `to:do:` whose exit jump is at `jump_if_greater_idx`:
/// drops the body's value, increments the counter, jumps back to the test,
/// and lands the exit jump after the loop.
pub fn end_to_do(ctxt: &mut BlockGenCtxt, jump_if_greater_idx: usize)
    requires
        jump_if_greater_idx < old(ctxt).instrs().len(),
        old(ctxt).instrs()[jump_if_greater_idx as int] is JumpIfGreater,
    ensures
        ({
            let n = old(ctxt).instrs().len();
            final(ctxt).instrs() == old(ctxt).instrs().push(Bytecode::Pop).push(Bytecode::Inc).push(
                Bytecode::JumpBackward((n + 2 - jump_if_greater_idx) as u16),
            ).update(jump_if_greater_idx as int, Bytecode::JumpIfGreater((n + 3 - jump_if_greater_idx) as u16))
        }),
        final(ctxt).literals == old(ctxt).literals,
        final(ctxt).locals_nbr == old(ctxt).locals_nbr,
        final(ctxt).scope == old(ctxt).scope,
        final(ctxt).args_nbr == old(ctxt).args_nbr,
{
    ctxt.push_instr(Bytecode::Pop);
    ctxt.push_instr(Bytecode::Inc);
    let back = ctxt.get_cur_instr_idx() - jump_if_greater_idx;
    ctxt.push_instr(Bytecode::JumpBackward(back as u16));
    ctxt.backpatch_jump_to_current(jump_if_greater_idx);
}

/// Takes back the block the last instruction pushes, to inline it instead:
/// the `PushBlock` goes, and so does its literal, whose address is given
/// back. Nothing happens when there is no instruction; when the literal is
/// missing or not a block, only the instruction goes.
pub fn take_last_push_block(ctxt: &mut BlockGenCtxt) -> (r: Option<u64>)
    requires
        old(ctxt).wf(),
        old(ctxt).instrs().len() > 0 ==> old(ctxt).instrs().last() is PushBlock,
    ensures
        final(ctxt).wf(),
        old(ctxt).instrs().len() == 0 ==> r is None && *final(ctxt) == *old(ctxt),
        old(ctxt).instrs().len() > 0 ==> ({
            let b = old(ctxt).instrs().last()->PushBlock_0 as int;
            let lits = old(ctxt).lits();
            &&& final(ctxt).instrs() == old(ctxt).instrs().drop_last()
            &&& final(ctxt).body is Some
            &&& if 0 <= b < lits.len() && lits[b] is Block {
                r == Some(lits[b]->Block_0) && final(ctxt).lits() == lits.remove(b)
            } else {
                r is None && final(ctxt).lits() == lits
            }
        }),
        final(ctxt).locals_nbr == old(ctxt).locals_nbr,
        final(ctxt).scope == old(ctxt).scope,
        final(ctxt).args_nbr == old(ctxt).args_nbr,
{
    let block_idx = match &ctxt.body {
        Some(b) => {
            if b.len() == 0 {
                return None;
            }
            match b[b.len() - 1] {
                Bytecode::PushBlock(val) => val,
                _ => {
                    return None;
                },
            }
        },
        None => {
            return None;
        },
    };
    ctxt.pop_instr();
    match ctxt.get_literal(block_idx as usize) {
        Some(Literal::Block(addr)) => {
            let _ = ctxt.remove_literal(block_idx as usize);
            Some(addr)
        },
        _ => None,
    }
}

} // verus!
