//! What the method compiler works out from a signature and from a finished
//! body: the number of parameters, whether a final `ReturnSelf` is needed,
//! the stack depth a frame needs, and whether the method is trivial.

use crate::bytecode::{Bytecode, return_skip_jump_offset};
use crate::compiler::{BlockGenCtxt, Literal, MethodGenCtxt, MethodInfo};
use crate::peephole::{dup_popx_pop_precondition, without_dup_popx_pop};
use crate::interner::Interner;
use crate::primitives::string::{ascii_letter, char_is_alphabetic, is_alphabetic};
use crate::value::Interned;
use vstd::prelude::*;

verus! {

/// The number of colons in a string.
pub open spec fn colon_count(s: Seq<char>) -> nat
    decreases s.len(),
{
    if s.len() == 0 {
        0
    } else {
        colon_count(s.drop_last()) + if s.last() == ':' {
            1nat
        } else {
            0nat
        }
    }
}

/// The number of parameters of a selector: one for an operator (a selector
/// that does not start with a letter), else one per colon.
pub open spec fn selector_params(s: Seq<char>) -> nat {
    if s.len() > 0 && !is_alphabetic(s[0]) {
        1
    } else {
        colon_count(s)
    }
}

/// Counts the colons of a string.
fn count_colons(s: &str) -> (r: usize)
    ensures
        r == colon_count(s@),
{
    let n = s.unicode_len();
    let mut c: usize = 0;
    let mut i: usize = 0;
    while i < n
        invariant
            n == s@.len(),
            i <= n,
            c == colon_count(s@.subrange(0, i as int)),
            c <= i,
        decreases n - i,
    {
        assert(s@.subrange(0, i + 1).drop_last() =~= s@.subrange(0, i as int));
        if s.get_char(i) == ':' {
            c += 1;
        }
        i += 1;
    }
    assert(s@.subrange(0, n as int) =~= s@);
    c
}

/// The number of parameters a message with this selector takes.
pub fn nb_params(signature: &str) -> (r: usize)
    ensures
        r == selector_params(signature@),
        signature@.len() > 0 && (signature@[0] as u32) < 128 ==> r == (if ascii_letter(signature@[0]) {
            colon_count(signature@)
        } else {
            1
        }),
{
    if signature.unicode_len() > 0 && !char_is_alphabetic(signature.get_char(0)) {
        1
    } else {
        count_colons(signature)
    }
}

/// Whether a character can start a binary operator selector.
pub open spec fn is_operator_char(c: char) -> bool {
    c == '~' || c == '&' || c == '|' || c == '*' || c == '/' || c == '\\' || c == '+' || c == '='
        || c == '>' || c == '<' || c == ',' || c == '@' || c == '%' || c == '-'
}

/// The argument count the method compiler gives a method's context: two for
/// an operator selector, else one per colon.
pub fn args_nbr(signature: &str) -> (r: usize)
    requires
        signature@.len() > 0,
    ensures
        r == (if is_operator_char(signature@[0]) {
            2
        } else {
            colon_count(signature@)
        }),
{
    let c = signature.get_char(0);
    if c == '~' || c == '&' || c == '|' || c == '*' || c == '/' || c == '\\' || c == '+' || c == '='
        || c == '>' || c == '<' || c == ',' || c == '@' || c == '%' || c == '-' {
        2
    } else {
        count_colons(signature)
    }
}

/// How an instruction changes the depth of the operand stack, for a send
/// given the number of parameters of its selector.
pub open spec fn stack_effect(bc: Bytecode, names: Seq<Seq<char>>) -> int {
    match bc {
        Bytecode::Dup | Bytecode::Dup2 | Bytecode::PushLocal(..) | Bytecode::PushNonLocal(..)
        | Bytecode::PushArg(..) | Bytecode::PushNonLocalArg(..) | Bytecode::PushField(..)
        | Bytecode::PushBlock(..) | Bytecode::PushConstant(..) | Bytecode::PushGlobal(..)
        | Bytecode::Push0 | Bytecode::Push1 | Bytecode::PushNil | Bytecode::PushSelf => 1,
        Bytecode::Pop | Bytecode::PopLocal(..) | Bytecode::PopArg(..) | Bytecode::PopField(..)
        | Bytecode::JumpOnTruePop(..) | Bytecode::JumpOnFalsePop(..) => -1,
        Bytecode::Send2(_) => -1,
        Bytecode::Send3(_) => -2,
        Bytecode::SendN(s) | Bytecode::SuperSend(s) => {
            let p = (selector_params(names[s.0 as int]) as u8) as int;
            if p > 0 {
                -(p - 1)
            } else {
                0
            }
        },
        _ => 0,
    }
}

/// The selectors a body sends by `SendN` or `SuperSend` are interned.
pub open spec fn sends_interned(body: Seq<Bytecode>, names: Seq<Seq<char>>) -> bool {
    forall|i: int|
        0 <= i < body.len() ==> match #[trigger] body[i] {
            Bytecode::SendN(s) | Bytecode::SuperSend(s) => s.0 < names.len(),
            _ => true,
        }
}

/// The depth of the operand stack after the first `k` instructions.
pub open spec fn stack_depth(body: Seq<Bytecode>, names: Seq<Seq<char>>, k: int) -> int
    decreases k,
{
    if k <= 0 {
        0
    } else {
        stack_depth(body, names, k - 1) + stack_effect(body[k - 1], names)
    }
}

/// The greatest depth reached within the first `k` instructions.
pub open spec fn max_stack_depth(body: Seq<Bytecode>, names: Seq<Seq<char>>, k: int) -> int
    decreases k,
{
    if k <= 0 {
        0
    } else {
        let m = max_stack_depth(body, names, k - 1);
        let d = stack_depth(body, names, k);
        if d > m {
            d
        } else {
            m
        }
    }
}

/// The stack depth a frame for this body needs: the greatest depth the
/// instructions reach in straight-line order, plus one spare slot. The
/// depth never goes below zero nor above `u8::MAX`.
pub fn get_max_stack_size(body: &Vec<Bytecode>, interner: &Interner) -> (r: u8)
    requires
        sends_interned(body@, interner.view()),
        forall|k: int| 0 <= k <= body@.len() ==> 0 <= #[trigger] stack_depth(body@, interner.view(), k) <= u8::MAX,
        max_stack_depth(body@, interner.view(), body@.len() as int) < u8::MAX,
    ensures
        r == max_stack_depth(body@, interner.view(), body@.len() as int) + 1,
{
    let ghost names = interner.view();
    let mut abstract_stack_size: u8 = 0;
    let mut max_stack_size_observed: u8 = 0;
    let mut i: usize = 0;
    while i < body.len()
        invariant
            names == interner.view(),
            sends_interned(body@, names),
            forall|k: int| 0 <= k <= body@.len() ==> 0 <= #[trigger] stack_depth(body@, names, k) <= u8::MAX,
            i <= body@.len(),
            abstract_stack_size == stack_depth(body@, names, i as int),
            max_stack_size_observed == max_stack_depth(body@, names, i as int),
            abstract_stack_size <= max_stack_size_observed,
        decreases body@.len() - i,
    {
        let ghost before = abstract_stack_size;
        assert(0 <= stack_depth(body@, names, i + 1) <= u8::MAX);
        match body[i] {
            Bytecode::Dup | Bytecode::Dup2 | Bytecode::PushLocal(..) | Bytecode::PushNonLocal(..)
            | Bytecode::PushArg(..) | Bytecode::PushNonLocalArg(..) | Bytecode::PushField(..)
            | Bytecode::PushBlock(..) | Bytecode::PushConstant(..) | Bytecode::PushGlobal(..)
            | Bytecode::Push0 | Bytecode::Push1 | Bytecode::PushNil | Bytecode::PushSelf => {
                abstract_stack_size += 1;
                if abstract_stack_size > max_stack_size_observed {
                    max_stack_size_observed = abstract_stack_size;
                }
            },
            Bytecode::Pop | Bytecode::PopLocal(..) | Bytecode::PopArg(..) | Bytecode::PopField(..)
            | Bytecode::JumpOnTruePop(..) | Bytecode::JumpOnFalsePop(..) => abstract_stack_size -= 1,
            Bytecode::Send2(_) => abstract_stack_size -= 1,
            Bytecode::Send3(_) => abstract_stack_size -= 2,
            Bytecode::SendN(symbol) | Bytecode::SuperSend(symbol) => {
                assert(symbol.0 < names.len());
                let nb: u8 = nb_params(interner.lookup(symbol)) as u8;
                if nb > 0 {
                    abstract_stack_size -= nb - 1;
                }
            },
            _ => {},
        }
        i += 1;
    }
    max_stack_size_observed + 1
}

/// Whether an instruction returns from the method or the block.
pub open spec fn is_return(bc: Bytecode) -> bool {
    bc is ReturnLocal || bc is ReturnNonLocal || bc is ReturnSelf
}

/// Some forward jump of the body lands at `idx` or past it.
pub open spec fn jumps_at_or_past(body: Seq<Bytecode>, idx: int) -> bool {
    exists|i: int|
        0 <= i < body.len() && #[trigger] return_skip_jump_offset(body[i]) is Some && i
            + return_skip_jump_offset(body[i])->0 >= idx
}

/// Whether the method compiler ends a method body with `ReturnSelf`: when the
/// body has no expression, when its last expression (before the `POP` that
/// follows every expression) is not a return, or when a jump can skip past
/// that return.
pub fn should_add_return_self(instrs: &Vec<Bytecode>, body_is_empty: bool) -> (r: bool)
    ensures
        r == (body_is_empty || !(instrs@.len() >= 2 && is_return(instrs@[instrs@.len() - 2]))
            || jumps_at_or_past(instrs@, instrs@.len() - 1)),
{
    if body_is_empty {
        return true;
    }
    let n = instrs.len();
    if n < 2 {
        return true;
    }
    match instrs[n - 2] {
        Bytecode::ReturnLocal | Bytecode::ReturnNonLocal(_) | Bytecode::ReturnSelf => {
            let idx = n - 1;
            let mut i: usize = 0;
            while i < n
                invariant
                    n == instrs@.len(),
                    idx == n - 1,
                    i <= n,
                    forall|k: int|
                        0 <= k < i ==> !(#[trigger] return_skip_jump_offset(instrs@[k]) is Some && k
                            + return_skip_jump_offset(instrs@[k])->0 >= idx),
                decreases n - i,
            {
                let hit = match instrs[i] {
                    Bytecode::Jump(o) | Bytecode::JumpOnTrueTopNil(o) | Bytecode::JumpOnFalseTopNil(o)
                    | Bytecode::JumpOnTruePop(o) | Bytecode::JumpOnFalsePop(o)
                    | Bytecode::JumpIfGreater(o) => o as usize >= idx - i,
                    _ => false,
                };
                if hit {
                    assert(return_skip_jump_offset(instrs@[i as int]) is Some && i
                        + return_skip_jump_offset(instrs@[i as int])->0 >= idx);
                    return true;
                }
                i += 1;
            }
            false
        },
        _ => true,
    }
}

/// The kind of trivial method a body can be compiled to.
#[derive(Clone, Copy, Debug, PartialEq, Eq, Structural)]
pub enum TrivialKind {
    /// It answers a global.
    Global(Interned),
    /// It answers a field of the receiver.
    Getter(u8),
    /// It stores its argument into a field of the receiver.
    Setter(u8),
    /// It answers a literal.
    Literal(Literal),
}

/// The literal at `idx`, if there is one.
pub open spec fn literal_at(literals: Seq<Literal>, idx: int) -> Option<Literal> {
    if 0 <= idx < literals.len() {
        Some(literals[idx])
    } else {
        None
    }
}

/// The trivial method a body stands for: `PushGlobal; ReturnLocal` with no
/// parameter and a symbol literal, `PushField; ReturnLocal` with no
/// parameter, `PushArg 1; PopField; ReturnSelf` with one parameter, or a
/// constant (a literal, 0 or 1) followed by `ReturnLocal` with no parameter.
pub open spec fn trivial_method(body: Seq<Bytecode>, literals: Seq<Literal>, nbr_params: int) -> Option<
    TrivialKind,
> {
    if body.len() == 2 && nbr_params == 0 && body[1] == Bytecode::ReturnLocal {
        match body[0] {
            Bytecode::PushGlobal(x) => match literal_at(literals, x as int) {
                Some(Literal::Symbol(s)) => Some(TrivialKind::Global(s)),
                _ => None,
            },
            Bytecode::PushField(x) => Some(TrivialKind::Getter(x)),
            Bytecode::PushConstant(x) => match literal_at(literals, x as int) {
                Some(l) => Some(TrivialKind::Literal(l)),
                None => None,
            },
            Bytecode::Push0 => Some(TrivialKind::Literal(Literal::Integer(0))),
            Bytecode::Push1 => Some(TrivialKind::Literal(Literal::Integer(1))),
            _ => None,
        }
    } else if body.len() == 3 && nbr_params == 1 && body[0] == Bytecode::PushArg(1) && body[1] is PopField
        && body[2] == Bytecode::ReturnSelf {
        Some(TrivialKind::Setter(body[1]->PopField_0))
    } else {
        None
    }
}

/// Recognizes the bodies that compile to a trivial method.
pub fn make_trivial_method_if_possible(body: &Vec<Bytecode>, literals: &Vec<Literal>, nbr_params: usize) -> (r:
    Option<TrivialKind>)
    ensures
        r == trivial_method(body@, literals@, nbr_params as int),
{
    if body.len() == 2 && nbr_params == 0 && body[1] == Bytecode::ReturnLocal {
        match body[0] {
            Bytecode::PushGlobal(x) => {
                if (x as usize) < literals.len() {
                    match literals[x as usize] {
                        Literal::Symbol(s) => Some(TrivialKind::Global(s)),
                        _ => None,
                    }
                } else {
                    None
                }
            },
            Bytecode::PushField(x) => Some(TrivialKind::Getter(x)),
            Bytecode::PushConstant(x) => {
                if (x as usize) < literals.len() {
                    Some(TrivialKind::Literal(literals[x as usize]))
                } else {
                    None
                }
            },
            Bytecode::Push0 => Some(TrivialKind::Literal(Literal::Integer(0))),
            Bytecode::Push1 => Some(TrivialKind::Literal(Literal::Integer(1))),
            _ => None,
        }
    } else if body.len() == 3 && nbr_params == 1 && body[0] == Bytecode::PushArg(1) && body[2]
        == Bytecode::ReturnSelf {
        match body[1] {
            Bytecode::PopField(x) => Some(TrivialKind::Setter(x)),
            _ => None,
        }
    } else {
        None
    }
}

/// A method as the method compiler produces it: a primitive, a trivial
/// method, or one that runs its bytecode.
pub enum CompiledMethod {
    /// A method whose body is a primitive of the VM.
    Primitive,
    Trivial(TrivialKind),
    Defined(MethodInfo),
}

/// A method as a class holds it: its code, its signature, and the name of
/// the class that holds it (`None` until a class takes it in).
pub struct Method {
    pub kind: CompiledMethod,
    pub signature: String,
    pub holder: Option<String>,
}

impl Method {
    /// Makes the class named `holder` the holder of this method.
    pub fn set_holder(&mut self, holder: &String)
        ensures
            final(self).holder matches Some(h) && h@ == holder@,
            final(self).kind == old(self).kind,
            final(self).signature == old(self).signature,
    {
        self.holder = Some(holder.clone());
    }
}

/// A method body's instructions once its end is settled: a `ReturnSelf`
/// added when `should_add_return_self` says so, else the final `POP` removed.
pub open spec fn with_method_end(instrs: Seq<Bytecode>, body_is_empty: bool) -> Seq<Bytecode> {
    if body_is_empty || !(instrs.len() >= 2 && is_return(instrs[instrs.len() - 2])) || jumps_at_or_past(
        instrs,
        instrs.len() - 1,
    ) {
        instrs.push(Bytecode::ReturnSelf)
    } else {
        instrs.drop_last()
    }
}

/// The instructions of a finished method body.
pub open spec fn finished_method_body(instrs: Seq<Bytecode>, body_is_empty: bool) -> Seq<Bytecode> {
    without_dup_popx_pop(with_method_end(instrs, body_is_empty))
}

/// What a finished body needs for its stack size to be computed: its sends
/// name interned selectors, and its depth stays within a byte with a slot to
/// spare.
pub open spec fn stack_size_computable(body: Seq<Bytecode>, names: Seq<Seq<char>>) -> bool {
    &&& sends_interned(body, names)
    &&& forall|k: int| 0 <= k <= body.len() ==> 0 <= #[trigger] stack_depth(body, names, k) <= u8::MAX
    &&& max_stack_depth(body, names, body.len() as int) < u8::MAX
}

/// Finishes compiling a method whose expressions were compiled into `ctxt`,
/// each followed by a `POP`: settles the end of the body, removes the
/// redundant `DUP; POP_x; POP` sequences, and makes the method trivial when
/// its body allows, else a bytecode method.
pub fn finish_method(ctxt: &mut MethodGenCtxt, body_is_empty: bool, interner: &Interner) -> (r: CompiledMethod)
    requires
        old(ctxt).inner.wf(),
        !body_is_empty ==> old(ctxt).inner.body is Some,
        dup_popx_pop_precondition(with_method_end(old(ctxt).inner.instrs(), body_is_empty)),
        stack_size_computable(
            finished_method_body(old(ctxt).inner.instrs(), body_is_empty),
            interner.view(),
        ),
    ensures
        ({
            let body = finished_method_body(old(ctxt).inner.instrs(), body_is_empty);
            let params = selector_params(old(ctxt).signature@);
            &&& final(ctxt).inner.instrs() == body
            &&& final(ctxt).inner.literals == old(ctxt).inner.literals
            &&& final(ctxt).inner.locals_nbr == old(ctxt).inner.locals_nbr
            &&& final(ctxt).signature == old(ctxt).signature
            &&& match trivial_method(body, old(ctxt).inner.lits(), params as int) {
                Some(k) => r == CompiledMethod::Trivial(k),
                None => r matches CompiledMethod::Defined(m) && m.body@ == body && m.literals@
                    == old(ctxt).inner.lits() && m.nbr_locals == old(ctxt).inner.locals_nbr
                    && m.nbr_params == params && m.max_stack_size == max_stack_depth(
                    body,
                    interner.view(),
                    body.len() as int,
                ) + 1,
            }
        }),
{
    let ghost instrs0 = ctxt.inner.instrs();
    let add_return = if body_is_empty {
        true
    } else {
        should_add_return_self(ctxt.inner.get_instructions(), false)
    };
    if add_return {
        ctxt.inner.push_instr(Bytecode::ReturnSelf);
    } else {
        ctxt.inner.pop_instr();
    }
    assert(ctxt.inner.instrs() == with_method_end(instrs0, body_is_empty));
    ctxt.inner.remove_dup_popx_pop_sequences();
    let body: Vec<Bytecode> = match &ctxt.inner.body {
        Some(b) => b.clone(),
        None => Vec::new(),
    };
    assert(body@ =~= finished_method_body(instrs0, body_is_empty));
    let literals = ctxt.inner.literals_vec();
    let max_stack_size = get_max_stack_size(&body, interner);
    let nbr_params = nb_params(ctxt.signature.as_str());
    match make_trivial_method_if_possible(&body, &literals, nbr_params) {
        Some(k) => CompiledMethod::Trivial(k),
        None => CompiledMethod::Defined(
            MethodInfo {
                body,
                literals,
                nbr_locals: ctxt.inner.locals_nbr,
                nbr_params,
                max_stack_size,
            },
        ),
    }
}

/// A block body's instructions once finished: a block that compiled to
/// nothing answers `nil`.
pub open spec fn finished_block_body(instrs: Option<Seq<Bytecode>>) -> Seq<Bytecode> {
    match instrs {
        Some(b) => without_dup_popx_pop(b),
        None => seq![Bytecode::PushNil, Bytecode::ReturnLocal],
    }
}

/// Finishes compiling a block whose expressions were compiled into `ctxt`,
/// with a `POP` between two of them and a `ReturnLocal` after the last:
/// removes the redundant `DUP; POP_x; POP` sequences, makes an empty block
/// answer `nil`, and computes the stack size its frames need.
pub fn finish_block(ctxt: &mut BlockGenCtxt, interner: &Interner) -> (r: MethodInfo)
    requires
        old(ctxt).wf(),
        dup_popx_pop_precondition(old(ctxt).instrs()),
        stack_size_computable(
            finished_block_body(
                if old(ctxt).body is Some {
                    Some(old(ctxt).instrs())
                } else {
                    None
                },
            ),
            interner.view(),
        ),
    ensures
        ({
            let body = finished_block_body(
                if old(ctxt).body is Some {
                    Some(old(ctxt).instrs())
                } else {
                    None
                },
            );
            &&& final(ctxt).instrs() == body
            &&& r.body@ == body
            &&& r.literals@ == old(ctxt).lits()
            &&& r.nbr_locals == old(ctxt).locals_nbr
            &&& r.nbr_params == old(ctxt).args_nbr
            &&& r.max_stack_size == max_stack_depth(body, interner.view(), body.len() as int) + 1
        }),
{
    let ghost had_body = ctxt.body is Some;
    let ghost instrs0 = ctxt.instrs();
    ctxt.remove_dup_popx_pop_sequences();
    if ctxt.body.is_none() {
        ctxt.push_instr(Bytecode::PushNil);
        ctxt.push_instr(Bytecode::ReturnLocal);
        assert(ctxt.instrs() =~= seq![Bytecode::PushNil, Bytecode::ReturnLocal]);
    }
    let body: Vec<Bytecode> = match &ctxt.body {
        Some(b) => b.clone(),
        None => Vec::new(),
    };
    assert(body@ =~= ctxt.instrs());
    let literals = ctxt.literals_vec();
    let max_stack_size = get_max_stack_size(&body, interner);
    MethodInfo {
        body,
        literals,
        nbr_locals: ctxt.locals_nbr,
        nbr_params: ctxt.args_nbr,
        max_stack_size,
    }
}

} // verus!
