//! The bytecode interpreter's dispatch: one step of the current frame. The
//! step runs what only touches the frame's operand stack and instruction
//! index (stack shuffles, constants, jumps, integer increments) and tells the
//! interpreter loop what else to do: read or write a variable, a field or a
//! global, send a message, return.

use crate::bytecode::{with_jump_offset, Bytecode};
use crate::compiler::Literal;
use crate::inliner::{if_jump, if_nil_jump, inline_kind_of, or_and_jump, pop_jump, pop_nil_jump, InlineKind, JumpType, OrAndChoice};
use crate::interner::Interner;
use crate::method_compiler::{nb_params, selector_params, stack_effect, trivial_method, TrivialKind};
use crate::value::{AstNaNBoxedVal, Interned, BOOLEAN_TAG, INTEGER_TAG, NIL_TAG};
use vstd::prelude::*;

verus! {

/// The part of a frame the dispatch works on: the operand stack (its top
/// last) and the index of the next instruction.
pub struct FrameState {
    pub stack: Vec<AstNaNBoxedVal>,
    pub bytecode_idx: u16,
}

/// What the interpreter loop does after a step.
#[derive(Clone, Copy, Debug, PartialEq, Eq, Structural)]
pub enum Effect {
    /// Nothing: the step did all there was to do.
    Next,
    /// Push the local `idx` of the frame `up` frames out (0: this frame).
    PushLocal(u8, u8),
    /// Push the argument `idx` of the frame `up` frames out (0: this frame;
    /// argument 0 is `self`).
    PushArg(u8, u8),
    /// Push the field `idx` of `self`.
    PushField(u8),
    /// Push a new block made from the literal `idx`.
    PushBlock(u8),
    /// Push the value of the literal `idx`.
    PushConstant(u8),
    /// Push the global named by the literal `idx`.
    PushGlobal(u8),
    /// Store the value into the local `idx` of the frame `up` frames out.
    StoreLocal(u8, u8, AstNaNBoxedVal),
    /// Store the value into the argument `idx` of the frame `up` frames out.
    StoreArg(u8, u8, AstNaNBoxedVal),
    /// Store the value into the field `idx` of `self`.
    StoreField(u8, AstNaNBoxedVal),
    /// Send the message to the receiver under its arguments, which are on the
    /// stack.
    Send(Interned, usize),
    /// Send the message to `self`, starting the lookup in the superclass of
    /// the method's holder.
    SuperSend(Interned, usize),
    /// Increment or decrement the number on top of the stack, which is not an
    /// unboxed integer.
    IncrementOther(bool),
    /// Compare the two numbers on top of the stack, which are not both
    /// unboxed integers, and finish the `JumpIfGreater` with this offset.
    CompareOther(u16),
    /// Return `self` from the method.
    ReturnSelf,
    /// Return the value from the frame.
    ReturnLocal(AstNaNBoxedVal),
    /// Return the value from the method `up` frames out.
    ReturnNonLocal(u8, AstNaNBoxedVal),
}

/// The boolean `true`.
pub open spec fn is_true(v: AstNaNBoxedVal) -> bool {
    v.spec_tag() == BOOLEAN_TAG && v.spec_payload() != 0
}

/// The boolean `false`.
pub open spec fn is_false(v: AstNaNBoxedVal) -> bool {
    v.spec_tag() == BOOLEAN_TAG && v.spec_payload() == 0
}

/// An unboxed integer.
pub open spec fn int_of(v: AstNaNBoxedVal) -> Option<i32> {
    if v.spec_tag() == INTEGER_TAG {
        Some(AstNaNBoxedVal::payload_as_i32(v.spec_payload()))
    } else {
        None
    }
}

/// What the step needs of the frame to run the instruction without a fault:
/// enough operands, booleans where a boolean jump tests one, jumps that stay
/// within 16 bits, and no overflow of an unboxed integer.
pub open spec fn step_ok(bc: Bytecode, stack: Seq<AstNaNBoxedVal>, idx: int) -> bool {
    let n = stack.len();
    let top = stack[n - 1];
    match bc {
        Bytecode::Dup | Bytecode::Pop | Bytecode::PopLocal(..) | Bytecode::PopArg(..)
        | Bytecode::PopField(..) | Bytecode::ReturnLocal | Bytecode::ReturnNonLocal(..)
        | Bytecode::JumpOnNilTopTop(..) | Bytecode::JumpOnNotNilTopTop(..) | Bytecode::JumpOnNilPop(..)
        | Bytecode::JumpOnNotNilPop(..) => n >= 1 && match bc {
            Bytecode::JumpOnNilTopTop(o) | Bytecode::JumpOnNotNilTopTop(o) | Bytecode::JumpOnNilPop(o)
            | Bytecode::JumpOnNotNilPop(o) => 1 <= o && idx + o - 1 <= u16::MAX,
            _ => true,
        },
        Bytecode::Dup2 => n >= 2,
        Bytecode::Inc => n >= 1 && (int_of(top) is Some ==> int_of(top)->0 < i32::MAX),
        Bytecode::Dec => n >= 1 && (int_of(top) is Some ==> int_of(top)->0 > i32::MIN),
        Bytecode::Jump(o) => 1 <= o && idx + o - 1 <= u16::MAX,
        Bytecode::JumpBackward(o) => o + 1 <= idx,
        Bytecode::JumpOnTrueTopNil(o) | Bytecode::JumpOnFalseTopNil(o) | Bytecode::JumpOnTruePop(o)
        | Bytecode::JumpOnFalsePop(o) => n >= 1 && (is_true(top) || is_false(top)) && 1 <= o && idx + o
            - 1 <= u16::MAX,
        Bytecode::JumpIfGreater(o) => n >= 2 && 1 <= o && idx + o - 1 <= u16::MAX,
        _ => true,
    }
}

/// The frame after a forward jump by `o`, counted from the jump itself.
pub open spec fn jumped(idx: int, o: u16) -> int {
    idx + o - 1
}

/// What a step does with the instruction `bc`, the operand stack `s` and the
/// index `idx` of the next instruction: the effect it asks for, the stack
/// and the next index after it.
pub open spec fn step_spec(bc: Bytecode, s: Seq<AstNaNBoxedVal>, idx: int, names: Seq<Seq<char>>) -> (
    Effect,
    Seq<AstNaNBoxedVal>,
    int,
) {
    let n = s.len();
    match bc {
        Bytecode::Dup => (Effect::Next, s.push(s[n - 1]), idx),
        Bytecode::Dup2 => (Effect::Next, s.push(s[n - 2]), idx),
        Bytecode::Push0 => (Effect::Next, s.push(AstNaNBoxedVal::integer_spec(0)), idx),
        Bytecode::Push1 => (Effect::Next, s.push(AstNaNBoxedVal::integer_spec(1)), idx),
        Bytecode::PushNil => (Effect::Next, s.push(AstNaNBoxedVal::nil_spec()), idx),
        Bytecode::Pop => (Effect::Next, s.drop_last(), idx),
        Bytecode::Inc | Bytecode::Dec => match int_of(s[n - 1]) {
            Some(v) => (
                Effect::Next,
                s.update(
                    n - 1,
                    AstNaNBoxedVal::integer_spec(
                        if bc is Inc {
                            (v + 1) as i32
                        } else {
                            (v - 1) as i32
                        },
                    ),
                ),
                idx,
            ),
            None => (Effect::IncrementOther(bc is Inc), s, idx),
        },
        Bytecode::PushLocal(i) => (Effect::PushLocal(0, i), s, idx),
        Bytecode::PushNonLocal(up, i) => (Effect::PushLocal(up, i), s, idx),
        Bytecode::PushArg(i) => (Effect::PushArg(0, i), s, idx),
        Bytecode::PushNonLocalArg(up, i) => (Effect::PushArg(up, i), s, idx),
        Bytecode::PushSelf => (Effect::PushArg(0, 0), s, idx),
        Bytecode::PushField(i) => (Effect::PushField(i), s, idx),
        Bytecode::PushBlock(i) => (Effect::PushBlock(i), s, idx),
        Bytecode::PushConstant(i) => (Effect::PushConstant(i), s, idx),
        Bytecode::PushGlobal(i) => (Effect::PushGlobal(i), s, idx),
        Bytecode::PopLocal(up, i) => (Effect::StoreLocal(up, i, s[n - 1]), s.drop_last(), idx),
        Bytecode::PopArg(up, i) => (Effect::StoreArg(up, i, s[n - 1]), s.drop_last(), idx),
        Bytecode::PopField(i) => (Effect::StoreField(i, s[n - 1]), s.drop_last(), idx),
        Bytecode::Send1(sym) => (Effect::Send(sym, 0), s, idx),
        Bytecode::Send2(sym) => (Effect::Send(sym, 1), s, idx),
        Bytecode::Send3(sym) => (Effect::Send(sym, 2), s, idx),
        Bytecode::SendN(sym) => (Effect::Send(sym, selector_params(names[sym.0 as int]) as usize), s, idx),
        Bytecode::SuperSend(sym) => (
            Effect::SuperSend(sym, selector_params(names[sym.0 as int]) as usize),
            s,
            idx,
        ),
        Bytecode::ReturnSelf => (Effect::ReturnSelf, s, idx),
        Bytecode::ReturnLocal => (Effect::ReturnLocal(s[n - 1]), s.drop_last(), idx),
        Bytecode::ReturnNonLocal(up) => (Effect::ReturnNonLocal(up, s[n - 1]), s.drop_last(), idx),
        Bytecode::Jump(o) => (Effect::Next, s, jumped(idx, o)),
        Bytecode::JumpBackward(o) => (Effect::Next, s, idx - o - 1),
        Bytecode::JumpOnTrueTopNil(o) => if is_true(s[n - 1]) {
            (Effect::Next, s.update(n - 1, AstNaNBoxedVal::nil_spec()), jumped(idx, o))
        } else {
            (Effect::Next, s.drop_last(), idx)
        },
        Bytecode::JumpOnFalseTopNil(o) => if is_false(s[n - 1]) {
            (Effect::Next, s.update(n - 1, AstNaNBoxedVal::nil_spec()), jumped(idx, o))
        } else {
            (Effect::Next, s.drop_last(), idx)
        },
        Bytecode::JumpOnTruePop(o) => (
            Effect::Next,
            s.drop_last(),
            if is_true(s[n - 1]) {
                jumped(idx, o)
            } else {
                idx
            },
        ),
        Bytecode::JumpOnFalsePop(o) => (
            Effect::Next,
            s.drop_last(),
            if is_false(s[n - 1]) {
                jumped(idx, o)
            } else {
                idx
            },
        ),
        Bytecode::JumpIfGreater(o) => match (int_of(s[n - 1]), int_of(s[n - 2])) {
            (Some(a), Some(b)) => if a > b {
                (Effect::Next, s.subrange(0, n - 2), jumped(idx, o))
            } else {
                (Effect::Next, s, idx)
            },
            _ => (Effect::CompareOther(o), s, idx),
        },
        Bytecode::JumpOnNilTopTop(o) => if s[n - 1].spec_tag() == NIL_TAG {
            (Effect::Next, s, jumped(idx, o))
        } else {
            (Effect::Next, s.drop_last(), idx)
        },
        Bytecode::JumpOnNotNilTopTop(o) => if s[n - 1].spec_tag() != NIL_TAG {
            (Effect::Next, s, jumped(idx, o))
        } else {
            (Effect::Next, s.drop_last(), idx)
        },
        Bytecode::JumpOnNilPop(o) => (
            Effect::Next,
            s.drop_last(),
            if s[n - 1].spec_tag() == NIL_TAG {
                jumped(idx, o)
            } else {
                idx
            },
        ),
        Bytecode::JumpOnNotNilPop(o) => (
            Effect::Next,
            s.drop_last(),
            if s[n - 1].spec_tag() != NIL_TAG {
                jumped(idx, o)
            } else {
                idx
            },
        ),
    }
}

impl FrameState {
    /// Runs the instruction at the current index of `body`, after moving the
    /// index past it. `interner` gives the selectors of `SendN` and
    /// `SuperSend`, whose parameter count is taken from them.
    pub fn step(&mut self, body: &Vec<Bytecode>, interner: &Interner) -> (r: Effect)
        requires
            old(self).bytecode_idx < body@.len(),
            old(self).bytecode_idx < u16::MAX,
            step_ok(body@[old(self).bytecode_idx as int], old(self).stack@, old(self).bytecode_idx + 1),
            match body@[old(self).bytecode_idx as int] {
                Bytecode::SendN(s) | Bytecode::SuperSend(s) => s.0 < interner.view().len(),
                _ => true,
            },
        ensures
            (r, final(self).stack@, final(self).bytecode_idx as int) == step_spec(
                body@[old(self).bytecode_idx as int],
                old(self).stack@,
                old(self).bytecode_idx + 1,
                interner.view(),
            ),
    {
        let bc = body[self.bytecode_idx as usize];
        self.bytecode_idx = self.bytecode_idx + 1;
        match bc {
            Bytecode::Dup => {
                let v = self.stack[self.stack.len() - 1];
                self.stack.push(v);
                Effect::Next
            },
            Bytecode::Dup2 => {
                let v = self.stack[self.stack.len() - 2];
                self.stack.push(v);
                Effect::Next
            },
            Bytecode::Push0 => {
                self.stack.push(AstNaNBoxedVal::new_integer(0));
                Effect::Next
            },
            Bytecode::Push1 => {
                self.stack.push(AstNaNBoxedVal::new_integer(1));
                Effect::Next
            },
            Bytecode::PushNil => {
                self.stack.push(AstNaNBoxedVal::nil());
                Effect::Next
            },
            Bytecode::Pop => {
                self.stack.pop();
                Effect::Next
            },
            Bytecode::Inc | Bytecode::Dec => {
                let last = self.stack.len() - 1;
                let is_inc = match bc {
                    Bytecode::Inc => true,
                    _ => false,
                };
                match self.stack[last].as_integer() {
                    Some(v) => {
                        let nv = if is_inc { v + 1 } else { v - 1 };
                        self.stack.set(last, AstNaNBoxedVal::new_integer(nv));
                        Effect::Next
                    },
                    None => Effect::IncrementOther(is_inc),
                }
            },
            Bytecode::PushLocal(i) => Effect::PushLocal(0, i),
            Bytecode::PushNonLocal(up, i) => Effect::PushLocal(up, i),
            Bytecode::PushArg(i) => Effect::PushArg(0, i),
            Bytecode::PushNonLocalArg(up, i) => Effect::PushArg(up, i),
            Bytecode::PushSelf => Effect::PushArg(0, 0),
            Bytecode::PushField(i) => Effect::PushField(i),
            Bytecode::PushBlock(i) => Effect::PushBlock(i),
            Bytecode::PushConstant(i) => Effect::PushConstant(i),
            Bytecode::PushGlobal(i) => Effect::PushGlobal(i),
            Bytecode::PopLocal(up, i) => {
                let v = self.stack.pop().unwrap();
                Effect::StoreLocal(up, i, v)
            },
            Bytecode::PopArg(up, i) => {
                let v = self.stack.pop().unwrap();
                Effect::StoreArg(up, i, v)
            },
            Bytecode::PopField(i) => {
                let v = self.stack.pop().unwrap();
                Effect::StoreField(i, v)
            },
            Bytecode::Send1(sym) => Effect::Send(sym, 0),
            Bytecode::Send2(sym) => Effect::Send(sym, 1),
            Bytecode::Send3(sym) => Effect::Send(sym, 2),
            Bytecode::SendN(sym) => Effect::Send(sym, nb_params(interner.lookup(sym))),
            Bytecode::SuperSend(sym) => Effect::SuperSend(sym, nb_params(interner.lookup(sym))),
            Bytecode::ReturnSelf => Effect::ReturnSelf,
            Bytecode::ReturnLocal => {
                let v = self.stack.pop().unwrap();
                Effect::ReturnLocal(v)
            },
            Bytecode::ReturnNonLocal(up) => {
                let v = self.stack.pop().unwrap();
                Effect::ReturnNonLocal(up, v)
            },
            Bytecode::Jump(o) => {
                self.bytecode_idx = self.bytecode_idx + (o - 1);
                Effect::Next
            },
            Bytecode::JumpBackward(o) => {
                self.bytecode_idx = self.bytecode_idx - (o + 1);
                Effect::Next
            },
            Bytecode::JumpOnTrueTopNil(o) | Bytecode::JumpOnFalseTopNil(o) => {
                let last = self.stack.len() - 1;
                let cond = self.stack[last].as_boolean_unchecked();
                let jump_when = match bc {
                    Bytecode::JumpOnTrueTopNil(_) => true,
                    _ => false,
                };
                if cond == jump_when {
                    self.bytecode_idx = self.bytecode_idx + (o - 1);
                    self.stack.set(last, AstNaNBoxedVal::nil());
                } else {
                    self.stack.pop();
                }
                Effect::Next
            },
            Bytecode::JumpOnTruePop(o) | Bytecode::JumpOnFalsePop(o) => {
                let v = self.stack.pop().unwrap();
                let jump_when = match bc {
                    Bytecode::JumpOnTruePop(_) => true,
                    _ => false,
                };
                if v.as_boolean_unchecked() == jump_when {
                    self.bytecode_idx = self.bytecode_idx + (o - 1);
                }
                Effect::Next
            },
            Bytecode::JumpIfGreater(o) => {
                let n = self.stack.len();
                match (self.stack[n - 1].as_integer(), self.stack[n - 2].as_integer()) {
                    (Some(a), Some(b)) => {
                        if a > b {
                            self.stack.pop();
                            self.stack.pop();
                            self.bytecode_idx = self.bytecode_idx + (o - 1);
                        }
                        Effect::Next
                    },
                    _ => Effect::CompareOther(o),
                }
            },
            Bytecode::JumpOnNilTopTop(o) | Bytecode::JumpOnNotNilTopTop(o) => {
                let is_nil = self.stack[self.stack.len() - 1].is_nil();
                let jump_when = match bc {
                    Bytecode::JumpOnNilTopTop(_) => true,
                    _ => false,
                };
                if is_nil == jump_when {
                    self.bytecode_idx = self.bytecode_idx + (o - 1);
                } else {
                    self.stack.pop();
                }
                Effect::Next
            },
            Bytecode::JumpOnNilPop(o) | Bytecode::JumpOnNotNilPop(o) => {
                let v = self.stack.pop().unwrap();
                let jump_when = match bc {
                    Bytecode::JumpOnNilPop(_) => true,
                    _ => false,
                };
                if v.is_nil() == jump_when {
                    self.bytecode_idx = self.bytecode_idx + (o - 1);
                }
                Effect::Next
            },
        }
    }

    /// Finishes a `JumpIfGreater` whose operands were compared outside (as
    /// doubles): when the top one is greater, both go and the jump is taken.
    pub fn finish_jump_if_greater(&mut self, offset: u16, is_greater: bool)
        requires
            old(self).stack@.len() >= 2,
            1 <= offset,
            old(self).bytecode_idx + offset - 1 <= u16::MAX,
        ensures
            is_greater ==> final(self).stack@ == old(self).stack@.subrange(0, old(self).stack@.len() - 2)
                && final(self).bytecode_idx == jumped(old(self).bytecode_idx as int, offset),
            !is_greater ==> final(self).stack@ == old(self).stack@ && final(self).bytecode_idx == old(
                self,
            ).bytecode_idx,
    {
        if is_greater {
            self.stack.pop();
            self.stack.pop();
            self.bytecode_idx = self.bytecode_idx + (offset - 1);
        }
    }
}

/// How the outside work an effect asks for changes the operand stack, at
/// most: a push adds a value; a send takes the receiver and its arguments
/// and leaves one result; anything else adds nothing.
pub open spec fn outside_stack_change(e: Effect) -> int {
    match e {
        Effect::PushLocal(..) | Effect::PushArg(..) | Effect::PushField(..) | Effect::PushBlock(..)
        | Effect::PushConstant(..) | Effect::PushGlobal(..) => 1,
        Effect::Send(_, nb) | Effect::SuperSend(_, nb) => -nb,
        _ => 0,
    }
}

/// The stack-size analysis of the method compiler never counts less than an
/// instruction pushes when the interpreter runs it: the depth after the step
/// and the outside work it asks for is at most the depth before plus the
/// instruction's counted effect. (A selector with more than 255 parameters
/// would wrap the analysis' byte count; it is left out.)
pub proof fn lemma_step_within_stack_analysis(bc: Bytecode, s: Seq<AstNaNBoxedVal>, idx: int, names: Seq<Seq<char>>)
    requires
        step_ok(bc, s, idx),
        match bc {
            Bytecode::SendN(sym) | Bytecode::SuperSend(sym) => sym.0 < names.len() && selector_params(
                names[sym.0 as int],
            ) <= u8::MAX,
            _ => true,
        },
    ensures
        ({
            let (e, st, ni) = step_spec(bc, s, idx, names);
            st.len() + outside_stack_change(e) <= s.len() + stack_effect(bc, names)
        }),
{
}

/// The conditional jumps on a boolean test the boolean on top of the stack:
/// `JumpOnTruePop` and `JumpOnTrueTopNil` jump when it is `true`,
/// `JumpOnFalsePop` and `JumpOnFalseTopNil` when it is `false`, each to `o`
/// instructions after the jump; otherwise they go on to the next
/// instruction. The `Pop` jumps drop the boolean either way; the `TopNil`
/// jumps leave `nil` in its place when they jump and drop it when they do
/// not.
pub proof fn lemma_boolean_jumps(o: u16, s: Seq<AstNaNBoxedVal>, at: int, names: Seq<Seq<char>>)
    requires
        s.len() >= 1,
        s.last().as_boolean_spec() is Some,
    ensures
        ({
            let b = s.last().as_boolean_spec()->0;
            let rest = s.drop_last();
            &&& step_spec(Bytecode::JumpOnTruePop(o), s, at + 1, names) == (Effect::Next, rest, if b {
                at + o
            } else {
                at + 1
            })
            &&& step_spec(Bytecode::JumpOnFalsePop(o), s, at + 1, names) == (Effect::Next, rest, if b {
                at + 1
            } else {
                at + o
            })
            &&& step_spec(Bytecode::JumpOnTrueTopNil(o), s, at + 1, names) == if b {
                (Effect::Next, rest.push(AstNaNBoxedVal::nil_spec()), at + o)
            } else {
                (Effect::Next, rest, at + 1)
            }
            &&& step_spec(Bytecode::JumpOnFalseTopNil(o), s, at + 1, names) == if b {
                (Effect::Next, rest, at + 1)
            } else {
                (Effect::Next, rest.push(AstNaNBoxedVal::nil_spec()), at + o)
            }
        }),
{
    assert(s.update(s.len() - 1, AstNaNBoxedVal::nil_spec()) =~= s.drop_last().push(AstNaNBoxedVal::nil_spec()));
}

/// Whether the conditional jump of an inlined control structure, once its
/// offset `o` is set, skips what follows it when run at `at` on the stack `s`.
pub open spec fn skips(jump: Bytecode, o: u16, s: Seq<AstNaNBoxedVal>, at: int, names: Seq<Seq<char>>) -> bool {
    step_spec(with_jump_offset(jump, o), s, at + 1, names).2 == at + o
}

/// The inlined control structures run their first block on the receiver's
/// own condition: the jump emitted before the block of `ifTrue:`,
/// `ifTrue:ifFalse:` and `whileTrue:` skips it exactly when the receiver is
/// `false`, that of `ifFalse:`, `ifFalse:ifTrue:` and `whileFalse:` exactly
/// when it is `true`; the jump before the block of `ifNil:` and
/// `ifNil:ifNotNil:` skips it exactly when the receiver is not `nil`, that
/// of `ifNotNil:` and `ifNotNil:ifNil:` exactly when it is `nil`.
pub proof fn lemma_inlined_blocks_run_on_their_condition(
    o: u16,
    s: Seq<AstNaNBoxedVal>,
    at: int,
    names: Seq<Seq<char>>,
)
    requires
        2 <= o,
        s.len() >= 1,
    ensures
        s.last().as_boolean_spec() matches Some(b) ==> {
            &&& inline_kind_of("ifTrue:"@) matches Some(InlineKind::IfTrueOrIfFalse(jt)) && (skips(
                if_jump(jt),
                o,
                s,
                at,
                names,
            ) <==> !b)
            &&& inline_kind_of("ifFalse:"@) matches Some(InlineKind::IfTrueOrIfFalse(jt)) && (skips(
                if_jump(jt),
                o,
                s,
                at,
                names,
            ) <==> b)
            &&& inline_kind_of("ifTrue:ifFalse:"@) matches Some(InlineKind::IfTrueIfFalse(jt)) && (skips(
                pop_jump(jt),
                o,
                s,
                at,
                names,
            ) <==> !b)
            &&& inline_kind_of("ifFalse:ifTrue:"@) matches Some(InlineKind::IfTrueIfFalse(jt)) && (skips(
                pop_jump(jt),
                o,
                s,
                at,
                names,
            ) <==> b)
            &&& inline_kind_of("whileTrue:"@) matches Some(InlineKind::While(jt)) && (skips(
                pop_jump(jt),
                o,
                s,
                at,
                names,
            ) <==> !b)
            &&& inline_kind_of("whileFalse:"@) matches Some(InlineKind::While(jt)) && (skips(
                pop_jump(jt),
                o,
                s,
                at,
                names,
            ) <==> b)
            &&& inline_kind_of("or:"@) matches Some(InlineKind::OrAnd(c)) && (skips(or_and_jump(c), o, s, at, names)
                <==> b)
            &&& inline_kind_of("||"@) matches Some(InlineKind::OrAnd(c)) && (skips(or_and_jump(c), o, s, at, names)
                <==> b)
            &&& inline_kind_of("and:"@) matches Some(InlineKind::OrAnd(c)) && (skips(or_and_jump(c), o, s, at, names)
                <==> !b)
            &&& inline_kind_of("&&"@) matches Some(InlineKind::OrAnd(c)) && (skips(or_and_jump(c), o, s, at, names)
                <==> !b)
        },
        inline_kind_of("ifNil:"@) matches Some(InlineKind::IfNilOrIfNotNil(jt)) && (skips(
            if_nil_jump(jt),
            o,
            s,
            at,
            names,
        ) <==> s.last().spec_tag() != NIL_TAG),
        inline_kind_of("ifNotNil:"@) matches Some(InlineKind::IfNilOrIfNotNil(jt)) && (skips(
            if_nil_jump(jt),
            o,
            s,
            at,
            names,
        ) <==> s.last().spec_tag() == NIL_TAG),
        inline_kind_of("ifNil:ifNotNil:"@) matches Some(InlineKind::IfNilIfNotNil(jt)) && (skips(
            pop_nil_jump(jt),
            o,
            s,
            at,
            names,
        ) <==> s.last().spec_tag() != NIL_TAG),
        inline_kind_of("ifNotNil:ifNil:"@) matches Some(InlineKind::IfNilIfNotNil(jt)) && (skips(
            pop_nil_jump(jt),
            o,
            s,
            at,
            names,
        ) <==> s.last().spec_tag() == NIL_TAG),
{
    reveal_strlit("ifTrue:");
    reveal_strlit("ifFalse:");
    reveal_strlit("ifTrue:ifFalse:");
    reveal_strlit("ifFalse:ifTrue:");
    reveal_strlit("whileTrue:");
    reveal_strlit("whileFalse:");
    reveal_strlit("or:");
    reveal_strlit("||");
    reveal_strlit("and:");
    reveal_strlit("&&");
    reveal_strlit("to:do:");
    reveal_strlit("ifNil:");
    reveal_strlit("ifNotNil:");
    reveal_strlit("ifNil:ifNotNil:");
    reveal_strlit("ifNotNil:ifNil:");
    assert("ifNil:ifNotNil:"@.len() == 15 && "ifNotNil:ifNil:"@.len() == 15);
    assert("ifNil:ifNotNil:"@[2] != "ifTrue:ifFalse:"@[2] && "ifNil:ifNotNil:"@[2] != "ifFalse:ifTrue:"@[2]);
    assert("ifNotNil:ifNil:"@[2] != "ifTrue:ifFalse:"@[2] && "ifNotNil:ifNil:"@[2] != "ifFalse:ifTrue:"@[2]);
    assert("ifNil:ifNotNil:"@[3] != "ifNotNil:ifNil:"@[3]);
    assert("or:"@.len() == 3 && "||"@.len() == 2 && "and:"@.len() == 4 && "&&"@.len() == 2);
    assert("||"@[0] != "&&"@[0]);
    assert("ifFalse:"@.len() == 8 && "ifTrue:"@.len() == 7);
    assert("ifTrue:ifFalse:"@.len() == 15 && "ifFalse:ifTrue:"@.len() == 15);
    assert("ifTrue:ifFalse:"@[2] != "ifFalse:ifTrue:"@[2]);
    assert("whileTrue:"@.len() == 10 && "whileFalse:"@.len() == 11);
    assert("ifNil:"@.len() == 6 && "to:do:"@.len() == 6 && "ifNil:"@[0] != "to:do:"@[0]);
    assert("ifNotNil:"@.len() == 9 && "whileTrue:"@.len() == 10);
    assert(inline_kind_of("ifTrue:"@) == Some(InlineKind::IfTrueOrIfFalse(JumpType::JumpOnFalse)));
    assert(inline_kind_of("ifFalse:"@) == Some(InlineKind::IfTrueOrIfFalse(JumpType::JumpOnTrue)));
    assert(inline_kind_of("ifTrue:ifFalse:"@) == Some(InlineKind::IfTrueIfFalse(JumpType::JumpOnFalse)));
    assert(inline_kind_of("ifFalse:ifTrue:"@) == Some(InlineKind::IfTrueIfFalse(JumpType::JumpOnTrue)));
    assert(inline_kind_of("whileTrue:"@) == Some(InlineKind::While(JumpType::JumpOnFalse)));
    assert(inline_kind_of("whileFalse:"@) == Some(InlineKind::While(JumpType::JumpOnTrue)));
    assert(inline_kind_of("ifNil:"@) == Some(InlineKind::IfNilOrIfNotNil(JumpType::JumpOnFalse)));
    assert(inline_kind_of("ifNotNil:"@) == Some(InlineKind::IfNilOrIfNotNil(JumpType::JumpOnTrue)));
    assert(inline_kind_of("ifNil:ifNotNil:"@) == Some(InlineKind::IfNilIfNotNil(JumpType::JumpOnFalse)));
    assert(inline_kind_of("ifNotNil:ifNil:"@) == Some(InlineKind::IfNilIfNotNil(JumpType::JumpOnTrue)));
    assert(inline_kind_of("or:"@) == Some(InlineKind::OrAnd(OrAndChoice::Or)));
    assert(inline_kind_of("||"@) == Some(InlineKind::OrAnd(OrAndChoice::Or)));
    assert(inline_kind_of("and:"@) == Some(InlineKind::OrAnd(OrAndChoice::And)));
    assert(inline_kind_of("&&"@) == Some(InlineKind::OrAnd(OrAndChoice::And)));
    if s.last().as_boolean_spec() is Some {
        lemma_boolean_jumps(o, s, at, names);
    }
}

/// A method made trivial because it answers a literal answers what its
/// body pushes: its body is one push and `ReturnLocal`, and running that
/// push either leaves the literal's integer on the stack (`Push0`,
/// `Push1`) or asks for the literal table's entry that is the literal
/// (`PushConstant`). Conversely, a body that pushes 0 or 1 and returns it,
/// with no parameter, is always made trivial.
pub proof fn lemma_trivial_literal_is_what_the_body_pushes(
    body: Seq<Bytecode>,
    lits: Seq<Literal>,
    s: Seq<AstNaNBoxedVal>,
    names: Seq<Seq<char>>,
)
    ensures
        trivial_method(body, lits, 0) matches Some(TrivialKind::Literal(l)) ==> {
            &&& body.len() == 2
            &&& body[1] == Bytecode::ReturnLocal
            &&& match step_spec(body[0], s, 1, names) {
                (Effect::Next, after, next) => l matches Literal::Integer(v) && after == s.push(
                    AstNaNBoxedVal::integer_spec(v),
                ) && next == 1,
                (Effect::PushConstant(k), _, _) => k < lits.len() && lits[k as int] == l,
                _ => false,
            }
        },
        body.len() == 2 && body[1] == Bytecode::ReturnLocal && (body[0] == Bytecode::Push0 || body[0]
            == Bytecode::Push1) ==> trivial_method(body, lits, 0) is Some,
{
}

} // verus!
