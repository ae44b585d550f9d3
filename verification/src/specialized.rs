//! The specialized nodes of the AST interpreter: the control flow of the
//! common control-structure messages (`ifTrue:`, `whileTrue:`, `to:do:`, ...)
//! and of the trivial methods, without a message send.
//!
//! Each node decides what to do next; the interpreter does it (evaluates a
//! condition, a body, a block) and hands the outcome back.

use crate::value::AstNaNBoxedVal;
use vstd::prelude::*;

verus! {

/// How the evaluation of a block or an expression ended.
#[derive(Clone, Copy, Debug, PartialEq, Eq, Structural)]
pub enum Outcome {
    /// It produced a value locally.
    Local(AstNaNBoxedVal),
    /// It returned non-locally (or unwound); the node passes this on as it is.
    Escape,
}

/// What a node asks the interpreter to do next.
#[derive(Clone, Copy, Debug, PartialEq, Eq, Structural)]
pub enum Action {
    /// Evaluate the condition, and hand its outcome back.
    EvalCondition,
    /// Evaluate the body, and hand its outcome back.
    EvalBody,
    /// Evaluate the body block with this integer as its argument, and hand
    /// its outcome back.
    EvalBodyWith(i32),
    /// Evaluate the body; its outcome is the node's result.
    TailBody,
    /// Evaluate this block; its outcome is the node's result.
    TailBlock(AstNaNBoxedVal),
    /// The node's result is this value, returned locally.
    Return(AstNaNBoxedVal),
    /// The node's result is the outcome just handed back, passed on.
    Propagate,
}

/// Whether a value is a boolean that reads as `b`.
pub open spec fn is_bool(v: AstNaNBoxedVal, b: bool) -> bool {
    v.as_boolean_spec() == Some(b)
}

/// `ifTrue:` / `ifFalse:` with a block argument.
#[derive(Clone, Copy, Debug, PartialEq, Eq, Structural)]
pub struct IfNode {
    pub expected_bool: bool,
}

impl IfNode {
    /// Given the receiver and the block: evaluate the block if the receiver
    /// is the expected boolean, else answer `nil`.
    pub fn invoke(&self, cond: AstNaNBoxedVal, body: AstNaNBoxedVal) -> (r: Action)
        requires
            cond.as_boolean_spec() is Some,
            body.is_block_spec(),
        ensures
            r == (if cond.as_boolean_spec() == Some(self.expected_bool) {
                Action::TailBlock(body)
            } else {
                Action::Return(AstNaNBoxedVal::nil_spec())
            }),
    {
        let b = cond.as_boolean().unwrap();
        if b != self.expected_bool {
            Action::Return(AstNaNBoxedVal::nil())
        } else {
            Action::TailBlock(body)
        }
    }
}

/// `ifTrue:ifFalse:`.
#[derive(Clone, Copy, Debug, PartialEq, Eq, Structural)]
pub struct IfTrueIfFalseNode {}

impl IfTrueIfFalseNode {
    /// Given the receiver and the two arguments: the argument the receiver
    /// selects is evaluated if it is a block, or answered as it is.
    pub fn invoke(&self, cond: AstNaNBoxedVal, if_true: AstNaNBoxedVal, if_false: AstNaNBoxedVal) -> (r:
        Action)
        requires
            cond.as_boolean_spec() is Some,
        ensures
            ({
                let chosen = if cond.as_boolean_spec() == Some(true) { if_true } else { if_false };
                r == (if chosen.is_block_spec() {
                    Action::TailBlock(chosen)
                } else {
                    Action::Return(chosen)
                })
            }),
    {
        let chosen = if cond.as_boolean().unwrap() { if_true } else { if_false };
        if chosen.is_block() {
            Action::TailBlock(chosen)
        } else {
            Action::Return(chosen)
        }
    }
}

/// `whileTrue:` / `whileFalse:` with block arguments: the condition block is
/// evaluated, then the body while the condition gives the expected boolean.
#[derive(Clone, Copy, Debug, PartialEq, Eq, Structural)]
pub struct WhileNode {
    pub expected_bool: bool,
}

impl WhileNode {
    /// The loop starts with the condition.
    pub fn start(&self) -> (r: Action)
        ensures
            r == Action::EvalCondition,
    {
        Action::EvalCondition
    }

    /// After the condition: the body if it gave the expected boolean, else
    /// the loop answers `nil`. The condition must answer a boolean locally.
    pub fn after_condition(&self, cond: Outcome) -> (r: Action)
        requires
            cond matches Outcome::Local(v) && v.as_boolean_spec() is Some,
        ensures
            r == (if is_bool(cond->Local_0, self.expected_bool) {
                Action::EvalBody
            } else {
                Action::Return(AstNaNBoxedVal::nil_spec())
            }),
    {
        match cond {
            Outcome::Local(v) => {
                if v.as_boolean().unwrap() != self.expected_bool {
                    Action::Return(AstNaNBoxedVal::nil())
                } else {
                    Action::EvalBody
                }
            },
            Outcome::Escape => Action::Propagate,
        }
    }

    /// After the body: the condition again, unless the body escaped.
    pub fn after_body(&self, body: Outcome) -> (r: Action)
        ensures
            r == (if body is Escape {
                Action::Propagate
            } else {
                Action::EvalCondition
            }),
    {
        match body {
            Outcome::Local(_) => Action::EvalCondition,
            Outcome::Escape => Action::Propagate,
        }
    }
}

/// An inlined `ifTrue:` / `ifFalse:`: the condition expression, then the body
/// if it gave the expected boolean.
#[derive(Clone, Copy, Debug, PartialEq, Eq, Structural)]
pub struct IfInlinedNode {
    pub expected_bool: bool,
}

impl IfInlinedNode {
    /// The node starts with the condition.
    pub fn start(&self) -> (r: Action)
        ensures
            r == Action::EvalCondition,
    {
        Action::EvalCondition
    }

    /// After the condition: an escape is passed on; the expected boolean
    /// gives the body's outcome; the other boolean answers `nil`.
    pub fn after_condition(&self, cond: Outcome) -> (r: Action)
        requires
            cond matches Outcome::Local(v) ==> v.spec_tag() == crate::value::BOOLEAN_TAG,
        ensures
            r == match cond {
                Outcome::Escape => Action::Propagate,
                Outcome::Local(v) => if (v.spec_payload() != 0) == self.expected_bool {
                    Action::TailBody
                } else {
                    Action::Return(AstNaNBoxedVal::nil_spec())
                },
            },
    {
        match cond {
            Outcome::Escape => Action::Propagate,
            Outcome::Local(v) => {
                if v.as_boolean_unchecked() == self.expected_bool {
                    Action::TailBody
                } else {
                    Action::Return(AstNaNBoxedVal::nil())
                }
            },
        }
    }
}

/// An inlined `or:`: the first expression, and the second body only when the
/// first gave `false`.
#[derive(Clone, Copy, Debug, PartialEq, Eq, Structural)]
pub struct OrInlinedNode {}

impl OrInlinedNode {
    /// The node starts with the first expression.
    pub fn start(&self) -> (r: Action)
        ensures
            r == Action::EvalCondition,
    {
        Action::EvalCondition
    }

    /// After the first expression: an escape is passed on; `true` is the
    /// answer; `false` gives the second body's outcome.
    pub fn after_first(&self, first: Outcome) -> (r: Action)
        requires
            first matches Outcome::Local(v) ==> v.as_boolean_spec() is Some,
        ensures
            r == match first {
                Outcome::Escape => Action::Propagate,
                Outcome::Local(v) => if is_bool(v, true) {
                    Action::Return(v)
                } else {
                    Action::TailBody
                },
            },
    {
        match first {
            Outcome::Escape => Action::Propagate,
            Outcome::Local(v) => {
                if v.as_boolean().unwrap() {
                    Action::Return(v)
                } else {
                    Action::TailBody
                }
            },
        }
    }
}

/// An inlined `whileTrue:` / `whileFalse:`: the condition, then the body
/// while the condition gives the expected boolean.
#[derive(Clone, Copy, Debug, PartialEq, Eq, Structural)]
pub struct WhileInlinedNode {
    pub expected_bool: bool,
}

impl WhileInlinedNode {
    /// The loop starts with the condition.
    pub fn start(&self) -> (r: Action)
        ensures
            r == Action::EvalCondition,
    {
        Action::EvalCondition
    }

    /// After the condition: an escape is passed on; the expected boolean
    /// gives the body; the other one ends the loop with `nil`.
    pub fn after_condition(&self, cond: Outcome) -> (r: Action)
        requires
            cond matches Outcome::Local(v) ==> v.spec_tag() == crate::value::BOOLEAN_TAG,
        ensures
            r == match cond {
                Outcome::Escape => Action::Propagate,
                Outcome::Local(v) => if (v.spec_payload() != 0) != self.expected_bool {
                    Action::Return(AstNaNBoxedVal::nil_spec())
                } else {
                    Action::EvalBody
                },
            },
    {
        match cond {
            Outcome::Escape => Action::Propagate,
            Outcome::Local(v) => {
                if v.as_boolean_unchecked() != self.expected_bool {
                    Action::Return(AstNaNBoxedVal::nil())
                } else {
                    Action::EvalBody
                }
            },
        }
    }

    /// After the body: the condition again, unless the body escaped.
    pub fn after_body(&self, body: Outcome) -> (r: Action)
        ensures
            r == (if body is Escape {
                Action::Propagate
            } else {
                Action::EvalCondition
            }),
    {
        match body {
            Outcome::Local(_) => Action::EvalCondition,
            Outcome::Escape => Action::Propagate,
        }
    }
}

/// The arguments of a counting loop, as the node sees them.
#[derive(Clone, Copy, Debug, PartialEq, Eq, Structural)]
pub enum LoopArgs {
    /// Integer bounds and a block: the node runs the loop.
    Integers(i32, i32),
    /// Double bounds and a block: the loop counts in floating point.
    Doubles,
}

/// Sorts the arguments of `to:do:` and `downTo:do:`: two integers and a block,
/// or two doubles and a block; anything else is a programming error.
pub fn loop_args(start: AstNaNBoxedVal, end: AstNaNBoxedVal, body: AstNaNBoxedVal) -> (r: LoopArgs)
    requires
        body.is_block_spec(),
        (start.is_integer_spec() && end.is_integer_spec()) || (start.is_double_spec()
            && end.is_double_spec()),
    ensures
        start.is_integer_spec() && end.is_integer_spec() ==> r == LoopArgs::Integers(
            AstNaNBoxedVal::payload_as_i32(start.spec_payload()),
            AstNaNBoxedVal::payload_as_i32(end.spec_payload()),
        ),
        !(start.is_integer_spec() && end.is_integer_spec()) ==> r == LoopArgs::Doubles,
{
    match (start.as_integer(), end.as_integer()) {
        (Some(a), Some(b)) => LoopArgs::Integers(a, b),
        _ => LoopArgs::Doubles,
    }
}

/// `to:do:` on integers: the body block is evaluated with `start`, `start +
/// 1`, ..., `end`, then the loop answers `start`.
#[derive(Clone, Copy, Debug, PartialEq, Eq, Structural)]
pub struct ToDoNode {}

/// The first action of an up-counting loop from `start` to `end`.
pub open spec fn count_up_first(start: i32, end: i32) -> Action {
    if start <= end {
        Action::EvalBodyWith(start)
    } else {
        Action::Return(AstNaNBoxedVal::integer_spec(start))
    }
}

/// The action after the body ran with `current` in an up-counting loop.
pub open spec fn count_up_next(start: i32, end: i32, current: i32, body: Outcome) -> Action {
    if body is Escape {
        Action::Propagate
    } else if current < end {
        Action::EvalBodyWith((current + 1) as i32)
    } else {
        Action::Return(AstNaNBoxedVal::integer_spec(start))
    }
}

impl ToDoNode {
    /// The loop's first action.
    pub fn start(&self, start: i32, end: i32) -> (r: Action)
        ensures
            r == count_up_first(start, end),
    {
        if start <= end {
            Action::EvalBodyWith(start)
        } else {
            Action::Return(AstNaNBoxedVal::new_integer(start))
        }
    }

    /// The action after the body ran with `current`.
    pub fn next(&self, start: i32, end: i32, current: i32, body: Outcome) -> (r: Action)
        ensures
            r == count_up_next(start, end, current, body),
    {
        match body {
            Outcome::Escape => Action::Propagate,
            Outcome::Local(_) => {
                if current < end {
                    Action::EvalBodyWith(current + 1)
                } else {
                    Action::Return(AstNaNBoxedVal::new_integer(start))
                }
            },
        }
    }
}

/// `downTo:do:` on integers: the body block is evaluated with `start`,
/// `start - 1`, ..., `end`, then the loop answers `start`.
#[derive(Clone, Copy, Debug, PartialEq, Eq, Structural)]
pub struct DownToDoNode {}

impl DownToDoNode {
    /// The loop's first action.
    pub fn start(&self, start: i32, end: i32) -> (r: Action)
        ensures
            r == (if start >= end {
                Action::EvalBodyWith(start)
            } else {
                Action::Return(AstNaNBoxedVal::integer_spec(start))
            }),
    {
        if start >= end {
            Action::EvalBodyWith(start)
        } else {
            Action::Return(AstNaNBoxedVal::new_integer(start))
        }
    }

    /// The action after the body ran with `current`; the counter is
    /// decremented before it is compared, so it must not be the smallest
    /// integer.
    pub fn next(&self, start: i32, end: i32, current: i32, body: Outcome) -> (r: Action)
        requires
            body is Local ==> current > i32::MIN,
        ensures
            r == (if body is Escape {
                Action::Propagate
            } else if current - 1 >= end {
                Action::EvalBodyWith((current - 1) as i32)
            } else {
                Action::Return(AstNaNBoxedVal::integer_spec(start))
            }),
    {
        match body {
            Outcome::Escape => Action::Propagate,
            Outcome::Local(_) => {
                let i = current - 1;
                if i >= end {
                    Action::EvalBodyWith(i)
                } else {
                    Action::Return(AstNaNBoxedVal::new_integer(start))
                }
            },
        }
    }
}

/// `to:by:do:` on integers: the body block is evaluated with `start`, `start
/// + step`, ... while the counter is at most `end`, then the loop answers
/// `start`.
#[derive(Clone, Copy, Debug, PartialEq, Eq, Structural)]
pub struct ToByDoNode {}

impl ToByDoNode {
    /// The loop's first action.
    pub fn start(&self, start: i32, end: i32) -> (r: Action)
        ensures
            r == count_up_first(start, end),
    {
        if start <= end {
            Action::EvalBodyWith(start)
        } else {
            Action::Return(AstNaNBoxedVal::new_integer(start))
        }
    }

    /// The action after the body ran with `current`; the step is added before
    /// the counter is compared, so the sum must fit in an `i32`.
    pub fn next(&self, start: i32, end: i32, step: i32, current: i32, body: Outcome) -> (r: Action)
        requires
            body is Local ==> i32::MIN <= current + step <= i32::MAX,
        ensures
            r == (if body is Escape {
                Action::Propagate
            } else if current + step <= end {
                Action::EvalBodyWith((current + step) as i32)
            } else {
                Action::Return(AstNaNBoxedVal::integer_spec(start))
            }),
    {
        match body {
            Outcome::Escape => Action::Propagate,
            Outcome::Local(_) => {
                let i = current + step;
                if i <= end {
                    Action::EvalBodyWith(i)
                } else {
                    Action::Return(AstNaNBoxedVal::new_integer(start))
                }
            },
        }
    }
}

/// A method whose body only answers a literal.
#[derive(Clone, Copy, Debug, PartialEq, Eq, Structural)]
pub struct TrivialLiteralMethod {
    pub literal: AstNaNBoxedVal,
}

impl TrivialLiteralMethod {
    /// The method's answer.
    pub fn invoke(&self) -> (r: AstNaNBoxedVal)
        ensures
            r == self.literal,
    {
        self.literal
    }
}

/// A method whose body only answers a field of the receiver.
#[derive(Clone, Copy, Debug, PartialEq, Eq, Structural)]
pub struct TrivialGetterMethod {
    pub field_idx: u8,
}

impl TrivialGetterMethod {
    /// The method's answer: the field of the receiver, an instance or a
    /// class whose fields are `fields`.
    pub fn invoke(&self, receiver: AstNaNBoxedVal, fields: &Vec<AstNaNBoxedVal>) -> (r: AstNaNBoxedVal)
        requires
            receiver.has_fields(),
            self.field_idx < fields@.len(),
        ensures
            r == fields@[self.field_idx as int],
    {
        receiver.lookup_local(fields, self.field_idx)
    }
}

/// A method whose body only stores its argument into a field of the
/// receiver, and answers the receiver.
#[derive(Clone, Copy, Debug, PartialEq, Eq, Structural)]
pub struct TrivialSetterMethod {
    pub field_idx: u8,
}

impl TrivialSetterMethod {
    /// Stores `value` into the field of the receiver, an instance or a class
    /// whose fields are `fields`, and answers the receiver.
    pub fn invoke(&self, receiver: AstNaNBoxedVal, fields: &mut Vec<AstNaNBoxedVal>, value: AstNaNBoxedVal) -> (r:
        AstNaNBoxedVal)
        requires
            receiver.has_fields(),
            self.field_idx < old(fields)@.len(),
        ensures
            r == receiver,
            final(fields)@ == old(fields)@.update(self.field_idx as int, value),
    {
        let _ = receiver.assign_local(fields, self.field_idx, value);
        receiver
    }
}

/// The action of an up-counting loop once its body ran `k` times, each time
/// locally.
pub open spec fn count_up_run(start: i32, end: i32, k: nat, v: AstNaNBoxedVal) -> Action
    decreases k,
{
    if k == 0 {
        count_up_first(start, end)
    } else {
        match count_up_run(start, end, (k - 1) as nat, v) {
            Action::EvalBodyWith(c) => count_up_next(start, end, c, Outcome::Local(v)),
            other => other,
        }
    }
}

/// `to:do:` evaluates its body with `start`, `start + 1`, ..., `end` in
/// turn, one value per evaluation, and after the last one answers `start`
/// (at once when `start > end`).
pub proof fn lemma_to_do_counts_up(start: i32, end: i32, k: nat, v: AstNaNBoxedVal)
    ensures
        start + k <= end ==> count_up_run(start, end, k, v) == Action::EvalBodyWith((start + k) as i32),
        start + k > end ==> count_up_run(start, end, k, v) == Action::Return(AstNaNBoxedVal::integer_spec(start)),
    decreases k,
{
    if k > 0 {
        lemma_to_do_counts_up(start, end, (k - 1) as nat, v);
    }
}

} // verus!
