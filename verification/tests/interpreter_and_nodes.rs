use som_interpreter::bytecode::Bytecode;
use som_interpreter::interner::Interner;
use som_interpreter::interpreter::{Effect, FrameState};
use som_interpreter::specialized::{
    loop_args, Action, DownToDoNode, IfInlinedNode, IfNode, IfTrueIfFalseNode, LoopArgs, OrInlinedNode, Outcome,
    ToByDoNode, ToDoNode, TrivialGetterMethod, TrivialLiteralMethod, TrivialSetterMethod, WhileInlinedNode, WhileNode,
};
use som_interpreter::value::{AstNaNBoxedVal, Interned};

fn small(v: i32) -> AstNaNBoxedVal {
    AstNaNBoxedVal::new_integer(v)
}

fn run(frame: &mut FrameState, body: &Vec<Bytecode>, interner: &Interner) -> Effect {
    frame.step(body, interner)
}

#[test]
fn stack_instructions() {
    let interner = Interner::new();
    let body = vec![Bytecode::Push1, Bytecode::Dup, Bytecode::Inc, Bytecode::Dup2, Bytecode::Pop, Bytecode::PushNil, Bytecode::Dec];
    let mut frame = FrameState { stack: vec![], bytecode_idx: 0 };
    for _ in 0..5 {
        assert_eq!(run(&mut frame, &body, &interner), Effect::Next);
    }
    assert_eq!(frame.stack, vec![small(1), small(2)]);
    assert_eq!(frame.bytecode_idx, 5);
    assert_eq!(run(&mut frame, &body, &interner), Effect::Next);
    assert_eq!(frame.stack.last(), Some(&AstNaNBoxedVal::nil()));
    // decrementing nil is left to the interpreter loop
    assert_eq!(run(&mut frame, &body, &interner), Effect::IncrementOther(false));
}

#[test]
fn jump_if_greater_on_integers() {
    let interner = Interner::new();
    let body = vec![Bytecode::Push0, Bytecode::Push1, Bytecode::JumpIfGreater(3), Bytecode::PushNil, Bytecode::PushNil, Bytecode::ReturnSelf];
    let mut frame = FrameState { stack: vec![], bytecode_idx: 0 };
    run(&mut frame, &body, &interner);
    run(&mut frame, &body, &interner);
    assert_eq!(run(&mut frame, &body, &interner), Effect::Next);
    assert!(frame.stack.is_empty());
    assert_eq!(frame.bytecode_idx, 5);
    assert_eq!(run(&mut frame, &body, &interner), Effect::ReturnSelf);
}

#[test]
fn jump_if_greater_not_taken() {
    let interner = Interner::new();
    let body = vec![Bytecode::JumpIfGreater(3)];
    let mut frame = FrameState { stack: vec![small(5), small(1)], bytecode_idx: 0 };
    assert_eq!(run(&mut frame, &body, &interner), Effect::Next);
    assert_eq!(frame.stack, vec![small(5), small(1)]);
    assert_eq!(frame.bytecode_idx, 1);
    let mut other = FrameState { stack: vec![small(5), AstNaNBoxedVal::nil()], bytecode_idx: 0 };
    assert_eq!(run(&mut other, &body, &interner), Effect::CompareOther(3));
    other.finish_jump_if_greater(3, true);
    assert!(other.stack.is_empty());
    assert_eq!(other.bytecode_idx, 3);
}

#[test]
fn boolean_jumps() {
    let interner = Interner::new();
    let body = vec![Bytecode::JumpOnTrueTopNil(4), Bytecode::JumpOnFalsePop(2)];
    let mut frame = FrameState { stack: vec![AstNaNBoxedVal::new_boolean(true)], bytecode_idx: 0 };
    run(&mut frame, &body, &interner);
    assert_eq!(frame.stack, vec![AstNaNBoxedVal::nil()]);
    assert_eq!(frame.bytecode_idx, 4);
    let mut frame = FrameState { stack: vec![AstNaNBoxedVal::new_boolean(false)], bytecode_idx: 0 };
    run(&mut frame, &body, &interner);
    assert!(frame.stack.is_empty());
    assert_eq!(frame.bytecode_idx, 1);
    frame.stack.push(AstNaNBoxedVal::new_boolean(false));
    run(&mut frame, &body, &interner);
    assert!(frame.stack.is_empty());
    assert_eq!(frame.bytecode_idx, 3);
}

#[test]
fn nil_jumps_and_backward_jump() {
    let interner = Interner::new();
    let body = vec![Bytecode::JumpOnNilTopTop(3), Bytecode::JumpOnNotNilPop(2), Bytecode::Pop, Bytecode::JumpBackward(2)];
    let mut frame = FrameState { stack: vec![small(1)], bytecode_idx: 0 };
    run(&mut frame, &body, &interner);
    assert!(frame.stack.is_empty());
    assert_eq!(frame.bytecode_idx, 1);
    let mut frame = FrameState { stack: vec![AstNaNBoxedVal::nil()], bytecode_idx: 0 };
    run(&mut frame, &body, &interner);
    assert_eq!(frame.stack, vec![AstNaNBoxedVal::nil()]);
    assert_eq!(frame.bytecode_idx, 3);
    run(&mut frame, &body, &interner);
    assert_eq!(frame.bytecode_idx, 1);
}

#[test]
fn variable_access_and_sends_are_left_to_the_loop() {
    let mut interner = Interner::new();
    let sym = interner.intern("at:put:");
    let body = vec![
        Bytecode::PushNonLocal(2, 1),
        Bytecode::PushSelf,
        Bytecode::PopField(3),
        Bytecode::SendN(sym),
        Bytecode::Send2(Interned(0)),
        Bytecode::ReturnNonLocal(1),
    ];
    let mut frame = FrameState { stack: vec![small(7), small(8)], bytecode_idx: 0 };
    assert_eq!(run(&mut frame, &body, &interner), Effect::PushLocal(2, 1));
    assert_eq!(run(&mut frame, &body, &interner), Effect::PushArg(0, 0));
    assert_eq!(run(&mut frame, &body, &interner), Effect::StoreField(3, small(8)));
    assert_eq!(run(&mut frame, &body, &interner), Effect::Send(sym, 2));
    assert_eq!(run(&mut frame, &body, &interner), Effect::Send(Interned(0), 1));
    assert_eq!(run(&mut frame, &body, &interner), Effect::ReturnNonLocal(1, small(7)));
    assert!(frame.stack.is_empty());
}

#[test]
fn if_nodes() {
    let block = AstNaNBoxedVal::Block(0x100);
    let node = IfNode { expected_bool: true };
    assert_eq!(node.invoke(AstNaNBoxedVal::new_boolean(true), block), Action::TailBlock(block));
    assert_eq!(node.invoke(AstNaNBoxedVal::new_boolean(false), block), Action::Return(AstNaNBoxedVal::nil()));
    let node = IfTrueIfFalseNode {};
    assert_eq!(node.invoke(AstNaNBoxedVal::new_boolean(false), block, small(3)), Action::Return(small(3)));
    assert_eq!(node.invoke(AstNaNBoxedVal::new_boolean(true), block, small(3)), Action::TailBlock(block));
}

#[test]
fn while_nodes() {
    let node = WhileNode { expected_bool: false };
    assert_eq!(node.start(), Action::EvalCondition);
    assert_eq!(node.after_condition(Outcome::Local(AstNaNBoxedVal::new_boolean(false))), Action::EvalBody);
    assert_eq!(node.after_condition(Outcome::Local(AstNaNBoxedVal::new_boolean(true))), Action::Return(AstNaNBoxedVal::nil()));
    assert_eq!(node.after_body(Outcome::Local(small(1))), Action::EvalCondition);
    assert_eq!(node.after_body(Outcome::Escape), Action::Propagate);
    let inlined = WhileInlinedNode { expected_bool: true };
    assert_eq!(inlined.after_condition(Outcome::Escape), Action::Propagate);
    assert_eq!(inlined.after_condition(Outcome::Local(AstNaNBoxedVal::new_boolean(true))), Action::EvalBody);
    assert_eq!(inlined.after_body(Outcome::Local(small(1))), Action::EvalCondition);
}

#[test]
fn inlined_if_and_or_nodes() {
    let node = IfInlinedNode { expected_bool: false };
    assert_eq!(node.start(), Action::EvalCondition);
    assert_eq!(node.after_condition(Outcome::Local(AstNaNBoxedVal::new_boolean(false))), Action::TailBody);
    assert_eq!(node.after_condition(Outcome::Local(AstNaNBoxedVal::new_boolean(true))), Action::Return(AstNaNBoxedVal::nil()));
    let or = OrInlinedNode {};
    let t = AstNaNBoxedVal::new_boolean(true);
    assert_eq!(or.after_first(Outcome::Local(t)), Action::Return(t));
    assert_eq!(or.after_first(Outcome::Local(AstNaNBoxedVal::new_boolean(false))), Action::TailBody);
    assert_eq!(or.after_first(Outcome::Escape), Action::Propagate);
}

#[test]
fn counting_loops() {
    let v = AstNaNBoxedVal::nil();
    let to_do = ToDoNode {};
    assert_eq!(to_do.start(1, 3), Action::EvalBodyWith(1));
    assert_eq!(to_do.next(1, 3, 1, Outcome::Local(v)), Action::EvalBodyWith(2));
    assert_eq!(to_do.next(1, 3, 3, Outcome::Local(v)), Action::Return(small(1)));
    assert_eq!(to_do.next(1, 3, 2, Outcome::Escape), Action::Propagate);
    assert_eq!(to_do.start(4, 3), Action::Return(small(4)));
    assert_eq!(to_do.next(i32::MAX - 1, i32::MAX, i32::MAX, Outcome::Local(v)), Action::Return(small(i32::MAX - 1)));
    let down = DownToDoNode {};
    assert_eq!(down.start(3, 1), Action::EvalBodyWith(3));
    assert_eq!(down.next(3, 1, 2, Outcome::Local(v)), Action::EvalBodyWith(1));
    assert_eq!(down.next(3, 1, 1, Outcome::Local(v)), Action::Return(small(3)));
    let by = ToByDoNode {};
    assert_eq!(by.start(1, 10), Action::EvalBodyWith(1));
    assert_eq!(by.next(1, 10, 4, 5, Outcome::Local(v)), Action::EvalBodyWith(9));
    assert_eq!(by.next(1, 10, 4, 9, Outcome::Local(v)), Action::Return(small(1)));
}

#[test]
fn loop_arguments() {
    let block = AstNaNBoxedVal::Block(0x100);
    assert_eq!(loop_args(small(1), small(5), block), LoopArgs::Integers(1, 5));
    let d = AstNaNBoxedVal { encoded: 1.5f64.to_bits() };
    assert_eq!(loop_args(d, d, block), LoopArgs::Doubles);
}

#[test]
fn trivial_method_nodes() {
    let lit = TrivialLiteralMethod { literal: small(42) };
    assert_eq!(lit.invoke(), small(42));
    let receiver = AstNaNBoxedVal::Instance(0x200);
    let mut fields = vec![small(1), small(2), small(3)];
    let getter = TrivialGetterMethod { field_idx: 1 };
    assert_eq!(getter.invoke(receiver, &fields), small(2));
    let setter = TrivialSetterMethod { field_idx: 2 };
    assert_eq!(setter.invoke(receiver, &mut fields, small(9)), receiver);
    assert_eq!(fields, vec![small(1), small(2), small(9)]);
}
