use som_interpreter::ast::{AstBlock, AstLiteral, Expression, Heap, Message};
use som_interpreter::bytecode::Bytecode;
use som_interpreter::codegen::{codegen, CompileEnv};
use som_interpreter::compiler::{Literal, MethodGenCtxt};
use som_interpreter::interner::Interner;

fn env() -> CompileEnv {
    CompileEnv { interner: Interner::new(), fields: vec![], heap: Heap::new() }
}

fn send(receiver: Expression, signature: &str, values: Vec<Expression>) -> Expression {
    Expression::Message(Box::new(Message { receiver, signature: String::from(signature), values }))
}

fn block(nbr_params: usize, body: Vec<Expression>) -> Expression {
    Expression::Block(Box::new(AstBlock { nbr_params, nbr_locals: 0, body }))
}

fn lit_int(v: i32) -> Expression {
    Expression::Literal(AstLiteral::Integer(v))
}

fn compile(e: &Expression, env: &mut CompileEnv) -> (Vec<Bytecode>, Vec<Literal>, usize) {
    let mut ctxt = MethodGenCtxt::new(String::from("run"), 0, 1);
    codegen(e, &mut ctxt.inner, env);
    (ctxt.inner.get_instructions().clone(), ctxt.inner.literals_vec(), ctxt.inner.get_nbr_locals())
}

#[test]
fn if_true_jumps_over_the_inlined_block() {
    let mut env = env();
    let e = send(Expression::LocalVarRead(0), "ifTrue:", vec![block(0, vec![lit_int(5)])]);
    let (code, lits, _) = compile(&e, &mut env);
    assert_eq!(code, vec![Bytecode::PushLocal(0), Bytecode::JumpOnFalseTopNil(2), Bytecode::PushConstant(0)]);
    assert_eq!(lits, vec![Literal::Integer(5)]);
}

#[test]
fn if_nil_keeps_the_receiver_when_it_jumps() {
    let mut env = env();
    let e = send(Expression::LocalVarRead(0), "ifNotNil:", vec![block(0, vec![lit_int(0)])]);
    let (code, _, _) = compile(&e, &mut env);
    assert_eq!(code, vec![Bytecode::PushLocal(0), Bytecode::JumpOnNilTopTop(2), Bytecode::Push0]);
}

#[test]
fn if_true_if_false_has_two_branches() {
    let mut env = env();
    let e = send(Expression::LocalVarRead(0), "ifTrue:ifFalse:", vec![block(0, vec![lit_int(1)]), block(0, vec![lit_int(2)])]);
    let (code, lits, _) = compile(&e, &mut env);
    assert_eq!(
        code,
        vec![
            Bytecode::PushLocal(0),
            Bytecode::JumpOnFalsePop(3),
            Bytecode::Push1,
            Bytecode::Jump(2),
            Bytecode::PushConstant(0),
        ]
    );
    assert_eq!(lits, vec![Literal::Integer(2)]);
}

#[test]
fn while_true_inlines_condition_and_body() {
    let mut env = env();
    let cond = block(0, vec![Expression::GlobalRead(String::from("true"))]);
    let e = send(cond, "whileTrue:", vec![block(0, vec![Expression::GlobalRead(String::from("nil"))])]);
    let (code, lits, _) = compile(&e, &mut env);
    assert_eq!(
        code,
        vec![
            Bytecode::PushGlobal(0),
            Bytecode::JumpOnFalsePop(4),
            Bytecode::PushNil,
            Bytecode::Pop,
            Bytecode::JumpBackward(4),
            Bytecode::PushNil,
        ]
    );
    assert_eq!(lits, vec![Literal::Symbol(env.interner.find("true").unwrap())]);
}

#[test]
fn or_answers_true_when_the_receiver_is_true() {
    let mut env = env();
    let e = send(Expression::LocalVarRead(0), "or:", vec![block(0, vec![lit_int(0)])]);
    let (code, lits, _) = compile(&e, &mut env);
    assert_eq!(
        code,
        vec![
            Bytecode::PushLocal(0),
            Bytecode::JumpOnTruePop(3),
            Bytecode::Push0,
            Bytecode::Jump(2),
            Bytecode::PushGlobal(0),
        ]
    );
    assert_eq!(lits, vec![Literal::Symbol(env.interner.find("true").unwrap())]);
}

#[test]
fn and_answers_false_when_the_receiver_is_false() {
    let mut env = env();
    let e = send(Expression::LocalVarRead(0), "&&", vec![block(0, vec![lit_int(0)])]);
    let (code, lits, _) = compile(&e, &mut env);
    assert_eq!(code[1], Bytecode::JumpOnFalsePop(3));
    assert_eq!(lits, vec![Literal::Symbol(env.interner.find("false").unwrap())]);
}

#[test]
fn to_do_keeps_the_counter_in_a_new_local() {
    let mut env = env();
    let body = block(1, vec![Expression::ArgRead(0, 1)]);
    let e = send(lit_int(1), "to:do:", vec![lit_int(10), body]);
    let (code, lits, locals) = compile(&e, &mut env);
    assert_eq!(
        code,
        vec![
            Bytecode::Push1,
            Bytecode::PushConstant(0),
            Bytecode::Dup2,
            Bytecode::JumpIfGreater(7),
            Bytecode::Dup,
            Bytecode::PopLocal(0, 1),
            Bytecode::PushLocal(1),
            Bytecode::Pop,
            Bytecode::Inc,
            Bytecode::JumpBackward(6),
        ]
    );
    assert_eq!(lits, vec![Literal::Integer(10)]);
    assert_eq!(locals, 2);
}

#[test]
fn a_block_nested_in_an_inlined_block_comes_one_scope_closer() {
    let mut env = env();
    let inner = block(0, vec![Expression::NonLocalVarRead(2, 0)]);
    let e = send(Expression::LocalVarRead(0), "ifTrue:", vec![block(0, vec![inner])]);
    let (code, lits, _) = compile(&e, &mut env);
    assert_eq!(code, vec![Bytecode::PushLocal(0), Bytecode::JumpOnFalseTopNil(2), Bytecode::PushBlock(0)]);
    assert_eq!(lits, vec![Literal::Block(0)]);
    assert_eq!(env.heap.blocks[0].body, vec![Bytecode::PushNonLocal(1, 0), Bytecode::ReturnLocal]);
}

#[test]
fn a_message_without_block_arguments_is_sent() {
    let mut env = env();
    let e = send(Expression::LocalVarRead(0), "ifTrue:", vec![Expression::LocalVarRead(1)]);
    let (code, _, _) = compile(&e, &mut env);
    assert_eq!(
        code,
        vec![Bytecode::PushLocal(0), Bytecode::PushLocal(1), Bytecode::Send2(env.interner.find("ifTrue:").unwrap())]
    );
}
