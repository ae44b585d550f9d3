use som_interpreter::ast::{AstBlock, AstLiteral, Expression, Heap, Message, MethodBody, MethodDef};
use som_interpreter::bigint::BigInteger;
use som_interpreter::bytecode::Bytecode;
use som_interpreter::codegen::{codegen, compile_method, CompileEnv};
use som_interpreter::compiler::{Literal, MethodGenCtxt};
use som_interpreter::interner::Interner;
use som_interpreter::method_compiler::{CompiledMethod, TrivialKind};
use som_interpreter::value::Interned;

fn env_with_fields(fields: &[&str]) -> CompileEnv {
    let mut interner = Interner::new();
    let ids: Vec<Interned> = fields.iter().map(|f| interner.intern(f)).collect();
    CompileEnv { interner, fields: ids, heap: Heap::new() }
}

fn method_ctxt() -> MethodGenCtxt {
    MethodGenCtxt::new(String::from("run"), 0, 1)
}

fn send(receiver: Expression, signature: &str, values: Vec<Expression>) -> Expression {
    Expression::Message(Box::new(Message { receiver, signature: String::from(signature), values }))
}

fn compile_expr(e: &Expression, env: &mut CompileEnv) -> (Vec<Bytecode>, Vec<Literal>) {
    let mut ctxt = method_ctxt();
    codegen(e, &mut ctxt.inner, env);
    (ctxt.inner.get_instructions().clone(), ctxt.inner.literals_vec())
}

#[test]
fn codegen_keyword_send() {
    let mut env = env_with_fields(&[]);
    let e = send(Expression::ArgRead(0, 0), "at:put:", vec![Expression::LocalVarRead(0), Expression::ArgRead(0, 1)]);
    let (code, lits) = compile_expr(&e, &mut env);
    let sym = env.interner.find("at:put:").unwrap();
    assert_eq!(code, vec![Bytecode::PushSelf, Bytecode::PushLocal(0), Bytecode::PushArg(1), Bytecode::Send3(sym)]);
    assert!(lits.is_empty());
}

#[test]
fn codegen_unary_binary_and_nary_sends() {
    let mut env = env_with_fields(&[]);
    let (code, _) = compile_expr(&send(Expression::ArgRead(0, 0), "size", vec![]), &mut env);
    assert_eq!(code, vec![Bytecode::PushSelf, Bytecode::Send1(env.interner.find("size").unwrap())]);
    let (code, _) = compile_expr(&send(Expression::ArgRead(0, 0), "<", vec![Expression::LocalVarRead(0)]), &mut env);
    assert_eq!(code, vec![Bytecode::PushSelf, Bytecode::PushLocal(0), Bytecode::Send2(env.interner.find("<").unwrap())]);
    let args = vec![Expression::LocalVarRead(0), Expression::LocalVarRead(1), Expression::LocalVarRead(2)];
    let (code, _) = compile_expr(&send(Expression::ArgRead(0, 0), "a:b:c:", args), &mut env);
    assert_eq!(code[4], Bytecode::SendN(env.interner.find("a:b:c:").unwrap()));
}

#[test]
fn codegen_increment_and_decrement_by_one() {
    let mut env = env_with_fields(&[]);
    let plus_one = send(Expression::LocalVarRead(0), "+", vec![Expression::Literal(AstLiteral::Integer(1))]);
    assert_eq!(compile_expr(&plus_one, &mut env).0, vec![Bytecode::PushLocal(0), Bytecode::Inc]);
    let minus_one = send(Expression::LocalVarRead(0), "-", vec![Expression::Literal(AstLiteral::Integer(1))]);
    assert_eq!(compile_expr(&minus_one, &mut env).0, vec![Bytecode::PushLocal(0), Bytecode::Dec]);
    let plus_two = send(Expression::LocalVarRead(0), "+", vec![Expression::Literal(AstLiteral::Integer(2))]);
    let (code, lits) = compile_expr(&plus_two, &mut env);
    assert_eq!(code, vec![Bytecode::PushLocal(0), Bytecode::PushConstant(0), Bytecode::Send2(env.interner.find("+").unwrap())]);
    assert_eq!(lits, vec![Literal::Integer(2)]);
}

#[test]
fn codegen_super_send() {
    let mut env = env_with_fields(&[]);
    let e = send(Expression::GlobalRead(String::from("super")), "+", vec![Expression::Literal(AstLiteral::Integer(1))]);
    let (code, _) = compile_expr(&e, &mut env);
    assert_eq!(code, vec![Bytecode::PushSelf, Bytecode::Push1, Bytecode::SuperSend(env.interner.find("+").unwrap())]);
}

#[test]
fn codegen_globals_fields_and_nil() {
    let mut env = env_with_fields(&["x", "count"]);
    assert_eq!(compile_expr(&Expression::GlobalRead(String::from("count")), &mut env).0, vec![Bytecode::PushField(1)]);
    assert_eq!(compile_expr(&Expression::GlobalRead(String::from("nil")), &mut env).0, vec![Bytecode::PushNil]);
    let (code, lits) = compile_expr(&Expression::GlobalRead(String::from("Transcript")), &mut env);
    assert_eq!(code, vec![Bytecode::PushGlobal(0)]);
    assert_eq!(lits, vec![Literal::Symbol(env.interner.find("Transcript").unwrap())]);
}

#[test]
fn codegen_assignments_duplicate_then_store() {
    let mut env = env_with_fields(&["count"]);
    let e = Expression::GlobalWrite(String::from("count"), Box::new(Expression::Literal(AstLiteral::Integer(0))));
    assert_eq!(compile_expr(&e, &mut env).0, vec![Bytecode::Push0, Bytecode::Dup, Bytecode::PopField(0)]);
    let e = Expression::NonLocalVarWrite(2, 3, Box::new(Expression::LocalVarRead(0)));
    assert_eq!(compile_expr(&e, &mut env).0, vec![Bytecode::PushLocal(0), Bytecode::Dup, Bytecode::PopLocal(2, 3)]);
    let e = Expression::ArgWrite(1, 2, Box::new(Expression::ArgRead(1, 0)));
    assert_eq!(compile_expr(&e, &mut env).0, vec![Bytecode::PushNonLocalArg(1, 0), Bytecode::Dup, Bytecode::PopArg(1, 2)]);
}

#[test]
fn codegen_returns() {
    let mut env = env_with_fields(&[]);
    let e = Expression::Exit(Box::new(Expression::ArgRead(0, 0)), 0);
    assert_eq!(compile_expr(&e, &mut env).0, vec![Bytecode::ReturnSelf]);
    let e = Expression::Exit(Box::new(Expression::LocalVarRead(0)), 0);
    assert_eq!(compile_expr(&e, &mut env).0, vec![Bytecode::PushLocal(0), Bytecode::ReturnLocal]);
    let e = Expression::Exit(Box::new(Expression::ArgRead(0, 0)), 2);
    assert_eq!(compile_expr(&e, &mut env).0, vec![Bytecode::PushSelf, Bytecode::ReturnNonLocal(2)]);
}

#[test]
fn codegen_reuses_an_equal_string_literal() {
    let mut env = env_with_fields(&[]);
    let mut ctxt = method_ctxt();
    codegen(&Expression::Literal(AstLiteral::String(String::from("hello"))), &mut ctxt.inner, &mut env);
    codegen(&Expression::Literal(AstLiteral::String(String::from("hello"))), &mut ctxt.inner, &mut env);
    codegen(&Expression::Literal(AstLiteral::String(String::from("bye"))), &mut ctxt.inner, &mut env);
    assert_eq!(
        ctxt.inner.get_instructions().clone(),
        vec![Bytecode::PushConstant(0), Bytecode::PushConstant(0), Bytecode::PushConstant(1)]
    );
    assert_eq!(ctxt.inner.literals_vec(), vec![Literal::String(0), Literal::String(1)]);
    assert_eq!(env.heap.strings, vec![String::from("hello"), String::from("bye")]);
}

#[test]
fn codegen_unboxes_a_big_integer_that_fits() {
    let mut env = env_with_fields(&[]);
    // -2147483648 in little-endian two's complement
    let min = BigInteger { bytes: vec![0, 0, 0, 0x80] };
    let (code, lits) = compile_expr(&Expression::Literal(AstLiteral::BigInteger(min)), &mut env);
    assert_eq!(code, vec![Bytecode::PushConstant(0)]);
    assert_eq!(lits, vec![Literal::Integer(i32::MIN)]);
    assert!(env.heap.big_integers.is_empty());
    // 2^32 does not fit
    let big = BigInteger { bytes: vec![0, 0, 0, 0, 1] };
    let (_, lits) = compile_expr(&Expression::Literal(AstLiteral::BigInteger(big)), &mut env);
    assert_eq!(lits, vec![Literal::BigInteger(0)]);
    assert_eq!(env.heap.big_integers[0].bytes, vec![0, 0, 0, 0, 1]);
}

#[test]
fn codegen_array_literal() {
    let mut env = env_with_fields(&[]);
    let arr = AstLiteral::Array(vec![AstLiteral::Integer(3), AstLiteral::Symbol(String::from("foo"))]);
    let (code, lits) = compile_expr(&Expression::Literal(arr), &mut env);
    assert_eq!(code, vec![Bytecode::PushConstant(0)]);
    assert_eq!(lits, vec![Literal::Array(0)]);
    assert_eq!(env.heap.arrays[0], vec![Literal::Integer(3), Literal::Symbol(env.interner.find("foo").unwrap())]);
}

#[test]
fn codegen_block() {
    let mut env = env_with_fields(&[]);
    let blk = AstBlock {
        nbr_params: 1,
        nbr_locals: 0,
        body: vec![
            Expression::GlobalRead(String::from("super")),
            Expression::Literal(AstLiteral::Integer(5)),
        ],
    };
    let (code, lits) = compile_expr(&Expression::Block(Box::new(blk)), &mut env);
    assert_eq!(code, vec![Bytecode::PushBlock(0)]);
    assert_eq!(lits, vec![Literal::Block(0)]);
    let b = &env.heap.blocks[0];
    assert_eq!(
        b.body,
        vec![Bytecode::PushNonLocalArg(1, 0), Bytecode::Pop, Bytecode::PushConstant(0), Bytecode::ReturnLocal]
    );
    assert_eq!(b.literals, vec![Literal::Integer(5)]);
    assert_eq!(b.nbr_params, 1);
    assert_eq!(b.max_stack_size, 2);
}

#[test]
fn codegen_empty_block_answers_nil() {
    let mut env = env_with_fields(&[]);
    let blk = AstBlock { nbr_params: 0, nbr_locals: 0, body: vec![] };
    compile_expr(&Expression::Block(Box::new(blk)), &mut env);
    assert_eq!(env.heap.blocks[0].body, vec![Bytecode::PushNil, Bytecode::ReturnLocal]);
}

#[test]
fn compile_method_getter_is_trivial() {
    let mut env = env_with_fields(&["a", "value"]);
    let def = MethodDef {
        signature: String::from("value"),
        body: MethodBody::Body {
            locals_nbr: 0,
            exprs: vec![Expression::Exit(Box::new(Expression::GlobalRead(String::from("value"))), 0)],
        },
    };
    let m = compile_method(&def, &mut env);
    assert_eq!(m.signature, "value");
    assert!(m.holder.is_none());
    match m.kind {
        CompiledMethod::Trivial(k) => assert_eq!(k, TrivialKind::Getter(1)),
        _ => panic!("expected a trivial getter"),
    }
}

#[test]
fn compile_method_with_statements() {
    let mut env = env_with_fields(&[]);
    let def = MethodDef {
        signature: String::from("run:"),
        body: MethodBody::Body {
            locals_nbr: 1,
            exprs: vec![
                Expression::LocalVarWrite(0, Box::new(Expression::ArgRead(0, 1))),
                send(Expression::LocalVarRead(0), "print", vec![]),
            ],
        },
    };
    let method = compile_method(&def, &mut env);
    assert_eq!(method.signature, "run:");
    match method.kind {
        CompiledMethod::Defined(m) => {
            let print = env.interner.find("print").unwrap();
            assert_eq!(
                m.body,
                vec![
                    Bytecode::PushArg(1),
                    Bytecode::PopLocal(0, 0),
                    Bytecode::PushLocal(0),
                    Bytecode::Send1(print),
                    Bytecode::Pop,
                    Bytecode::ReturnSelf,
                ]
            );
            assert_eq!(m.nbr_locals, 1);
            assert_eq!(m.nbr_params, 1);
        },
        _ => panic!("expected a bytecode method"),
    }
}

#[test]
fn compile_method_primitive() {
    let mut env = env_with_fields(&[]);
    let def = MethodDef { signature: String::from("hashcode"), body: MethodBody::Primitive };
    let m = compile_method(&def, &mut env);
    assert!(matches!(m.kind, CompiledMethod::Primitive));
    assert_eq!(m.signature, "hashcode");
    assert_eq!(env.interner.len(), 0);
}

#[test]
fn compile_method_answering_a_literal_keeps_its_signature() {
    let mut env = env_with_fields(&[]);
    let def = MethodDef {
        signature: String::from("answer"),
        body: MethodBody::Body {
            locals_nbr: 0,
            exprs: vec![Expression::Exit(Box::new(Expression::Literal(AstLiteral::Integer(42))), 0)],
        },
    };
    let m = compile_method(&def, &mut env);
    assert_eq!(m.signature, "answer");
    assert!(m.holder.is_none());
    assert!(matches!(m.kind, CompiledMethod::Trivial(TrivialKind::Literal(Literal::Integer(42)))));
}
