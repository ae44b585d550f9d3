use som_interpreter::bytecode::{get_adjusted_jump_offset, get_forward_jump_offset, get_jump_offset, set_jump_offset, Bytecode};
use som_interpreter::compiler::{BlockGenCtxt, Literal, MethodGenCtxt};
use som_interpreter::interner::Interner;
use som_interpreter::method_compiler::{
    args_nbr, finish_block, finish_method, get_max_stack_size, make_trivial_method_if_possible, nb_params,
    should_add_return_self, CompiledMethod, TrivialKind,
};
use som_interpreter::peephole::remove_dup_popx_pop;
use som_interpreter::value::Interned;

#[test]
fn jump_offsets() {
    assert_eq!(get_jump_offset(&Bytecode::JumpBackward(3)), Some(3));
    assert_eq!(get_forward_jump_offset(&Bytecode::JumpBackward(3)), None);
    assert_eq!(get_forward_jump_offset(&Bytecode::JumpOnNilPop(4)), Some(4));
    assert_eq!(get_adjusted_jump_offset(&Bytecode::JumpOnNilPop(4)), None);
    assert_eq!(get_adjusted_jump_offset(&Bytecode::JumpIfGreater(6)), Some(6));
    assert_eq!(set_jump_offset(Bytecode::JumpOnTruePop(1), 9), Bytecode::JumpOnTruePop(9));
    assert_eq!(set_jump_offset(Bytecode::Pop, 9), Bytecode::Pop);
}

#[test]
fn literal_table_has_no_duplicates() {
    let mut ctxt = BlockGenCtxt::new(0, 1, 2);
    assert_eq!(ctxt.get_scope(), 1);
    assert_eq!(ctxt.push_literal(Literal::Integer(5)), 0);
    assert_eq!(ctxt.push_literal(Literal::Symbol(Interned(3))), 1);
    assert_eq!(ctxt.push_literal(Literal::Integer(5)), 0);
    assert_eq!(ctxt.push_literal(Literal::Integer(-5)), 2);
    assert_eq!(ctxt.literals_vec(), vec![Literal::Integer(5), Literal::Symbol(Interned(3)), Literal::Integer(-5)]);
    assert_eq!(ctxt.get_literal(2), Some(Literal::Integer(-5)));
    assert_eq!(ctxt.get_literal(3), None);
}

#[test]
fn removing_a_literal_shifts_the_rest() {
    let mut ctxt = BlockGenCtxt::new(0, 0, 0);
    ctxt.push_literal(Literal::Double(1.5f64.to_bits()));
    ctxt.push_literal(Literal::Block(0x1000));
    ctxt.push_literal(Literal::String(0x2000));
    assert_eq!(ctxt.remove_literal(0), Some(Literal::Double(1.5f64.to_bits())));
    assert_eq!(ctxt.get_literal(0), Some(Literal::Block(0x1000)));
    assert_eq!(ctxt.remove_literal(7), None);
    assert_eq!(ctxt.literals_vec().len(), 2);
}

#[test]
fn backpatching_lands_on_the_next_instruction() {
    let mut ctxt = BlockGenCtxt::new(0, 0, 0);
    ctxt.push_instr(Bytecode::PushNil);
    let jump = ctxt.get_cur_instr_idx();
    ctxt.push_instr(Bytecode::JumpOnFalseTopNil(0));
    ctxt.push_instr(Bytecode::Push1);
    ctxt.push_instr(Bytecode::Pop);
    ctxt.backpatch_jump_to_current(jump);
    assert_eq!(ctxt.get_instructions()[jump], Bytecode::JumpOnFalseTopNil(3));
    ctxt.pop_instr();
    assert_eq!(ctxt.get_instructions().len(), 3);
}

#[test]
fn peephole_removes_dup_store_pop() {
    let body = vec![Bytecode::Dup, Bytecode::PopLocal(0, 1), Bytecode::Pop, Bytecode::PushLocal(0), Bytecode::ReturnLocal];
    assert_eq!(remove_dup_popx_pop(&body), vec![Bytecode::PopLocal(0, 1), Bytecode::PushLocal(0), Bytecode::ReturnLocal]);
}

#[test]
fn peephole_shortens_jumps_over_removed_code() {
    let body = vec![
        Bytecode::Jump(4),
        Bytecode::Dup,
        Bytecode::PopField(0),
        Bytecode::Pop,
        Bytecode::PushNil,
        Bytecode::ReturnLocal,
    ];
    let out = remove_dup_popx_pop(&body);
    assert_eq!(out, vec![Bytecode::Jump(2), Bytecode::PopField(0), Bytecode::PushNil, Bytecode::ReturnLocal]);
    // the jump still lands on PushNil
    assert_eq!(out[0 + 2], Bytecode::PushNil);
}

#[test]
fn peephole_shortens_backward_jumps() {
    let body = vec![
        Bytecode::PushNil,
        Bytecode::Dup,
        Bytecode::PopArg(0, 1),
        Bytecode::Pop,
        Bytecode::JumpBackward(4),
    ];
    assert_eq!(
        remove_dup_popx_pop(&body),
        vec![Bytecode::PushNil, Bytecode::PopArg(0, 1), Bytecode::JumpBackward(2)],
    );
}

#[test]
fn peephole_keeps_a_sequence_a_jump_lands_in() {
    let body = vec![Bytecode::Jump(1), Bytecode::Dup, Bytecode::PopLocal(0, 0), Bytecode::Pop, Bytecode::ReturnSelf];
    assert_eq!(remove_dup_popx_pop(&body), body);
    let short = vec![Bytecode::Dup, Bytecode::Pop];
    assert_eq!(remove_dup_popx_pop(&short), short);
}

#[test]
fn parameter_counts() {
    assert_eq!(nb_params("foo"), 0);
    assert_eq!(nb_params("at:put:"), 2);
    assert_eq!(nb_params("+"), 1);
    assert_eq!(nb_params("<="), 1);
    assert_eq!(nb_params(""), 0);
    assert_eq!(args_nbr("+"), 2);
    assert_eq!(args_nbr("at:put:"), 2);
    assert_eq!(args_nbr("value"), 0);
    // `#` is not an operator character for the method compiler
    assert_eq!(args_nbr("#"), 0);
}

#[test]
fn max_stack_size_counts_the_deepest_point_plus_one() {
    let interner = Interner::new();
    let body = vec![Bytecode::PushLocal(0), Bytecode::PushArg(1), Bytecode::Send2(Interned(0)), Bytecode::ReturnLocal];
    assert_eq!(get_max_stack_size(&body, &interner), 3);
    assert_eq!(get_max_stack_size(&vec![], &interner), 1);
}

#[test]
fn max_stack_size_with_a_keyword_send() {
    let mut interner = Interner::new();
    let at_put = interner.intern("at:put:");
    let body = vec![Bytecode::PushSelf, Bytecode::Push1, Bytecode::Push0, Bytecode::SendN(at_put), Bytecode::Dup, Bytecode::ReturnLocal];
    // depths 1, 2, 3, 2, 3
    assert_eq!(get_max_stack_size(&body, &interner), 4);
}

#[test]
fn return_self_is_added_only_when_needed() {
    let ends_with_return = vec![Bytecode::PushLocal(0), Bytecode::ReturnLocal, Bytecode::Pop];
    assert!(!should_add_return_self(&ends_with_return, false));
    assert!(should_add_return_self(&ends_with_return, true));
    let jumped_over = vec![Bytecode::JumpOnFalsePop(3), Bytecode::PushNil, Bytecode::ReturnLocal, Bytecode::Pop];
    assert!(should_add_return_self(&jumped_over, false));
    let no_return = vec![Bytecode::PushNil, Bytecode::Pop];
    assert!(should_add_return_self(&no_return, false));
}

#[test]
fn trivial_methods() {
    let no_lits: Vec<Literal> = vec![];
    assert_eq!(
        make_trivial_method_if_possible(&vec![Bytecode::PushField(2), Bytecode::ReturnLocal], &no_lits, 0),
        Some(TrivialKind::Getter(2)),
    );
    assert_eq!(make_trivial_method_if_possible(&vec![Bytecode::PushField(2), Bytecode::ReturnLocal], &no_lits, 1), None);
    assert_eq!(
        make_trivial_method_if_possible(&vec![Bytecode::PushArg(1), Bytecode::PopField(4), Bytecode::ReturnSelf], &no_lits, 1),
        Some(TrivialKind::Setter(4)),
    );
    assert_eq!(
        make_trivial_method_if_possible(&vec![Bytecode::PushGlobal(0), Bytecode::ReturnLocal], &vec![Literal::Symbol(Interned(7))], 0),
        Some(TrivialKind::Global(Interned(7))),
    );
    assert_eq!(
        make_trivial_method_if_possible(&vec![Bytecode::PushGlobal(0), Bytecode::ReturnLocal], &vec![Literal::Integer(7)], 0),
        None,
    );
    assert_eq!(
        make_trivial_method_if_possible(&vec![Bytecode::PushConstant(0), Bytecode::ReturnLocal], &vec![Literal::Integer(42)], 0),
        Some(TrivialKind::Literal(Literal::Integer(42))),
    );
    assert_eq!(
        make_trivial_method_if_possible(&vec![Bytecode::Push1, Bytecode::ReturnLocal], &no_lits, 0),
        Some(TrivialKind::Literal(Literal::Integer(1))),
    );
    assert_eq!(make_trivial_method_if_possible(&vec![Bytecode::PushConstant(3), Bytecode::ReturnLocal], &no_lits, 0), None);
}

#[test]
fn finishing_a_getter_method() {
    let interner = Interner::new();
    let mut ctxt = MethodGenCtxt::new("x".to_string(), 0, 0);
    ctxt.push_instr(Bytecode::PushField(0));
    ctxt.push_instr(Bytecode::ReturnLocal);
    ctxt.push_instr(Bytecode::Pop);
    match finish_method(&mut ctxt, false, &interner) {
        CompiledMethod::Trivial(k) => assert_eq!(k, TrivialKind::Getter(0)),
        CompiledMethod::Defined(_) | CompiledMethod::Primitive => panic!("expected a trivial getter"),
    }
    assert_eq!(ctxt.get_instructions(), &vec![Bytecode::PushField(0), Bytecode::ReturnLocal]);
}

#[test]
fn finishing_an_empty_method() {
    let interner = Interner::new();
    let mut ctxt = MethodGenCtxt::new("run:".to_string(), 1, 2);
    match finish_method(&mut ctxt, true, &interner) {
        CompiledMethod::Defined(m) => {
            assert_eq!(m.body, vec![Bytecode::ReturnSelf]);
            assert_eq!(m.max_stack_size, 1);
            assert_eq!(m.nbr_params, 1);
            assert_eq!(m.nbr_locals, 2);
        },
        CompiledMethod::Trivial(_) | CompiledMethod::Primitive => panic!("expected a bytecode method"),
    }
}

#[test]
fn finishing_a_method_with_a_store() {
    let interner = Interner::new();
    let mut ctxt = MethodGenCtxt::new("m".to_string(), 0, 1);
    // x := 1. ^x
    ctxt.push_instr(Bytecode::Push1);
    ctxt.push_instr(Bytecode::Dup);
    ctxt.push_instr(Bytecode::PopLocal(0, 0));
    ctxt.push_instr(Bytecode::Pop);
    ctxt.push_instr(Bytecode::PushLocal(0));
    ctxt.push_instr(Bytecode::ReturnLocal);
    ctxt.push_instr(Bytecode::Pop);
    match finish_method(&mut ctxt, false, &interner) {
        CompiledMethod::Defined(m) => {
            assert_eq!(m.body, vec![Bytecode::Push1, Bytecode::PopLocal(0, 0), Bytecode::PushLocal(0), Bytecode::ReturnLocal]);
            assert_eq!(m.max_stack_size, 2);
        },
        CompiledMethod::Trivial(_) | CompiledMethod::Primitive => panic!("expected a bytecode method"),
    }
}

#[test]
fn finishing_an_empty_block_answers_nil() {
    let interner = Interner::new();
    let mut ctxt = BlockGenCtxt::new(0, 1, 0);
    let info = finish_block(&mut ctxt, &interner);
    assert_eq!(info.body, vec![Bytecode::PushNil, Bytecode::ReturnLocal]);
    assert_eq!(info.max_stack_size, 2);
    assert_eq!(info.nbr_params, 1);
}
