use som_interpreter::bytecode::Bytecode;
use som_interpreter::compiler::{BlockGenCtxt, Literal, MethodInfo};
use som_interpreter::inliner::{
    adapt_block_after_outer_inlined, begin_conditional, begin_or_and, begin_to_do, end_or_and, end_to_do, end_while,
    inline_compiled_block, inline_kind, middle_of_conditional, take_last_push_block, InlineKind, JumpType, OrAndChoice,
};
use som_interpreter::interner::Interner;

fn block(body: Vec<Bytecode>, literals: Vec<Literal>, nbr_locals: usize, nbr_params: usize) -> MethodInfo {
    MethodInfo { body, literals, nbr_locals, nbr_params, max_stack_size: 0 }
}

#[test]
fn selectors_that_are_inlined() {
    assert_eq!(inline_kind("ifTrue:"), Some(InlineKind::IfTrueOrIfFalse(JumpType::JumpOnFalse)));
    assert_eq!(inline_kind("ifFalse:ifTrue:"), Some(InlineKind::IfTrueIfFalse(JumpType::JumpOnTrue)));
    assert_eq!(inline_kind("whileFalse:"), Some(InlineKind::While(JumpType::JumpOnTrue)));
    assert_eq!(inline_kind("||"), Some(InlineKind::OrAnd(OrAndChoice::Or)));
    assert_eq!(inline_kind("and:"), Some(InlineKind::OrAnd(OrAndChoice::And)));
    assert_eq!(inline_kind("to:do:"), Some(InlineKind::ToDo));
    assert_eq!(inline_kind("ifNotNil:ifNil:"), Some(InlineKind::IfNilIfNotNil(JumpType::JumpOnTrue)));
    assert_eq!(inline_kind("timesRepeat:"), None);
}

#[test]
fn inlining_moves_arguments_and_locals_into_the_context() {
    let mut ctxt = BlockGenCtxt::new(0, 0, 2);
    ctxt.push_literal(Literal::Integer(7));
    let blk = block(
        vec![Bytecode::PushArg(1), Bytecode::PushLocal(0), Bytecode::PushConstant(0), Bytecode::Pop, Bytecode::Pop, Bytecode::ReturnLocal],
        vec![Literal::Integer(9)],
        1,
        1,
    );
    assert_eq!(inline_compiled_block(&mut ctxt, &blk), Some(vec![]));
    assert_eq!(
        ctxt.get_instructions(),
        &vec![Bytecode::PushLocal(2), Bytecode::PushLocal(3), Bytecode::PushConstant(1), Bytecode::Pop, Bytecode::Pop],
    );
    assert_eq!(ctxt.get_nbr_locals(), 4);
    assert_eq!(ctxt.literals_vec(), vec![Literal::Integer(7), Literal::Integer(9)]);
}

#[test]
fn inlining_brings_outer_references_one_scope_closer() {
    let mut ctxt = BlockGenCtxt::new(0, 0, 0);
    let blk = block(
        vec![
            Bytecode::PushNonLocal(1, 3),
            Bytecode::PushNonLocal(2, 3),
            Bytecode::PushNonLocalArg(1, 0),
            Bytecode::PushNonLocalArg(1, 2),
            Bytecode::PopLocal(1, 5),
            Bytecode::ReturnNonLocal(1),
            Bytecode::ReturnNonLocal(3),
            Bytecode::ReturnLocal,
        ],
        vec![],
        0,
        0,
    );
    assert_eq!(inline_compiled_block(&mut ctxt, &blk), Some(vec![]));
    assert_eq!(
        ctxt.get_instructions(),
        &vec![
            Bytecode::PushLocal(3),
            Bytecode::PushNonLocal(1, 3),
            Bytecode::PushSelf,
            Bytecode::PushArg(2),
            Bytecode::PopLocal(0, 5),
            Bytecode::ReturnLocal,
            Bytecode::ReturnNonLocal(2),
        ],
    );
}

#[test]
fn inlining_reports_nested_blocks_and_missing_literals() {
    let mut ctxt = BlockGenCtxt::new(0, 0, 0);
    let blk = block(vec![Bytecode::PushBlock(0), Bytecode::ReturnLocal], vec![Literal::Block(0x2000)], 0, 0);
    assert_eq!(inline_compiled_block(&mut ctxt, &blk), Some(vec![0x2000]));
    assert_eq!(ctxt.get_instructions(), &vec![Bytecode::PushBlock(0)]);
    let missing = block(vec![Bytecode::PushConstant(5), Bytecode::ReturnLocal], vec![], 0, 0);
    let mut ctxt2 = BlockGenCtxt::new(0, 0, 0);
    assert_eq!(inline_compiled_block(&mut ctxt2, &missing), None);
}

#[test]
fn adapting_a_nested_block() {
    let interner = Interner::new();
    let mut blk = block(
        vec![
            Bytecode::PushNonLocal(2, 0),
            Bytecode::PushNonLocalArg(2, 0),
            Bytecode::PushNonLocalArg(3, 4),
            Bytecode::PushNonLocal(1, 1),
            Bytecode::Pop,
            Bytecode::Pop,
            Bytecode::Pop,
            Bytecode::ReturnNonLocal(2),
        ],
        vec![],
        0,
        0,
    );
    let nested = adapt_block_after_outer_inlined(&mut blk, 1, &interner);
    assert_eq!(nested, Vec::<u64>::new());
    assert_eq!(
        blk.body,
        vec![
            Bytecode::PushNonLocal(1, 0),
            Bytecode::PushNonLocalArg(1, 0),
            Bytecode::PushNonLocalArg(2, 4),
            Bytecode::PushNonLocal(1, 1),
            Bytecode::Pop,
            Bytecode::Pop,
            Bytecode::Pop,
            Bytecode::ReturnNonLocal(1),
        ],
    );
    assert_eq!(blk.max_stack_size, 5);
}

#[test]
fn adapting_gives_back_the_blocks_to_adapt_next() {
    let interner = Interner::new();
    let mut blk = block(
        vec![Bytecode::PushNonLocalArg(1, 0), Bytecode::PushBlock(1), Bytecode::ReturnLocal],
        vec![Literal::Integer(0), Literal::Block(0x3000)],
        0,
        0,
    );
    assert_eq!(adapt_block_after_outer_inlined(&mut blk, 0, &interner), vec![0x3000]);
    assert_eq!(blk.body, vec![Bytecode::PushSelf, Bytecode::PushBlock(1), Bytecode::ReturnLocal]);
}

#[test]
fn two_branch_conditional_layout() {
    let mut ctxt = BlockGenCtxt::new(0, 0, 0);
    ctxt.push_instr(Bytecode::PushSelf);
    let start = begin_conditional(&mut ctxt, JumpType::JumpOnFalse, false, true);
    ctxt.push_instr(Bytecode::Push1);
    let middle = middle_of_conditional(&mut ctxt, start);
    ctxt.push_instr(Bytecode::Push0);
    ctxt.backpatch_jump_to_current(middle);
    assert_eq!(
        ctxt.get_instructions(),
        &vec![Bytecode::PushSelf, Bytecode::JumpOnFalsePop(3), Bytecode::Push1, Bytecode::Jump(2), Bytecode::Push0],
    );
}

#[test]
fn nil_test_jumps() {
    let mut ctxt = BlockGenCtxt::new(0, 0, 0);
    begin_conditional(&mut ctxt, JumpType::JumpOnTrue, true, false);
    begin_conditional(&mut ctxt, JumpType::JumpOnFalse, true, true);
    begin_conditional(&mut ctxt, JumpType::JumpOnTrue, false, false);
    assert_eq!(
        ctxt.get_instructions(),
        &vec![Bytecode::JumpOnNilTopTop(0), Bytecode::JumpOnNotNilPop(0), Bytecode::JumpOnTrueTopNil(0)],
    );
}

#[test]
fn while_loop_layout() {
    let mut ctxt = BlockGenCtxt::new(0, 0, 0);
    ctxt.push_instr(Bytecode::PushLocal(0));
    // the condition starts at the first instruction
    let pre = 0;
    let cond = begin_conditional(&mut ctxt, JumpType::JumpOnFalse, false, true);
    ctxt.push_instr(Bytecode::PushNil);
    end_while(&mut ctxt, pre, cond);
    assert_eq!(
        ctxt.get_instructions(),
        &vec![
            Bytecode::PushLocal(0),
            Bytecode::JumpOnFalsePop(4),
            Bytecode::PushNil,
            Bytecode::Pop,
            Bytecode::JumpBackward(5),
            Bytecode::PushNil,
        ],
    );
}

#[test]
fn or_and_layout() {
    let mut interner = Interner::new();
    let mut ctxt = BlockGenCtxt::new(0, 0, 0);
    ctxt.push_instr(Bytecode::PushSelf);
    let skip = begin_or_and(&mut ctxt, OrAndChoice::Or);
    ctxt.push_instr(Bytecode::PushLocal(0));
    end_or_and(&mut ctxt, &mut interner, OrAndChoice::Or, skip);
    let t = interner.find("true").unwrap();
    assert_eq!(ctxt.literals_vec(), vec![Literal::Symbol(t)]);
    assert_eq!(
        ctxt.get_instructions(),
        &vec![Bytecode::PushSelf, Bytecode::JumpOnTruePop(3), Bytecode::PushLocal(0), Bytecode::Jump(2), Bytecode::PushGlobal(0)],
    );
}

#[test]
fn to_do_layout() {
    let mut ctxt = BlockGenCtxt::new(0, 0, 3);
    ctxt.push_instr(Bytecode::Push1);
    ctxt.push_instr(Bytecode::PushConstant(0));
    let exit = begin_to_do(&mut ctxt);
    ctxt.push_instr(Bytecode::PushNil);
    end_to_do(&mut ctxt, exit);
    assert_eq!(
        ctxt.get_instructions(),
        &vec![
            Bytecode::Push1,
            Bytecode::PushConstant(0),
            Bytecode::Dup2,
            Bytecode::JumpIfGreater(7),
            Bytecode::Dup,
            Bytecode::PopLocal(0, 3),
            Bytecode::PushNil,
            Bytecode::Pop,
            Bytecode::Inc,
            Bytecode::JumpBackward(6),
        ],
    );
}

#[test]
fn taking_back_a_pushed_block() {
    let mut ctxt = BlockGenCtxt::new(0, 0, 0);
    let idx = ctxt.push_literal(Literal::Block(0x4000));
    ctxt.push_instr(Bytecode::PushBlock(idx as u8));
    assert_eq!(take_last_push_block(&mut ctxt), Some(0x4000));
    assert_eq!(ctxt.get_instructions().len(), 0);
    assert_eq!(ctxt.literals_vec().len(), 0);
    assert_eq!(take_last_push_block(&mut ctxt), None);
}
