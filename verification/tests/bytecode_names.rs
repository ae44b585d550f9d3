use som_interpreter::bytecode::Bytecode;

#[test]
fn instructions_have_their_listing_names() {
    assert_eq!(Bytecode::Dup.name(), "DUP");
    assert_eq!(Bytecode::PushLocal(0).name(), "PUSH_LOCAL");
    assert_eq!(Bytecode::PopArg(0, 1).name(), "POP_ARGUMENT");
    assert_eq!(Bytecode::ReturnNonLocal(2).name(), "RETURN_NON_LOCAL");
    assert_eq!(Bytecode::JumpOnNotNilPop(3).name(), "JUMP_ON_NOT_NIL_POP");
}
