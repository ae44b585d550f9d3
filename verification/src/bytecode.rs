//! The bytecode instruction set of the SOM bytecode interpreter.

use crate::value::Interned;
use vstd::prelude::*;

verus! {

/// One bytecode instruction.
#[derive(Clone, Copy, Debug, PartialEq, Eq, Structural)]
pub enum Bytecode {
    Dup,
    Dup2,
    Inc,
    Dec,
    PushLocal(u8),
    PushNonLocal(u8, u8),
    PushArg(u8),
    PushNonLocalArg(u8, u8),
    PushField(u8),
    PushBlock(u8),
    PushConstant(u8),
    PushGlobal(u8),
    Push0,
    Push1,
    PushNil,
    PushSelf,
    Pop,
    PopLocal(u8, u8),
    PopArg(u8, u8),
    PopField(u8),
    Send1(Interned),
    Send2(Interned),
    Send3(Interned),
    SendN(Interned),
    SuperSend(Interned),
    ReturnSelf,
    ReturnLocal,
    ReturnNonLocal(u8),
    Jump(u16),
    JumpBackward(u16),
    JumpOnTrueTopNil(u16),
    JumpOnFalseTopNil(u16),
    JumpOnTruePop(u16),
    JumpOnFalsePop(u16),
    JumpIfGreater(u16),
    JumpOnNilTopTop(u16),
    JumpOnNotNilTopTop(u16),
    JumpOnNilPop(u16),
    JumpOnNotNilPop(u16),
}

/// The offset of any jump instruction, forward or backward.
pub open spec fn jump_offset(bc: Bytecode) -> Option<u16> {
    match bc {
        Bytecode::Jump(o) => Some(o),
        Bytecode::JumpBackward(o) => Some(o),
        Bytecode::JumpOnTrueTopNil(o) => Some(o),
        Bytecode::JumpOnFalseTopNil(o) => Some(o),
        Bytecode::JumpOnTruePop(o) => Some(o),
        Bytecode::JumpOnFalsePop(o) => Some(o),
        Bytecode::JumpIfGreater(o) => Some(o),
        Bytecode::JumpOnNilTopTop(o) => Some(o),
        Bytecode::JumpOnNotNilTopTop(o) => Some(o),
        Bytecode::JumpOnNilPop(o) => Some(o),
        Bytecode::JumpOnNotNilPop(o) => Some(o),
        _ => None,
    }
}

/// The same jump instruction with another offset; any other instruction unchanged.
pub open spec fn with_jump_offset(bc: Bytecode, o: u16) -> Bytecode {
    match bc {
        Bytecode::Jump(_) => Bytecode::Jump(o),
        Bytecode::JumpBackward(_) => Bytecode::JumpBackward(o),
        Bytecode::JumpOnTrueTopNil(_) => Bytecode::JumpOnTrueTopNil(o),
        Bytecode::JumpOnFalseTopNil(_) => Bytecode::JumpOnFalseTopNil(o),
        Bytecode::JumpOnTruePop(_) => Bytecode::JumpOnTruePop(o),
        Bytecode::JumpOnFalsePop(_) => Bytecode::JumpOnFalsePop(o),
        Bytecode::JumpIfGreater(_) => Bytecode::JumpIfGreater(o),
        Bytecode::JumpOnNilTopTop(_) => Bytecode::JumpOnNilTopTop(o),
        Bytecode::JumpOnNotNilTopTop(_) => Bytecode::JumpOnNotNilTopTop(o),
        Bytecode::JumpOnNilPop(_) => Bytecode::JumpOnNilPop(o),
        Bytecode::JumpOnNotNilPop(_) => Bytecode::JumpOnNotNilPop(o),
        _ => bc,
    }
}

/// The offset of a forward jump, of every kind of forward jump.
pub open spec fn forward_jump_offset(bc: Bytecode) -> Option<u16> {
    match bc {
        Bytecode::JumpBackward(_) => None,
        _ => jump_offset(bc),
    }
}

/// The offset of the forward jumps whose offset the peephole pass adjusts:
/// unconditional jumps, boolean conditional jumps and `JumpIfGreater`.
pub open spec fn adjusted_jump_offset(bc: Bytecode) -> Option<u16> {
    match bc {
        Bytecode::Jump(o) => Some(o),
        Bytecode::JumpOnTrueTopNil(o) => Some(o),
        Bytecode::JumpOnFalseTopNil(o) => Some(o),
        Bytecode::JumpOnTruePop(o) => Some(o),
        Bytecode::JumpOnFalsePop(o) => Some(o),
        Bytecode::JumpIfGreater(o) => Some(o),
        _ => None,
    }
}

/// The offsets of the forward jumps that the method compiler considers when
/// deciding whether a final return can be jumped over.
pub open spec fn return_skip_jump_offset(bc: Bytecode) -> Option<u16> {
    adjusted_jump_offset(bc)
}

/// Returns the offset of a jump instruction, if it is one.
pub fn get_jump_offset(bc: &Bytecode) -> (r: Option<u16>)
    ensures
        r == jump_offset(*bc),
{
    match *bc {
        Bytecode::Jump(o) => Some(o),
        Bytecode::JumpBackward(o) => Some(o),
        Bytecode::JumpOnTrueTopNil(o) => Some(o),
        Bytecode::JumpOnFalseTopNil(o) => Some(o),
        Bytecode::JumpOnTruePop(o) => Some(o),
        Bytecode::JumpOnFalsePop(o) => Some(o),
        Bytecode::JumpIfGreater(o) => Some(o),
        Bytecode::JumpOnNilTopTop(o) => Some(o),
        Bytecode::JumpOnNotNilTopTop(o) => Some(o),
        Bytecode::JumpOnNilPop(o) => Some(o),
        Bytecode::JumpOnNotNilPop(o) => Some(o),
        _ => None,
    }
}

/// Returns the offset of a forward jump of any kind, if the instruction is one.
pub fn get_forward_jump_offset(bc: &Bytecode) -> (r: Option<u16>)
    ensures
        r == forward_jump_offset(*bc),
{
    match *bc {
        Bytecode::JumpBackward(_) => None,
        _ => get_jump_offset(bc),
    }
}

/// Returns the offset of a forward jump of the kinds the peephole pass adjusts.
pub fn get_adjusted_jump_offset(bc: &Bytecode) -> (r: Option<u16>)
    ensures
        r == adjusted_jump_offset(*bc),
{
    match *bc {
        Bytecode::Jump(o) => Some(o),
        Bytecode::JumpOnTrueTopNil(o) => Some(o),
        Bytecode::JumpOnFalseTopNil(o) => Some(o),
        Bytecode::JumpOnTruePop(o) => Some(o),
        Bytecode::JumpOnFalsePop(o) => Some(o),
        Bytecode::JumpIfGreater(o) => Some(o),
        _ => None,
    }
}

/// Returns the same jump with its offset replaced.
pub fn set_jump_offset(bc: Bytecode, o: u16) -> (r: Bytecode)
    ensures
        r == with_jump_offset(bc, o),
{
    match bc {
        Bytecode::Jump(_) => Bytecode::Jump(o),
        Bytecode::JumpBackward(_) => Bytecode::JumpBackward(o),
        Bytecode::JumpOnTrueTopNil(_) => Bytecode::JumpOnTrueTopNil(o),
        Bytecode::JumpOnFalseTopNil(_) => Bytecode::JumpOnFalseTopNil(o),
        Bytecode::JumpOnTruePop(_) => Bytecode::JumpOnTruePop(o),
        Bytecode::JumpOnFalsePop(_) => Bytecode::JumpOnFalsePop(o),
        Bytecode::JumpIfGreater(_) => Bytecode::JumpIfGreater(o),
        Bytecode::JumpOnNilTopTop(_) => Bytecode::JumpOnNilTopTop(o),
        Bytecode::JumpOnNotNilTopTop(_) => Bytecode::JumpOnNotNilTopTop(o),
        Bytecode::JumpOnNilPop(_) => Bytecode::JumpOnNilPop(o),
        Bytecode::JumpOnNotNilPop(_) => Bytecode::JumpOnNotNilPop(o),
        _ => bc,
    }
}

/// The name of an instruction, as listings show it.
pub open spec fn bytecode_name(bc: Bytecode) -> Seq<char> {
    match bc {
        Bytecode::Dup => "DUP"@,
        Bytecode::Dup2 => "DUP2"@,
        Bytecode::Inc => "INC"@,
        Bytecode::Dec => "DEC"@,
        Bytecode::PushLocal(_) => "PUSH_LOCAL"@,
        Bytecode::PushNonLocal(_, _) => "PUSH_NON_LOCAL"@,
        Bytecode::PushArg(_) => "PUSH_ARG"@,
        Bytecode::PushNonLocalArg(_, _) => "PUSH_NON_LOCAL_ARG"@,
        Bytecode::PushField(_) => "PUSH_FIELD"@,
        Bytecode::PushBlock(_) => "PUSH_BLOCK"@,
        Bytecode::PushConstant(_) => "PUSH_CONSTANT"@,
        Bytecode::PushGlobal(_) => "PUSH_GLOBAL"@,
        Bytecode::Push0 => "PUSH_0"@,
        Bytecode::Push1 => "PUSH_1"@,
        Bytecode::PushNil => "PUSH_NIL"@,
        Bytecode::PushSelf => "PUSH_SELF"@,
        Bytecode::Pop => "POP"@,
        Bytecode::PopLocal(_, _) => "POP_LOCAL"@,
        Bytecode::PopArg(_, _) => "POP_ARGUMENT"@,
        Bytecode::PopField(_) => "POP_FIELD"@,
        Bytecode::Send1(_) => "SEND_1"@,
        Bytecode::Send2(_) => "SEND_2"@,
        Bytecode::Send3(_) => "SEND_3"@,
        Bytecode::SendN(_) => "SEND_N"@,
        Bytecode::SuperSend(_) => "SUPER_SEND"@,
        Bytecode::ReturnSelf => "RETURN_SELF"@,
        Bytecode::ReturnLocal => "RETURN_LOCAL"@,
        Bytecode::ReturnNonLocal(_) => "RETURN_NON_LOCAL"@,
        Bytecode::Jump(_) => "JUMP"@,
        Bytecode::JumpBackward(_) => "JUMP_BACKWARD"@,
        Bytecode::JumpOnTrueTopNil(_) => "JUMP_ON_TRUE_TOP_NIL"@,
        Bytecode::JumpOnFalseTopNil(_) => "JUMP_ON_FALSE_TOP_NIL"@,
        Bytecode::JumpOnTruePop(_) => "JUMP_ON_TRUE_POP"@,
        Bytecode::JumpOnFalsePop(_) => "JUMP_ON_FALSE_POP"@,
        Bytecode::JumpIfGreater(_) => "JUMP_IF_GREATER"@,
        Bytecode::JumpOnNilTopTop(_) => "JUMP_ON_NIL_TOP_TOP"@,
        Bytecode::JumpOnNotNilTopTop(_) => "JUMP_ON_NOT_NIL_TOP_TOP"@,
        Bytecode::JumpOnNilPop(_) => "JUMP_ON_NIL_POP"@,
        Bytecode::JumpOnNotNilPop(_) => "JUMP_ON_NOT_NIL_POP"@,
    }
}

impl Bytecode {
    /// The name of this instruction, as listings show it.
    pub fn name(&self) -> (r: &'static str)
        ensures
            r@ == bytecode_name(*self),
    {
        match self {
            Bytecode::Dup => "DUP",
            Bytecode::Dup2 => "DUP2",
            Bytecode::Inc => "INC",
            Bytecode::Dec => "DEC",
            Bytecode::PushLocal(_) => "PUSH_LOCAL",
            Bytecode::PushNonLocal(_, _) => "PUSH_NON_LOCAL",
            Bytecode::PushArg(_) => "PUSH_ARG",
            Bytecode::PushNonLocalArg(_, _) => "PUSH_NON_LOCAL_ARG",
            Bytecode::PushField(_) => "PUSH_FIELD",
            Bytecode::PushBlock(_) => "PUSH_BLOCK",
            Bytecode::PushConstant(_) => "PUSH_CONSTANT",
            Bytecode::PushGlobal(_) => "PUSH_GLOBAL",
            Bytecode::Push0 => "PUSH_0",
            Bytecode::Push1 => "PUSH_1",
            Bytecode::PushNil => "PUSH_NIL",
            Bytecode::PushSelf => "PUSH_SELF",
            Bytecode::Pop => "POP",
            Bytecode::PopLocal(_, _) => "POP_LOCAL",
            Bytecode::PopArg(_, _) => "POP_ARGUMENT",
            Bytecode::PopField(_) => "POP_FIELD",
            Bytecode::Send1(_) => "SEND_1",
            Bytecode::Send2(_) => "SEND_2",
            Bytecode::Send3(_) => "SEND_3",
            Bytecode::SendN(_) => "SEND_N",
            Bytecode::SuperSend(_) => "SUPER_SEND",
            Bytecode::ReturnSelf => "RETURN_SELF",
            Bytecode::ReturnLocal => "RETURN_LOCAL",
            Bytecode::ReturnNonLocal(_) => "RETURN_NON_LOCAL",
            Bytecode::Jump(_) => "JUMP",
            Bytecode::JumpBackward(_) => "JUMP_BACKWARD",
            Bytecode::JumpOnTrueTopNil(_) => "JUMP_ON_TRUE_TOP_NIL",
            Bytecode::JumpOnFalseTopNil(_) => "JUMP_ON_FALSE_TOP_NIL",
            Bytecode::JumpOnTruePop(_) => "JUMP_ON_TRUE_POP",
            Bytecode::JumpOnFalsePop(_) => "JUMP_ON_FALSE_POP",
            Bytecode::JumpIfGreater(_) => "JUMP_IF_GREATER",
            Bytecode::JumpOnNilTopTop(_) => "JUMP_ON_NIL_TOP_TOP",
            Bytecode::JumpOnNotNilTopTop(_) => "JUMP_ON_NOT_NIL_TOP_TOP",
            Bytecode::JumpOnNilPop(_) => "JUMP_ON_NIL_POP",
            Bytecode::JumpOnNotNilPop(_) => "JUMP_ON_NOT_NIL_POP",
        }
    }
}

} // verus!
