use som_interpreter::primitives::array::{self, ArrayPrimitive};
use som_interpreter::primitives::blocks::block1::{self, Block1Primitive};
use som_interpreter::primitives::blocks::block2::{self, Block2Primitive};
use som_interpreter::primitives::blocks::block3::{self, Block3Primitive};
use som_interpreter::primitives::class::{self, ClassPrimitive};
use som_interpreter::primitives::double::{self, DoublePrimitive};
use som_interpreter::primitives::false_class::{self, FalsePrimitive};
use som_interpreter::primitives::integer::{self, IntegerPrimitive};
use som_interpreter::primitives::method::{self, MethodPrimitive};
use som_interpreter::primitives::string::{self, StringPrimitive};
use som_interpreter::primitives::system::{self, SystemPrimitive};
use som_interpreter::primitives::true_class::{self, TruePrimitive};
use som_interpreter::primitives::{find_primitive, str_eq};

#[test]
fn array_tables() {
    assert_eq!(array::get_instance_primitive("at:put:"), Some(ArrayPrimitive::AtPut));
    assert_eq!(array::get_instance_primitive("copy:"), Some(ArrayPrimitive::Copy));
    assert_eq!(array::get_instance_primitive("new:"), None);
    assert_eq!(array::get_class_primitive("new:"), Some(ArrayPrimitive::New));
    assert_eq!(array::instance_primitives().len(), 4);
}

#[test]
fn block_tables() {
    assert_eq!(block1::get_instance_primitive("value"), Some(Block1Primitive::Value));
    assert_eq!(block1::get_instance_primitive("restart"), Some(Block1Primitive::Restart));
    assert_eq!(block1::get_class_primitive("value"), None);
    assert_eq!(block2::get_instance_primitive("value:"), Some(Block2Primitive::Value));
    assert_eq!(block3::get_instance_primitive("value:with:"), Some(Block3Primitive::ValueWith));
    assert_eq!(block3::get_instance_primitive("value:"), None);
    // `restart` is the one primitive whose absence is not worth a warning
    let table = block1::instance_primitives();
    assert_eq!(table[1], ("restart", Block1Primitive::Restart, false));
    assert!(table[0].2);
}

#[test]
fn class_and_method_tables() {
    assert_eq!(class::get_instance_primitive("superclass"), Some(ClassPrimitive::Superclass));
    assert_eq!(class::get_class_primitive("new"), None);
    assert_eq!(method::get_instance_primitive("invokeOn:with:"), Some(MethodPrimitive::InvokeOnWith));
    assert_eq!(method::get_class_primitive("holder"), None);
}

#[test]
fn double_tables() {
    assert_eq!(double::get_instance_primitive("//"), Some(DoublePrimitive::Divide));
    assert_eq!(double::get_instance_primitive("/"), None);
    assert_eq!(double::get_class_primitive("PositiveInfinity"), Some(DoublePrimitive::PositiveInfinity));
}

#[test]
fn boolean_tables() {
    assert_eq!(false_class::get_instance_primitive("&&"), Some(FalsePrimitive::And));
    assert_eq!(false_class::get_instance_primitive("or:"), None);
    assert_eq!(true_class::get_instance_primitive("ifTrue:"), Some(TruePrimitive::AndIfTrue));
    assert_eq!(true_class::get_instance_primitive("||"), Some(TruePrimitive::Or));
    assert_eq!(true_class::get_instance_primitive("ifFalse:"), Some(TruePrimitive::IfFalse));
}

#[test]
fn integer_tables() {
    assert_eq!(integer::get_instance_primitive("<>"), Some(IntegerPrimitive::Uneq));
    assert_eq!(integer::get_instance_primitive("~="), Some(IntegerPrimitive::Uneq));
    assert_eq!(integer::get_instance_primitive(">>>"), Some(IntegerPrimitive::ShiftRight));
    assert_eq!(integer::get_instance_primitive("to:"), Some(IntegerPrimitive::To));
    assert_eq!(integer::get_instance_primitive("to:do:"), None);
    assert_eq!(integer::get_class_primitive("fromString:"), Some(IntegerPrimitive::FromString));
    assert_eq!(integer::instance_primitives().len(), 29);
}

#[test]
fn string_and_system_tables() {
    assert_eq!(string::get_instance_primitive("primSubstringFrom:to:"), Some(StringPrimitive::PrimSubstringFromTo));
    assert_eq!(string::get_class_primitive("new"), None);
    assert_eq!(system::get_instance_primitive("global:put:"), Some(SystemPrimitive::GlobalPut));
    assert_eq!(system::get_instance_primitive("printStackTrace"), Some(SystemPrimitive::PrintStackTrace));
    assert_eq!(system::get_instance_primitive("print:"), None);
}

#[test]
fn lookup_takes_the_first_entry() {
    let table = vec![("x", 1u8, true), ("y", 2u8, true), ("x", 3u8, true)];
    assert_eq!(find_primitive(&table, "x"), Some(1));
    assert_eq!(find_primitive(&table, "y"), Some(2));
    assert_eq!(find_primitive(&table, "z"), None);
}

#[test]
fn string_equality_by_characters() {
    assert!(str_eq("héllo", "héllo"));
    assert!(!str_eq("hello", "hell"));
    assert!(!str_eq("abc", "abd"));
    assert!(str_eq("", ""));
}
