use som_interpreter::convert::{Nil, System};
use som_interpreter::gc::{GCMagicId, GCRef};
use som_interpreter::interner::Interner;
use som_interpreter::value::{AstNaNBoxedVal, Interned, ValueClass};

#[test]
fn integers_booleans_and_symbols_round_trip() {
    for i in [0, 1, -1, 42, i32::MAX, i32::MIN] {
        let v = AstNaNBoxedVal::new_integer(i);
        assert!(v.is_integer());
        assert!(!v.is_double());
        assert_eq!(v.as_integer(), Some(i));
    }
    let t = AstNaNBoxedVal::new_boolean(true);
    assert_eq!(t.as_boolean(), Some(true));
    assert!(t.as_boolean_unchecked());
    assert_eq!(AstNaNBoxedVal::new_boolean(false).as_boolean(), Some(false));
    let s = AstNaNBoxedVal::new_symbol(Interned(12));
    assert_eq!(s.as_symbol(), Some(Interned(12)));
    assert_eq!(s.as_integer(), None);
}

#[test]
fn doubles_are_the_non_nan_words() {
    let d = AstNaNBoxedVal { encoded: 2.5f64.to_bits() };
    assert!(d.is_double());
    assert!(!d.is_integer());
    let canonical_nan = AstNaNBoxedVal { encoded: f64::NAN.to_bits() };
    assert!(canonical_nan.is_double());
    assert!(!AstNaNBoxedVal::nil().is_double());
}

#[test]
fn pointer_kinds() {
    let a = AstNaNBoxedVal::Array(0x1000);
    let b = AstNaNBoxedVal::Block(0x1000);
    let c = AstNaNBoxedVal::Class(0x1000);
    let i = AstNaNBoxedVal::Instance(0x1000);
    let m = AstNaNBoxedVal::Invokable(0x1000);
    assert!(a.is_array() && !a.is_block());
    assert!(b.is_block() && !b.is_class());
    assert!(c.is_class() && !c.is_instance());
    assert!(i.is_instance() && !i.is_invocable());
    assert!(m.is_invocable() && !m.is_array());
    assert!(a.is_ptr_type());
    assert!(!AstNaNBoxedVal::new_integer(3).is_ptr_type());
}

#[test]
fn value_classes() {
    assert_eq!(AstNaNBoxedVal::nil().class(), Some(ValueClass::Nil));
    assert_eq!(AstNaNBoxedVal::system().class(), Some(ValueClass::System));
    assert_eq!(AstNaNBoxedVal::new_boolean(true).class(), Some(ValueClass::True));
    assert_eq!(AstNaNBoxedVal::new_boolean(false).class(), Some(ValueClass::False));
    assert_eq!(AstNaNBoxedVal::new_integer(3).class(), Some(ValueClass::Integer));
    assert_eq!(AstNaNBoxedVal::Block(8).class(), Some(ValueClass::OfBlock));
    assert_eq!(AstNaNBoxedVal { encoded: 0.5f64.to_bits() }.class(), Some(ValueClass::Double));
}

#[test]
fn locals_of_instances_and_classes() {
    let mut fields = vec![AstNaNBoxedVal::new_integer(1), AstNaNBoxedVal::nil()];
    let inst = AstNaNBoxedVal::Instance(0x40);
    assert_eq!(inst.lookup_local(&fields, 0), AstNaNBoxedVal::new_integer(1));
    assert_eq!(inst.assign_local(&mut fields, 1, AstNaNBoxedVal::new_integer(5)), Some(()));
    assert_eq!(fields[1], AstNaNBoxedVal::new_integer(5));
    let cls = AstNaNBoxedVal::Class(0x80);
    assert_eq!(cls.lookup_local(&fields, 1), AstNaNBoxedVal::new_integer(5));
    let not_an_object = AstNaNBoxedVal::new_integer(3);
    assert_eq!(not_an_object.assign_local(&mut fields, 0, AstNaNBoxedVal::nil()), None);
    assert_eq!(fields[0], AstNaNBoxedVal::new_integer(1));
}

#[test]
fn interning() {
    let mut interner = Interner::new();
    let a = interner.intern("foo");
    let b = interner.intern("bar");
    let a2 = interner.intern("foo");
    assert_eq!(a, a2);
    assert_ne!(a, b);
    assert_eq!(interner.len(), 2);
    assert_eq!(interner.lookup(b), "bar");
    assert_eq!(interner.find("bar"), Some(b));
    assert_eq!(interner.find("baz"), None);
}

#[test]
fn magic_ids() {
    assert_eq!(GCMagicId::Frame.to_u8(), 100);
    assert_eq!(GCMagicId::BigInt.to_u8(), 109);
    assert_eq!(GCMagicId::from_u8(106), Some(GCMagicId::String));
    assert_eq!(GCMagicId::from_u8(99), None);
    assert_eq!(GCMagicId::from_u8(110), None);
    for n in 100..=109u8 {
        assert_eq!(GCMagicId::from_u8(n).unwrap().to_u8(), n);
    }
}

#[test]
fn gc_references() {
    let empty: GCRef<String> = GCRef::empty();
    assert!(empty.is_empty());
    let r: GCRef<String> = GCRef::from_u64(0x1234);
    assert!(!r.is_empty());
    assert!(r.same_object(&GCRef::from_u64(0x1234)));
    assert!(!r.same_object(&empty));
}

#[test]
fn nil_and_system_arguments() {
    assert_eq!(Nil::try_from_value(AstNaNBoxedVal::nil()), Ok(Nil));
    assert!(Nil::try_from_value(AstNaNBoxedVal::new_integer(0)).is_err());
    assert_eq!(System::try_from_value(AstNaNBoxedVal::nil()), Ok(System));
    assert!(System::try_from_value(AstNaNBoxedVal::system()).is_err());
}
