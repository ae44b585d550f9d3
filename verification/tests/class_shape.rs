use som_interpreter::ast::{ClassDef, MethodBody, MethodDef};
use som_interpreter::class_shape::{AstMethodKind, ClassShape};
use som_interpreter::interner::Interner;
use som_interpreter::value::AstNaNBoxedVal;

fn prim(sig: &str) -> MethodDef {
    MethodDef { signature: String::from(sig), body: MethodBody::Primitive }
}

fn def(name: &str, statics: &[&str], instances: &[&str]) -> ClassDef {
    ClassDef {
        name: String::from(name),
        instance_locals: instances.iter().map(|s| String::from(*s)).collect(),
        instance_methods: vec![],
        static_locals: statics.iter().map(|s| String::from(*s)).collect(),
        static_methods: vec![],
    }
}

type Shape = ClassShape<u32, u8>;

fn lay_out(
    d: &ClassDef,
    sup: Option<String>,
    interner: &mut Interner,
) -> Result<(Shape, Shape), som_interpreter::class_shape::DuplicateField> {
    let none: Vec<(&'static str, u8, bool)> = vec![];
    let sk: Vec<u32> = (0..d.static_methods.len() as u32).collect();
    let ik: Vec<u32> = (100..100 + d.instance_methods.len() as u32).collect();
    ClassShape::from_class_def(d, sup, sk, ik, &none, &none, interner)
}

#[test]
fn shape_lays_out_both_sides() {
    let mut interner = Interner::new();
    let (s, i) = lay_out(&def("Foo", &["count"], &["a", "b"]), Some(String::from("Object")), &mut interner).unwrap();
    assert_eq!(s.name, "Foo class");
    assert!(s.is_static);
    assert_eq!(s.field_names, vec![String::from("count")]);
    assert_eq!(s.fields, vec![AstNaNBoxedVal::nil()]);
    assert_eq!(s.super_class.as_deref(), Some("Object class"));
    assert_eq!(i.name, "Foo");
    assert!(!i.is_static);
    assert_eq!(i.field_names, vec![String::from("a"), String::from("b")]);
    assert_eq!(i.fields, vec![AstNaNBoxedVal::nil(); 2]);
    assert_eq!(i.super_class.as_deref(), Some("Object"));
    assert!(s.method_list.is_empty() && i.method_list.is_empty());
}

#[test]
fn shape_without_superclass() {
    let mut interner = Interner::new();
    let (s, i) = lay_out(&def("Object", &[], &[]), None, &mut interner).unwrap();
    assert!(s.super_class.is_none());
    assert!(i.super_class.is_none());
    assert!(s.fields.is_empty() && i.fields.is_empty());
}

#[test]
fn a_field_named_twice_is_refused() {
    let mut interner = Interner::new();
    let mut d = def("Foo", &[], &["a", "b", "a", "b"]);
    d.instance_methods = vec![prim("m")];
    let e = lay_out(&d, None, &mut interner).err().unwrap();
    assert_eq!(e.class_name, "Foo");
    assert_eq!(e.field, "a");
    // nothing is interned for a refused definition
    assert_eq!(interner.len(), 0);
    // the class-side fields are checked first
    let e = lay_out(&def("Bar", &["x", "x"], &["y", "y"]), None, &mut interner).err().unwrap();
    assert_eq!(e.field, "x");
}

#[test]
fn methods_and_primitives_are_held_by_their_class() {
    let mut interner = Interner::new();
    let mut d = def("Foo", &[], &[]);
    d.static_methods = vec![prim("new")];
    d.instance_methods = vec![prim("foo"), prim("bar")];
    let class_table: Vec<(&'static str, u8, bool)> = vec![("new", 7, true)];
    let instance_table: Vec<(&'static str, u8, bool)> = vec![("baz", 9, true)];
    let (s, i) = ClassShape::<u32, u8>::from_class_def(
        &d,
        None,
        vec![10],
        vec![20, 21],
        &class_table,
        &instance_table,
        &mut interner,
    )
    .unwrap();
    // the class side: the compiled `new`, then the primitive `new` in its place
    assert_eq!(s.method_list.len(), 2);
    assert!(matches!(s.method_list[0].kind, AstMethodKind::Defined(10)));
    assert!(matches!(s.method_list[1].kind, AstMethodKind::Primitive(7)));
    assert!(s.method_list.iter().all(|m| m.holder == "Foo class" && m.signature == "new"));
    let new = interner.find("new").unwrap();
    assert_eq!(s.methods.get(&new.0), Some(&1));
    assert_eq!(s.methods.len(), 1);
    // the class
    assert_eq!(i.method_list.len(), 3);
    assert!(matches!(i.method_list[1].kind, AstMethodKind::Defined(21)));
    assert_eq!(i.method_list[1].signature, "bar");
    assert!(matches!(i.method_list[2].kind, AstMethodKind::Primitive(9)));
    assert!(i.method_list.iter().all(|m| m.holder == "Foo"));
    let baz = interner.find("baz").unwrap();
    assert_eq!(i.methods.get(&baz.0), Some(&2));
    // the class side's signatures were interned first
    assert_eq!(interner.lookup(new), "new");
    assert_eq!(new.0, 0);
}
