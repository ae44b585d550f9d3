use som_interpreter::ast::{ClassDef, Expression, Heap, MethodBody, MethodDef};
use som_interpreter::class_compiler::{compile_class, lookup_method_in_chain, ClassMethod};
use som_interpreter::codegen::CompileEnv;
use som_interpreter::interner::Interner;
use som_interpreter::method_compiler::{CompiledMethod, TrivialKind};
use som_interpreter::value::{AstNaNBoxedVal, Interned};

fn getter(name: &str) -> MethodDef {
    MethodDef {
        signature: String::from(name),
        body: MethodBody::Body {
            locals_nbr: 0,
            exprs: vec![Expression::Exit(Box::new(Expression::GlobalRead(String::from(name))), 0)],
        },
    }
}

fn counter_class() -> ClassDef {
    ClassDef {
        name: String::from("Counter"),
        instance_locals: vec![String::from("count"), String::from("name")],
        instance_methods: vec![
            getter("count"),
            MethodDef { signature: String::from("foo"), body: MethodBody::Body { locals_nbr: 0, exprs: vec![] } },
        ],
        static_locals: vec![],
        static_methods: vec![MethodDef { signature: String::from("new"), body: MethodBody::Primitive }],
    }
}

#[test]
fn class_fields_come_after_the_superclass_fields_each_once() {
    let mut interner = Interner::new();
    let name = interner.intern("name");
    let mut env = CompileEnv { interner, fields: vec![], heap: Heap::new() };
    let table: Vec<(&'static str, u8, bool)> = vec![];
    let (class_side, instance_side) =
        compile_class(&counter_class(), &vec![], &vec![vec![name]], &table, &table, &mut env);
    let count = env.interner.find("count").unwrap();
    assert_eq!(instance_side.field_names, vec![name, count]);
    assert_eq!(instance_side.name, "Counter");
    assert_eq!(class_side.name, "Counter class");
    assert!(class_side.field_names.is_empty());
    // the getter reads the field at its position in the layout
    let idx = instance_side.lookup_method(count).unwrap();
    match &instance_side.method_list[idx] {
        ClassMethod::Compiled(m) => {
            assert_eq!(m.signature, "count");
            assert_eq!(m.holder.as_deref(), Some("Counter"));
            assert!(matches!(m.kind, CompiledMethod::Trivial(TrivialKind::Getter(1))));
        },
        _ => panic!("expected a trivial getter"),
    }
}

#[test]
fn primitives_replace_compiled_methods_in_place() {
    let mut env = CompileEnv { interner: Interner::new(), fields: vec![], heap: Heap::new() };
    let class_table: Vec<(&'static str, u8, bool)> = vec![("new", 1, true)];
    let instance_table: Vec<(&'static str, u8, bool)> = vec![("foo", 9, true), ("bar", 3, false)];
    let (class_side, instance_side) =
        compile_class(&counter_class(), &vec![], &vec![], &class_table, &instance_table, &mut env);
    let count = env.interner.find("count").unwrap();
    let foo = env.interner.find("foo").unwrap();
    let bar = env.interner.find("bar").unwrap();
    let new = env.interner.find("new").unwrap();
    assert_eq!(instance_side.method_entries(), vec![(count, 0), (foo, 2), (bar, 3)]);
    assert!(matches!(&instance_side.method_list[1], ClassMethod::Compiled(m) if matches!(m.kind, CompiledMethod::Defined(_))));
    assert!(matches!(&instance_side.method_list[2], ClassMethod::Primitive { primitive: 9, signature, holder } if signature == "foo" && holder == "Counter"));
    assert!(matches!(&instance_side.method_list[3], ClassMethod::Primitive { primitive: 3, signature, .. } if signature == "bar"));
    assert_eq!(instance_side.lookup_method(foo), Some(2));
    assert_eq!(instance_side.lookup_method(Interned(999)), None);
    assert_eq!(class_side.method_entries(), vec![(new, 1)]);
    assert!(matches!(&class_side.method_list[0], ClassMethod::Compiled(m) if matches!(m.kind, CompiledMethod::Primitive) && m.holder.as_deref() == Some("Counter class")));
    assert!(matches!(&class_side.method_list[1], ClassMethod::Primitive { primitive: 1, holder, .. } if holder == "Counter class"));
}

#[test]
fn a_compiled_class_starts_with_nil_fields_and_no_superclass() {
    let mut interner = Interner::new();
    let x = interner.intern("x");
    let mut env = CompileEnv { interner, fields: vec![], heap: Heap::new() };
    let def = ClassDef {
        name: String::from("Foo"),
        instance_locals: vec![String::from("a"), String::from("b")],
        instance_methods: vec![],
        static_locals: vec![],
        static_methods: vec![],
    };
    let table: Vec<(&'static str, u8, bool)> = vec![];
    let (mut class_side, instance_side) = compile_class(&def, &vec![], &vec![vec![x]], &table, &table, &mut env);
    let a = env.interner.find("a").unwrap();
    let b = env.interner.find("b").unwrap();
    assert_eq!(instance_side.name, "Foo");
    assert_eq!(instance_side.field_names, vec![x, a, b]);
    assert_eq!(instance_side.fields, vec![AstNaNBoxedVal::nil(); 3]);
    assert!(!instance_side.is_static);
    assert!(instance_side.super_class.is_none());
    assert!(instance_side.method_list.is_empty());
    assert_eq!(class_side.name, "Foo class");
    assert!(class_side.is_static);
    assert!(class_side.fields.is_empty());
    class_side.set_super_class(&String::from("Object class"));
    assert_eq!(class_side.super_class.as_deref(), Some("Object class"));
}

#[test]
fn lookup_goes_up_the_superclass_chain() {
    let mut env = CompileEnv { interner: Interner::new(), fields: vec![], heap: Heap::new() };
    let table: Vec<(&'static str, u8, bool)> = vec![];
    let object = ClassDef {
        name: String::from("Object"),
        instance_locals: vec![],
        instance_methods: vec![getter("foo"), getter("bar")],
        static_locals: vec![],
        static_methods: vec![],
    };
    let sub = ClassDef {
        name: String::from("Sub"),
        instance_locals: vec![],
        instance_methods: vec![getter("bar")],
        static_locals: vec![],
        static_methods: vec![],
    };
    let (_, object_side) = compile_class(&object, &vec![], &vec![], &table, &table, &mut env);
    let (_, sub_side) = compile_class(&sub, &vec![], &vec![], &table, &table, &mut env);
    let foo = env.interner.find("foo").unwrap();
    let bar = env.interner.find("bar").unwrap();
    let chain = vec![sub_side, object_side];
    assert_eq!(lookup_method_in_chain(&chain, foo), Some((1, 0)));
    assert_eq!(lookup_method_in_chain(&chain, bar), Some((0, 0)));
    assert_eq!(lookup_method_in_chain(&chain, Interned(999)), None);
}
