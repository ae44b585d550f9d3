use som_interpreter::globals::Globals;
use som_interpreter::value::{AstNaNBoxedVal, Interned};

#[test]
fn a_bound_global_is_found() {
    let mut g = Globals::new();
    assert!(!g.has_global(Interned(3)));
    assert_eq!(g.lookup_global(Interned(3)), None);
    g.assign_global(Interned(3), AstNaNBoxedVal::new_integer(7));
    g.assign_global(Interned(4), AstNaNBoxedVal::nil());
    assert!(g.has_global(Interned(3)));
    assert_eq!(g.lookup_global(Interned(3)), Some(AstNaNBoxedVal::new_integer(7)));
    assert_eq!(g.lookup_global(Interned(4)), Some(AstNaNBoxedVal::nil()));
    assert_eq!(g.lookup_global(Interned(5)), None);
}

#[test]
fn assigning_a_bound_global_gives_it_the_new_value() {
    let mut g = Globals::new();
    g.assign_global(Interned(1), AstNaNBoxedVal::new_integer(1));
    g.assign_global(Interned(1), AstNaNBoxedVal::new_integer(2));
    assert_eq!(g.entries.len(), 2);
    assert_eq!(g.lookup_global(Interned(1)), Some(AstNaNBoxedVal::new_integer(2)));
    assert!(g.has_global(Interned(1)));
}
