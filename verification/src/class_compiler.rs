//! Compiling a class definition: the field layout of the class and of its
//! instances (the fields of the superclass chain first, each name once),
//! and their method tables, keyed by interned signature, in which the
//! primitives of the VM for that class replace the compiled methods of the
//! same signature.

use crate::ast::{ClassDef, MethodDef};
use crate::codegen::{
    compile_method, env_state, intern_name, intern_symbol, lemma_intern_name, method_compiled, CompileEnv,
    CompiledView, GenState, method_view,
};
use crate::interner::{id_of, lemma_wf_names_unique, names_unique};
use crate::method_compiler::Method;
use crate::primitives::PrimInfo;
use crate::value::{AstNaNBoxedVal, Interned};
use indexmap::{IndexMap, IndexSet};
use vstd::prelude::*;

verus! {

#[verifier::external_type_specification]
#[verifier::external_body]
#[verifier::reject_recursive_types(K)]
#[verifier::reject_recursive_types(V)]
#[verifier::reject_recursive_types(S)]
pub struct ExIndexMap<K, V, S>(IndexMap<K, V, S>);

/// The entries of a method table (signature id, index of the method in the
/// class's method list), in insertion order.
pub uninterp spec fn method_map_items(map: IndexMap<u32, usize>) -> Seq<(u32, usize)>;

/// The items of a set of field-name ids, in insertion order.
pub uninterp spec fn field_set_items(set: IndexSet<u32>) -> Seq<u32>;

/// A set after inserting an item: unchanged when the item is there, else
/// the item goes last.
pub open spec fn insert_unique(s: Seq<u32>, x: u32) -> Seq<u32> {
    if s.contains(x) {
        s
    } else {
        s.push(x)
    }
}

/// A set after inserting the items of a list, in order.
pub open spec fn extend_unique(s: Seq<u32>, xs: Seq<u32>) -> Seq<u32>
    decreases xs.len(),
{
    if xs.len() == 0 {
        s
    } else {
        insert_unique(extend_unique(s, xs.drop_last()), xs.last())
    }
}

/// The position of the first entry with key `k`, or -1.
pub open spec fn key_position(items: Seq<(u32, usize)>, k: u32) -> int
    decreases items.len(),
{
    if items.len() == 0 {
        -1
    } else if items[0].0 == k {
        0
    } else {
        let p = key_position(items.drop_first(), k);
        if p < 0 {
            -1
        } else {
            p + 1
        }
    }
}

/// A map's entries after an insertion: the value of an existing key is
/// replaced in place, a new key goes last.
pub open spec fn map_insert(items: Seq<(u32, usize)>, k: u32, v: usize) -> Seq<(u32, usize)> {
    let p = key_position(items, k);
    if p >= 0 {
        items.update(p, (k, v))
    } else {
        items.push((k, v))
    }
}

/// `IndexSet::new`: an empty set.
#[verifier::external_body]
fn field_set_new() -> (r: IndexSet<u32>)
    ensures
        field_set_items(r) == Seq::<u32>::empty(),
{
    IndexSet::new()
}

/// `IndexSet::extend`: inserts the ids of the names, in order; an id that
/// is there keeps its place.
#[verifier::external_body]
fn field_set_extend(set: &mut IndexSet<u32>, names: &Vec<Interned>)
    ensures
        field_set_items(*final(set)) == extend_unique(
            field_set_items(*old(set)),
            names@.map_values(|n: Interned| n.0),
        ),
{
    set.extend(names.iter().map(|n| n.0))
}

/// `IndexSet::len`: the number of items.
#[verifier::external_body]
fn field_set_len(set: &IndexSet<u32>) -> (r: usize)
    ensures
        r == field_set_items(*set).len(),
{
    set.len()
}

/// `IndexSet::get_index`: the item at an index, if there is one.
#[verifier::external_body]
fn field_set_get_index(set: &IndexSet<u32>, index: usize) -> (r: Option<u32>)
    ensures
        r == (if index < field_set_items(*set).len() {
            Some(field_set_items(*set)[index as int])
        } else {
            None
        }),
{
    set.get_index(index).copied()
}

/// `IndexMap::new`: an empty map.
#[verifier::external_body]
pub(crate) fn method_map_new() -> (r: IndexMap<u32, usize>)
    ensures
        method_map_items(r) == Seq::<(u32, usize)>::empty(),
{
    IndexMap::new()
}

/// `IndexMap::insert`: the value of an existing key is replaced in place
/// and the old value given back; a new key goes last.
#[verifier::external_body]
pub(crate) fn method_map_insert(map: &mut IndexMap<u32, usize>, key: u32, value: usize) -> (r: Option<usize>)
    ensures
        method_map_items(*final(map)) == map_insert(method_map_items(*old(map)), key, value),
        key_position(method_map_items(*old(map)), key) >= 0 ==> r == Some(
            method_map_items(*old(map))[key_position(method_map_items(*old(map)), key)].1,
        ),
        key_position(method_map_items(*old(map)), key) < 0 ==> r is None,
{
    map.insert(key, value)
}

/// `IndexMap::get`: the value of a key, if it is there.
#[verifier::external_body]
pub(crate) fn method_map_get(map: &IndexMap<u32, usize>, key: u32) -> (r: Option<usize>)
    ensures
        key_position(method_map_items(*map), key) >= 0 ==> r == Some(
            method_map_items(*map)[key_position(method_map_items(*map), key)].1,
        ),
        key_position(method_map_items(*map), key) < 0 ==> r is None,
{
    map.get(&key).copied()
}

/// `IndexMap::len`: the number of entries.
#[verifier::external_body]
fn method_map_len(map: &IndexMap<u32, usize>) -> (r: usize)
    ensures
        r == method_map_items(*map).len(),
{
    map.len()
}

/// `IndexMap::get_index`: the entry at an index, if there is one.
#[verifier::external_body]
fn method_map_get_index(map: &IndexMap<u32, usize>, index: usize) -> (r: Option<(u32, usize)>)
    ensures
        r == (if index < method_map_items(*map).len() {
            Some(method_map_items(*map)[index as int])
        } else {
            None
        }),
{
    map.get_index(index).map(|(k, v)| (*k, *v))
}

/// A method of a class: compiled from its definition, or a primitive of
/// the VM.
pub enum ClassMethod<P> {
    Compiled(Method),
    /// A primitive, with its signature and the name of the class that
    /// holds it.
    Primitive { primitive: P, signature: String, holder: String },
}

/// A method of a class, as plain values.
pub enum EntryView<P> {
    Compiled(CompiledView),
    Primitive(P),
}

/// A method of a class as plain values.
pub open spec fn entry_view<P>(m: ClassMethod<P>) -> EntryView<P> {
    match m {
        ClassMethod::Compiled(c) => EntryView::Compiled(method_view(c.kind)),
        ClassMethod::Primitive { primitive, .. } => EntryView::Primitive(primitive),
    }
}

/// The signature of a method of a class.
pub open spec fn entry_signature<P>(m: ClassMethod<P>) -> Seq<char> {
    match m {
        ClassMethod::Compiled(c) => c.signature@,
        ClassMethod::Primitive { signature, .. } => signature@,
    }
}

/// The name of the class that holds a method of a class, if it has one.
pub open spec fn entry_holder<P>(m: ClassMethod<P>) -> Option<Seq<char>> {
    match m {
        ClassMethod::Compiled(c) => match c.holder {
            Some(h) => Some(h@),
            None => None,
        },
        ClassMethod::Primitive { holder, .. } => Some(holder@),
    }
}

/// A compiled class (or metaclass): its name, the names of its fields and
/// their values, its methods in the order they were made, its method table,
/// which maps a signature to the position of its method in that list,
/// whether it is the class side of a class, and the name of its superclass
/// (`None` until it is linked to one).
pub struct CompiledClass<P> {
    pub name: String,
    pub field_names: Vec<Interned>,
    pub fields: Vec<AstNaNBoxedVal>,
    pub methods: IndexMap<u32, usize>,
    pub method_list: Vec<ClassMethod<P>>,
    pub is_static: bool,
    pub super_class: Option<String>,
}

impl<P> CompiledClass<P> {
    /// Links this class to its superclass, named `name`.
    pub fn set_super_class(&mut self, name: &String)
        ensures
            final(self).super_class matches Some(n) && n@ == name@,
            final(self).name == old(self).name,
            final(self).field_names == old(self).field_names,
            final(self).fields == old(self).fields,
            final(self).methods == old(self).methods,
            final(self).method_list == old(self).method_list,
            final(self).is_static == old(self).is_static,
    {
        self.super_class = Some(name.clone());
    }

    /// The methods, as plain values.
    pub open spec fn list_view(&self) -> Seq<EntryView<P>> {
        self.method_list@.map_values(|m: ClassMethod<P>| entry_view(m))
    }

    /// The method table's entries.
    pub open spec fn table(&self) -> Seq<(u32, usize)> {
        method_map_items(self.methods)
    }

    /// The position in the method list of the method a signature names in
    /// this class, if it names one.
    pub fn lookup_method(&self, signature: Interned) -> (r: Option<usize>)
        ensures
            key_position(self.table(), signature.0) >= 0 ==> r == Some(
                self.table()[key_position(self.table(), signature.0)].1,
            ),
            key_position(self.table(), signature.0) < 0 ==> r is None,
    {
        method_map_get(&self.methods, signature.0)
    }

    /// The entries of the method table, in order.
    pub fn method_entries(&self) -> (r: Vec<(Interned, usize)>)
        ensures
            r@.len() == self.table().len(),
            forall|i: int|
                0 <= i < r@.len() ==> (#[trigger] r@[i]).0.0 == self.table()[i].0 && r@[i].1 == self.table()[i].1,
    {
        let n = method_map_len(&self.methods);
        let mut r: Vec<(Interned, usize)> = Vec::new();
        let mut i: usize = 0;
        while i < n
            invariant
                n == self.table().len(),
                i <= n,
                r@.len() == i,
                forall|j: int|
                    0 <= j < i ==> (#[trigger] r@[j]).0.0 == self.table()[j].0 && r@[j].1 == self.table()[j].1,
            decreases n - i,
        {
            let (k, v) = method_map_get_index(&self.methods, i).unwrap();
            r.push((Interned(k), v));
            i += 1;
        }
        r
    }
}

/// Where a signature is found along a superclass chain (a class, its
/// superclass, and so on up to the root), from the `i`th class on: the
/// position in the chain of the first class whose table has it, and the
/// position of its method in that class's list.
pub open spec fn chain_lookup<P>(chain: Seq<CompiledClass<P>>, signature: u32, i: int) -> Option<(usize, usize)>
    decreases chain.len() - i,
{
    if i < 0 || i >= chain.len() {
        None
    } else {
        let t = chain[i].table();
        let p = key_position(t, signature);
        if p >= 0 {
            Some((i as usize, t[p].1))
        } else {
            chain_lookup(chain, signature, i + 1)
        }
    }
}

/// Looking a signature up from the `i`th class of a chain on finds it in
/// the first class from there whose table has it.
proof fn lemma_chain_lookup_from<P>(chain: Seq<CompiledClass<P>>, signature: u32, i: int)
    requires
        0 <= i <= chain.len(),
        chain.len() <= usize::MAX,
    ensures
        match chain_lookup(chain, signature, i) {
            Some((j, m)) => i <= j < chain.len() && key_position(chain[j as int].table(), signature) >= 0 && m
                == chain[j as int].table()[key_position(chain[j as int].table(), signature)].1 && forall|k: int|
                i <= k < j ==> key_position(#[trigger] chain[k].table(), signature) < 0,
            None => forall|k: int| i <= k < chain.len() ==> key_position(#[trigger] chain[k].table(), signature) < 0,
        },
    decreases chain.len() - i,
{
    if i < chain.len() && key_position(chain[i].table(), signature) < 0 {
        lemma_chain_lookup_from(chain, signature, i + 1);
    }
}

/// A method is found along a superclass chain exactly when some class of
/// the chain has its signature, and then in the first such class, nearest
/// the receiver's class, with the method that class's table gives: a class
/// never hides its superclasses' methods but for those it redefines, and a
/// redefinition hides those of every class further up.
pub proof fn lemma_lookup_finds_the_first_holder<P>(chain: Seq<CompiledClass<P>>, signature: u32)
    requires
        chain.len() <= usize::MAX,
    ensures
        match chain_lookup(chain, signature, 0) {
            Some((j, m)) => j < chain.len() && key_position(chain[j as int].table(), signature) >= 0 && m
                == chain[j as int].table()[key_position(chain[j as int].table(), signature)].1 && forall|k: int|
                0 <= k < j ==> key_position(#[trigger] chain[k].table(), signature) < 0,
            None => forall|k: int| 0 <= k < chain.len() ==> key_position(#[trigger] chain[k].table(), signature) < 0,
        },
{
    lemma_chain_lookup_from(chain, signature, 0);
}

/// Looks a signature up along a superclass chain, from the class itself to
/// the root: the position in the chain of the first class that has a
/// method for it, and the position of that method in the class's list.
pub fn lookup_method_in_chain<P>(chain: &Vec<CompiledClass<P>>, signature: Interned) -> (r: Option<(usize, usize)>)
    ensures
        r == chain_lookup(chain@, signature.0, 0),
        match r {
            Some((j, m)) => j < chain@.len() && key_position(chain@[j as int].table(), signature.0) >= 0 && m
                == chain@[j as int].table()[key_position(chain@[j as int].table(), signature.0)].1
                && forall|k: int| 0 <= k < j ==> key_position(#[trigger] chain@[k].table(), signature.0) < 0,
            None => forall|k: int|
                0 <= k < chain@.len() ==> key_position(#[trigger] chain@[k].table(), signature.0) < 0,
        },
{
    let n = chain.len();
    proof {
        lemma_lookup_finds_the_first_holder(chain@, signature.0);
    }
    let mut i: usize = 0;
    while i < n
        invariant
            n == chain@.len(),
            i <= chain@.len(),
            chain_lookup(chain@, signature.0, 0) == chain_lookup(chain@, signature.0, i as int),
        decreases chain@.len() - i,
    {
        match chain[i].lookup_method(signature) {
            Some(m) => {
                proof {
                    lemma_lookup_finds_the_first_holder(chain@, signature.0);
                }
                return Some((i, m));
            },
            None => {},
        }
        i += 1;
    }
    None
}

/// The ids of a list of names.
pub open spec fn ids_of(names: Seq<Interned>) -> Seq<u32> {
    names.map_values(|n: Interned| n.0)
}

/// The first `k` names of a list, interned one after the other: the new
/// table and their ids.
pub open spec fn interned_all(names: Seq<Seq<char>>, xs: Seq<Seq<char>>, k: int) -> Option<
    (Seq<Seq<char>>, Seq<Interned>),
>
    decreases k,
{
    if k <= 0 || k > xs.len() {
        Some((names, Seq::empty()))
    } else {
        match interned_all(names, xs, k - 1) {
            Some((n, ids)) => match intern_name(n, xs[k - 1]) {
                Some((n2, id)) => Some((n2, ids.push(id))),
                None => None,
            },
            None => None,
        }
    }
}

/// The field-name set after inserting the fields of the first `k` classes
/// of a superclass chain, root first.
pub open spec fn chain_fields(s: Seq<u32>, chain: Seq<Seq<Interned>>, k: int) -> Seq<u32>
    decreases k,
{
    if k <= 0 || k > chain.len() {
        s
    } else {
        extend_unique(chain_fields(s, chain, k - 1), ids_of(chain[k - 1]))
    }
}

/// The first `k` method definitions compiled and entered into a class's
/// method list and table, each signature interned before its method is
/// compiled.
pub open spec fn methods_compiled<P>(
    st: GenState,
    fields: Seq<Interned>,
    defs: Seq<MethodDef>,
    k: int,
) -> Option<(GenState, Seq<EntryView<P>>, Seq<(u32, usize)>)>
    decreases k,
{
    if k <= 0 || k > defs.len() {
        Some((st, Seq::empty(), Seq::empty()))
    } else {
        match methods_compiled::<P>(st, fields, defs, k - 1) {
            Some((s, list, map)) => match intern_name(s.names, defs[k - 1].signature@) {
                Some((n, id)) => match method_compiled(GenState { names: n, ..s }, fields, defs[k - 1]) {
                    Some((s2, m)) => Some(
                        (s2, list.push(EntryView::Compiled(m)), map_insert(map, id.0, list.len() as usize)),
                    ),
                    None => None,
                },
                None => None,
            },
            None => None,
        }
    }
}

/// The first `k` primitives of a table added to a class's method list and
/// table, after its compiled methods.
pub open spec fn primitives_installed<P>(
    names: Seq<Seq<char>>,
    table: Seq<PrimInfo<P>>,
    list: Seq<EntryView<P>>,
    map: Seq<(u32, usize)>,
    k: int,
) -> Option<(Seq<Seq<char>>, Seq<EntryView<P>>, Seq<(u32, usize)>)>
    decreases k,
{
    if k <= 0 || k > table.len() {
        Some((names, list, map))
    } else {
        match primitives_installed(names, table, list, map, k - 1) {
            Some((n, l, m)) => match intern_name(n, table[k - 1].0@) {
                Some((n2, id)) => Some(
                    (n2, l.push(EntryView::Primitive(table[k - 1].1)), map_insert(m, id.0, l.len() as usize)),
                ),
                None => None,
            },
            None => None,
        }
    }
}

/// A compiled class, as plain values.
pub struct ClassView<P> {
    pub fields: Seq<Interned>,
    pub list: Seq<EntryView<P>>,
    pub table: Seq<(u32, usize)>,
}

/// One side of a class (the class itself, or its instances) compiled: its
/// field names (those of the superclass chain, then its own, each once),
/// its methods compiled with those fields in scope, then its primitives;
/// the new names and heap, and the class. `None` when the compiler would
/// fail.
pub open spec fn side_compiled<P>(
    st: GenState,
    chain: Seq<Seq<Interned>>,
    locals: Seq<Seq<char>>,
    defs: Seq<MethodDef>,
    table: Seq<PrimInfo<P>>,
) -> Option<(GenState, ClassView<P>)> {
    match interned_all(st.names, locals, locals.len() as int) {
        Some((n, ids)) => {
            let field_ids = field_layout(chain, ids_of(ids));
            let fields = field_ids.map_values(|x: u32| Interned(x));
            match methods_compiled::<P>(GenState { names: n, ..st }, fields, defs, defs.len() as int) {
                Some((s2, list, map)) => match primitives_installed(s2.names, table, list, map, table.len() as int) {
                    Some((n3, l3, m3)) => Some((GenState { names: n3, ..s2 }, ClassView { fields, list: l3, table: m3 })),
                    None => None,
                },
                None => None,
            }
        },
        None => None,
    }
}

/// The names of a list of strings, as plain values.
pub open spec fn names_of(xs: Seq<String>) -> Seq<Seq<char>> {
    xs.map_values(|s: String| s@)
}

/// A compiled class as plain values.
pub open spec fn class_view<P>(c: CompiledClass<P>) -> ClassView<P> {
    ClassView { fields: c.field_names@, list: c.list_view(), table: c.table() }
}

/// Every name of a superclass chain is interned.
pub open spec fn chain_interned(chain: Seq<Seq<Interned>>, names: Seq<Seq<char>>) -> bool {
    forall|i: int, j: int| 0 <= i < chain.len() && 0 <= j < chain[i].len() ==> (#[trigger] chain[i][j]).0 < names.len()
}

/// The field lists of a superclass chain, as plain values.
pub open spec fn chain_view(chain: Seq<Vec<Interned>>) -> Seq<Seq<Interned>> {
    chain.map_values(|v: Vec<Interned>| v@)
}

/// A whole class compiled: first the class side (with the superclass
/// chain's class-side fields and the class-side primitives), then the
/// instance side; the new names and heap, and both classes.
pub open spec fn class_compiled<P>(
    st: GenState,
    static_chain: Seq<Seq<Interned>>,
    instance_chain: Seq<Seq<Interned>>,
    d: ClassDef,
    class_table: Seq<PrimInfo<P>>,
    instance_table: Seq<PrimInfo<P>>,
) -> Option<(GenState, ClassView<P>, ClassView<P>)> {
    match side_compiled(st, static_chain, names_of(d.static_locals@), d.static_methods@, class_table) {
        Some((s1, sv)) => match side_compiled(
            s1,
            instance_chain,
            names_of(d.instance_locals@),
            d.instance_methods@,
            instance_table,
        ) {
            Some((s2, iv)) => Some((s2, sv, iv)),
            None => None,
        },
        None => None,
    }
}

proof fn lemma_interned_prefix(names: Seq<Seq<char>>, xs: Seq<Seq<char>>, j: int, k: int)
    requires
        0 <= j <= k <= xs.len(),
        interned_all(names, xs, k) is Some,
    ensures
        interned_all(names, xs, j) is Some,
    decreases k - j,
{
    if j < k {
        lemma_interned_prefix(names, xs, j, k - 1);
    }
}

proof fn lemma_methods_prefix<P>(st: GenState, fields: Seq<Interned>, defs: Seq<MethodDef>, j: int, k: int)
    requires
        0 <= j <= k <= defs.len(),
        methods_compiled::<P>(st, fields, defs, k) is Some,
    ensures
        methods_compiled::<P>(st, fields, defs, j) is Some,
    decreases k - j,
{
    if j < k {
        lemma_methods_prefix::<P>(st, fields, defs, j, k - 1);
    }
}

proof fn lemma_primitives_prefix<P>(
    names: Seq<Seq<char>>,
    table: Seq<PrimInfo<P>>,
    list: Seq<EntryView<P>>,
    map: Seq<(u32, usize)>,
    j: int,
    k: int,
)
    requires
        0 <= j <= k <= table.len(),
        primitives_installed(names, table, list, map, k) is Some,
    ensures
        primitives_installed(names, table, list, map, j) is Some,
    decreases k - j,
{
    if j < k {
        lemma_primitives_prefix(names, table, list, map, j, k - 1);
    }
}

/// Inserting items below a bound into a set whose items are below it keeps
/// every item below it.
proof fn lemma_extend_bounded(s: Seq<u32>, xs: Seq<u32>, bound: int)
    requires
        forall|i: int| 0 <= i < s.len() ==> s[i] < bound,
        forall|i: int| 0 <= i < xs.len() ==> xs[i] < bound,
    ensures
        forall|i: int| 0 <= i < extend_unique(s, xs).len() ==> extend_unique(s, xs)[i] < bound,
    decreases xs.len(),
{
    if xs.len() > 0 {
        let ys = xs.drop_last();
        assert forall|i: int| 0 <= i < ys.len() implies ys[i] < bound by {
            assert(ys[i] == xs[i]);
        }
        lemma_extend_bounded(s, ys, bound);
        let e = extend_unique(s, ys);
        assert(xs.last() < bound);
        assert forall|i: int| 0 <= i < insert_unique(e, xs.last()).len() implies insert_unique(e, xs.last())[i]
            < bound by {
            if i < e.len() {
                assert(insert_unique(e, xs.last())[i] == e[i]);
            }
        }
    }
}

proof fn lemma_chain_bounded(chain: Seq<Seq<Interned>>, k: int, bound: int)
    requires
        forall|i: int, j: int| 0 <= i < chain.len() && 0 <= j < chain[i].len() ==> (#[trigger] chain[i][j]).0 < bound,
    ensures
        forall|i: int|
            0 <= i < chain_fields(Seq::empty(), chain, k).len() ==> chain_fields(Seq::empty(), chain, k)[i] < bound,
    decreases k,
{
    if 0 < k <= chain.len() {
        lemma_chain_bounded(chain, k - 1, bound);
        let ids = ids_of(chain[k - 1]);
        assert forall|j: int| 0 <= j < ids.len() implies ids[j] < bound by {
            assert(chain[k - 1][j].0 < bound);
        }
        lemma_extend_bounded(chain_fields(Seq::empty(), chain, k - 1), ids, bound);
    }
}

/// What `key_position` answers: the first position holding the key, or -1
/// when no entry holds it.
proof fn lemma_key_position(items: Seq<(u32, usize)>, k: u32)
    ensures
        -1 <= key_position(items, k) < items.len(),
        key_position(items, k) >= 0 ==> items[key_position(items, k)].0 == k,
        forall|i: int| 0 <= i < items.len() && (i < key_position(items, k) || key_position(items, k) < 0) ==> items[i].0 != k,
    decreases items.len(),
{
    if items.len() > 0 && items[0].0 != k {
        let rest = items.drop_first();
        lemma_key_position(rest, k);
        assert forall|i: int| 1 <= i < items.len() implies items[i] == rest[i - 1] by {}
    }
}

/// The first position holding a key is the one `key_position` answers.
proof fn lemma_key_position_at(items: Seq<(u32, usize)>, k: u32, p: int)
    requires
        0 <= p < items.len(),
        items[p].0 == k,
        forall|i: int| 0 <= i < p ==> items[i].0 != k,
    ensures
        key_position(items, k) == p,
{
    lemma_key_position(items, k);
}

/// When no entry holds a key, `key_position` answers -1.
proof fn lemma_key_position_none(items: Seq<(u32, usize)>, k: u32)
    requires
        forall|i: int| 0 <= i < items.len() ==> items[i].0 != k,
    ensures
        key_position(items, k) == -1,
{
    lemma_key_position(items, k);
}

/// After inserting a key into a method table, the key names the inserted
/// value, and every other key names what it named before, at the same
/// position.
pub proof fn lemma_map_insert(items: Seq<(u32, usize)>, k: u32, v: usize)
    ensures
        key_position(map_insert(items, k, v), k) >= 0,
        map_insert(items, k, v)[key_position(map_insert(items, k, v), k)] == (k, v),
        forall|k2: u32|
            k2 != k ==> #[trigger] key_position(map_insert(items, k, v), k2) == key_position(items, k2),
        forall|k2: u32|
            k2 != k && key_position(items, k2) >= 0 ==> #[trigger] map_insert(items, k, v)[key_position(items, k2)]
                == items[key_position(items, k2)],
{
    let r = map_insert(items, k, v);
    let p = key_position(items, k);
    lemma_key_position(items, k);
    if p >= 0 {
        lemma_key_position_at(r, k, p);
    } else {
        lemma_key_position_at(r, k, items.len() as int);
    }
    assert forall|k2: u32| k2 != k implies #[trigger] key_position(r, k2) == key_position(items, k2) by {
        lemma_key_position(items, k2);
        let q = key_position(items, k2);
        if q >= 0 {
            lemma_key_position_at(r, k2, q);
        } else {
            lemma_key_position_none(r, k2);
        }
    }
    assert forall|k2: u32| k2 != k && key_position(items, k2) >= 0 implies #[trigger] r[key_position(items, k2)]
        == items[key_position(items, k2)] by {
        lemma_key_position(items, k2);
    }
}

/// What installing primitives keeps: the table of names only grows at its
/// end and holds no duplicates, the method list only grows at its end, and
/// every signature installed so far is interned.
proof fn lemma_installed_shape<P>(
    names: Seq<Seq<char>>,
    table: Seq<PrimInfo<P>>,
    list: Seq<EntryView<P>>,
    map: Seq<(u32, usize)>,
    k: int,
)
    requires
        names_unique(names),
        0 <= k <= table.len(),
        primitives_installed(names, table, list, map, k) is Some,
    ensures
        ({
            let (n, l, m) = primitives_installed(names, table, list, map, k).unwrap();
            &&& names_unique(n)
            &&& names.len() <= n.len()
            &&& n.subrange(0, names.len() as int) == names
            &&& l.len() == list.len() + k
            &&& l.subrange(0, list.len() as int) == list
            &&& forall|j: int| 0 <= j < k ==> n.contains(#[trigger] table[j].0@)
        }),
    decreases k,
{
    if k == 0 {
        assert(names.subrange(0, names.len() as int) =~= names);
        assert(list.subrange(0, list.len() as int) =~= list);
    } else {
        lemma_installed_shape(names, table, list, map, k - 1);
        let (n1, l1, m1) = primitives_installed(names, table, list, map, k - 1).unwrap();
        let (n2, id) = intern_name(n1, table[k - 1].0@).unwrap();
        lemma_intern_name(n1, table[k - 1].0@);
        let l2 = l1.push(EntryView::Primitive(table[k - 1].1));
        assert(n2.subrange(0, names.len() as int) =~= names) by {
            assert(n1.subrange(0, names.len() as int) == names);
            assert forall|i: int| 0 <= i < names.len() implies n2[i] == names[i] by {
                assert(n2.subrange(0, n1.len() as int)[i] == n1[i]);
                assert(n1.subrange(0, names.len() as int)[i] == names[i]);
            }
        }
        assert(l2.subrange(0, list.len() as int) =~= list) by {
            assert forall|i: int| 0 <= i < list.len() implies l2[i] == list[i] by {
                assert(l1.subrange(0, list.len() as int)[i] == list[i]);
            }
        }
        assert forall|j: int| 0 <= j < k implies n2.contains(#[trigger] table[j].0@) by {
            if j < k - 1 {
                let w = choose|w: int| 0 <= w < n1.len() && n1[w] == table[j].0@;
                assert(n2.subrange(0, n1.len() as int)[w] == n1[w]);
                assert(n2[w] == table[j].0@);
            }
        }
    }
}

/// A primitive replaces, in a class's method table, whatever method its
/// signature named before, and only a later primitive of the same signature
/// replaces it: once the first `k` primitives of a table are installed, the
/// signature of each of them that no later one repeats names that
/// primitive.
pub proof fn lemma_primitives_override<P>(
    names: Seq<Seq<char>>,
    table: Seq<PrimInfo<P>>,
    list: Seq<EntryView<P>>,
    map: Seq<(u32, usize)>,
    k: int,
    j: int,
)
    requires
        names_unique(names),
        0 <= j < k <= table.len(),
        list.len() + k <= usize::MAX,
        primitives_installed(names, table, list, map, k) is Some,
        forall|j2: int| j < j2 < k ==> table[j2].0@ != table[j].0@,
    ensures
        ({
            let (n, l, m) = primitives_installed(names, table, list, map, k).unwrap();
            let p = key_position(m, id_of(n, table[j].0@) as u32);
            &&& p >= 0
            &&& m[p].1 < l.len()
            &&& l[m[p].1 as int] == EntryView::Primitive(table[j].1)
        }),
    decreases k,
{
    lemma_installed_shape(names, table, list, map, k - 1);
    let (n1, l1, m1) = primitives_installed(names, table, list, map, k - 1).unwrap();
    let sig = table[k - 1].0@;
    let (n2, id) = intern_name(n1, sig).unwrap();
    lemma_intern_name(n1, sig);
    let l2 = l1.push(EntryView::Primitive(table[k - 1].1));
    let m2 = map_insert(m1, id.0, l1.len() as usize);
    lemma_map_insert(m1, id.0, l1.len() as usize);
    assert(n1.len() < u32::MAX);
    assert(primitives_installed(names, table, list, map, k) == Some((n2, l2, m2)));
    if j == k - 1 {
        assert(id_of(n2, sig) as u32 == id.0);
        assert(l2[l1.len() as int] == EntryView::Primitive(table[k - 1].1));
    } else {
        lemma_primitives_override(names, table, list, map, k - 1, j);
        let sj = table[j].0@;
        assert(n1.contains(sj));
        assert(id_of(n2, sj) == id_of(n1, sj));
        let key_j = id_of(n1, sj) as u32;
        let w = id_of(n1, sj);
        assert(0 <= w < n1.len() && n1[w] == sj);
        assert(n2.subrange(0, n1.len() as int)[w] == n1[w]);
        assert(n2[w] == sj);
        assert(n2[id_of(n2, sig)] == sig);
        assert(id_of(n2, sig) != w);
        assert(key_j != id.0);
        assert(key_position(m2, key_j) == key_position(m1, key_j));
    }
}

/// No id occurs twice.
pub open spec fn no_dups(s: Seq<u32>) -> bool {
    forall|i: int, j: int| 0 <= i < j < s.len() ==> #[trigger] s[i] != #[trigger] s[j]
}

/// The field layout of a class: the fields of its superclass chain, root
/// first, then its own; a name that occurs again keeps its first place.
pub open spec fn field_layout(chain: Seq<Seq<Interned>>, own: Seq<u32>) -> Seq<u32> {
    extend_unique(chain_fields(Seq::empty(), chain, chain.len() as int), own)
}

/// Inserting items into a set keeps what it held, in place, holds each
/// inserted item, holds nothing else, and stays free of duplicates.
pub proof fn lemma_extend_unique(s: Seq<u32>, xs: Seq<u32>)
    requires
        no_dups(s),
    ensures
        no_dups(extend_unique(s, xs)),
        s.len() <= extend_unique(s, xs).len(),
        extend_unique(s, xs).subrange(0, s.len() as int) == s,
        forall|i: int| 0 <= i < xs.len() ==> extend_unique(s, xs).contains(#[trigger] xs[i]),
        forall|i: int|
            0 <= i < extend_unique(s, xs).len() ==> s.contains(#[trigger] extend_unique(s, xs)[i]) || xs.contains(
                extend_unique(s, xs)[i],
            ),
    decreases xs.len(),
{
    if xs.len() == 0 {
        assert(s.subrange(0, s.len() as int) =~= s);
    } else {
        let ys = xs.drop_last();
        lemma_extend_unique(s, ys);
        let e = extend_unique(s, ys);
        let x = xs.last();
        let r = insert_unique(e, x);
        assert forall|i: int, j: int| 0 <= i < j < r.len() implies #[trigger] r[i] != #[trigger] r[j] by {
            if j == e.len() {
                assert(e[i] != x);
            } else {
                assert(e[i] != e[j]);
            }
        }
        assert(r.subrange(0, s.len() as int) =~= s) by {
            assert forall|i: int| 0 <= i < s.len() implies r[i] == s[i] by {
                assert(e.subrange(0, s.len() as int)[i] == s[i]);
            }
        }
        assert forall|i: int| 0 <= i < xs.len() implies r.contains(#[trigger] xs[i]) by {
            if i < ys.len() {
                assert(ys[i] == xs[i]);
                assert(e.contains(ys[i]));
                let w = choose|w: int| 0 <= w < e.len() && e[w] == ys[i];
                assert(r[w] == e[w]);
            } else {
                if e.contains(x) {
                } else {
                    assert(r[e.len() as int] == x);
                }
            }
        }
        assert forall|i: int| 0 <= i < r.len() implies s.contains(#[trigger] r[i]) || xs.contains(r[i]) by {
            if i < e.len() {
                assert(r[i] == e[i]);
                if ys.contains(e[i]) {
                    let w = choose|w: int| 0 <= w < ys.len() && ys[w] == e[i];
                    assert(xs[w] == ys[w]);
                }
            } else {
                assert(r[i] == xs[xs.len() - 1]);
            }
        }
    }
}

/// The fields of the first `j` classes of a chain come first, in place,
/// among those of the first `k`.
proof fn lemma_chain_prefix(chain: Seq<Seq<Interned>>, j: int, k: int)
    requires
        0 <= j <= k <= chain.len(),
    ensures
        no_dups(chain_fields(Seq::empty(), chain, k)),
        chain_fields(Seq::empty(), chain, j).len() <= chain_fields(Seq::empty(), chain, k).len(),
        chain_fields(Seq::empty(), chain, k).subrange(0, chain_fields(Seq::empty(), chain, j).len() as int)
            == chain_fields(Seq::empty(), chain, j),
    decreases k,
{
    let cj = chain_fields(Seq::empty(), chain, j);
    let ck = chain_fields(Seq::empty(), chain, k);
    if k == 0 {
        assert(cj.subrange(0, cj.len() as int) =~= cj);
    } else if j == k {
        lemma_chain_prefix(chain, k - 1, k - 1);
        lemma_extend_unique(chain_fields(Seq::empty(), chain, k - 1), ids_of(chain[k - 1]));
        assert(cj.subrange(0, cj.len() as int) =~= cj);
    } else {
        lemma_chain_prefix(chain, j, k - 1);
        let c1 = chain_fields(Seq::empty(), chain, k - 1);
        lemma_extend_unique(c1, ids_of(chain[k - 1]));
        assert(ck.subrange(0, cj.len() as int) =~= cj) by {
            assert forall|i: int| 0 <= i < cj.len() implies ck[i] == cj[i] by {
                assert(ck.subrange(0, c1.len() as int)[i] == c1[i]);
                assert(c1.subrange(0, cj.len() as int)[i] == cj[i]);
            }
        }
    }
}

/// A class's field layout names each field once; the fields of the first
/// `k` classes of its superclass chain keep, for every `k`, the places they
/// have there, so a field keeps its index in every subclass; and its own
/// fields are all in it.
pub proof fn lemma_field_layout(chain: Seq<Seq<Interned>>, own: Seq<u32>, k: int)
    requires
        0 <= k <= chain.len(),
    ensures
        no_dups(field_layout(chain, own)),
        chain_fields(Seq::empty(), chain, k).len() <= field_layout(chain, own).len(),
        field_layout(chain, own).subrange(0, chain_fields(Seq::empty(), chain, k).len() as int) == chain_fields(
            Seq::empty(),
            chain,
            k,
        ),
        forall|i: int| 0 <= i < own.len() ==> field_layout(chain, own).contains(#[trigger] own[i]),
{
    let n = chain.len() as int;
    lemma_chain_prefix(chain, k, n);
    let cn = chain_fields(Seq::empty(), chain, n);
    let ck = chain_fields(Seq::empty(), chain, k);
    lemma_extend_unique(cn, own);
    let f = field_layout(chain, own);
    assert(f.subrange(0, ck.len() as int) =~= ck) by {
        assert forall|i: int| 0 <= i < ck.len() implies f[i] == ck[i] by {
            assert(f.subrange(0, cn.len() as int)[i] == cn[i]);
            assert(cn.subrange(0, ck.len() as int)[i] == ck[i]);
        }
    }
}

/// A side of a class as the compiler leaves it: `nil` in each field, the
/// given flag, no superclass yet, and its methods (the compiled ones, then
/// the primitives) held by it, under the signatures of their definitions
/// and of the table.
pub open spec fn side_settled<P>(
    c: CompiledClass<P>,
    is_static: bool,
    defs: Seq<MethodDef>,
    table: Seq<PrimInfo<P>>,
) -> bool {
    &&& c.fields@ == Seq::new(c.field_names@.len(), |k: int| AstNaNBoxedVal::nil_spec())
    &&& c.is_static == is_static
    &&& c.super_class is None
    &&& c.method_list@.len() == defs.len() + table.len()
    &&& forall|i: int| 0 <= i < c.method_list@.len() ==> entry_holder(#[trigger] c.method_list@[i]) == Some(c.name@)
    &&& forall|i: int| 0 <= i < defs.len() ==> entry_signature(#[trigger] c.method_list@[i]) == defs[i].signature@
    &&& forall|j: int|
        0 <= j < table.len() ==> entry_signature(#[trigger] c.method_list@[defs.len() + j]) == table[j].0@
}

/// Compiles one side of a class (see `side_compiled`). Each field starts
/// out `nil`; each method is held by the class, the compiled ones first,
/// with the signatures of their definitions, then the primitives, with
/// those of the table; the class has no superclass yet.
pub fn compile_class_side<P: Copy>(
    name: String,
    is_static: bool,
    chain: &Vec<Vec<Interned>>,
    locals: &Vec<String>,
    defs: &Vec<MethodDef>,
    table: &Vec<PrimInfo<P>>,
    env: &mut CompileEnv,
) -> (r: CompiledClass<P>)
    requires
        old(env).wf(),
        chain_interned(chain_view(chain@), old(env).interner.view()),
        side_compiled(env_state(*old(env)), chain_view(chain@), names_of(locals@), defs@, table@) is Some,
    ensures
        final(env).wf(),
        old(env).interner.view().len() <= final(env).interner.view().len(),
        r.name == name,
        side_compiled(env_state(*old(env)), chain_view(chain@), names_of(locals@), defs@, table@) == Some(
            (env_state(*final(env)), class_view(r)),
        ),
        side_settled(r, is_static, defs@, table@),
        forall|j: int|
            0 <= j < table@.len() && (forall|j2: int| j < j2 < table@.len() ==> table@[j2].0@ != table@[j].0@)
                ==> ({
                let p = key_position(r.table(), id_of(final(env).interner.view(), (#[trigger] table@[j]).0@) as u32);
                &&& p >= 0
                &&& r.table()[p].1 < r.list_view().len()
                &&& r.list_view()[r.table()[p].1 as int] == EntryView::Primitive(table@[j].1)
            }),
{
    let ghost st0 = env_state(*env);
    let ghost xs = names_of(locals@);
    let ghost cv = chain_view(chain@);
    // Intern the names of the fields.
    proof {
        lemma_interned_prefix(st0.names, xs, 0, xs.len() as int);
    }
    let mut ids: Vec<Interned> = Vec::new();
    let mut i: usize = 0;
    while i < locals.len()
        invariant
            env.wf(),
            env.heap == old(env).heap,
            st0 == env_state(*old(env)),
            old(env).interner.view().len() <= env.interner.view().len(),
            xs == names_of(locals@),
            cv == chain_view(chain@),
            i <= locals@.len(),
            interned_all(st0.names, xs, xs.len() as int) is Some,
            interned_all(st0.names, xs, i as int) == Some((env.interner.view(), ids@)),
            forall|j: int| 0 <= j < ids@.len() ==> (#[trigger] ids@[j]).0 < env.interner.view().len(),
            chain_interned(cv, env.interner.view()),
        decreases locals@.len() - i,
    {
        proof {
            lemma_interned_prefix(st0.names, xs, i + 1, xs.len() as int);
        }
        let id = intern_symbol(env, locals[i].as_str());
        ids.push(id);
        i += 1;
    }
    // The field layout: the superclass chain's fields, then these.
    let mut set = field_set_new();
    let mut c: usize = 0;
    while c < chain.len()
        invariant
            cv == chain_view(chain@),
            c <= chain@.len(),
            field_set_items(set) == chain_fields(Seq::empty(), cv, c as int),
        decreases chain@.len() - c,
    {
        field_set_extend(&mut set, &chain[c]);
        c += 1;
    }
    field_set_extend(&mut set, &ids);
    let ghost field_ids = field_set_items(set);
    proof {
        let bound = env.interner.view().len() as int;
        lemma_chain_bounded(cv, cv.len() as int, bound);
        let own = ids@.map_values(|n: Interned| n.0);
        assert forall|j: int| 0 <= j < own.len() implies own[j] < bound by {
            assert(ids@[j].0 < bound);
        }
        lemma_extend_bounded(chain_fields(Seq::empty(), cv, cv.len() as int), own, bound);
    }
    let n = field_set_len(&set);
    let mut fields: Vec<Interned> = Vec::new();
    let mut field_names: Vec<Interned> = Vec::new();
    let mut k: usize = 0;
    while k < n
        invariant
            n == field_ids.len(),
            field_ids == field_set_items(set),
            k <= n,
            fields@ == field_ids.subrange(0, k as int).map_values(|x: u32| Interned(x)),
            field_names@ == fields@,
        decreases n - k,
    {
        let x = field_set_get_index(&set, k).unwrap();
        fields.push(Interned(x));
        field_names.push(Interned(x));
        proof {
            assert(fields@ =~= field_ids.subrange(0, k + 1).map_values(|x: u32| Interned(x)));
        }
        k += 1;
    }
    assert(field_ids.subrange(0, n as int) =~= field_ids);
    env.fields = fields;
    let ghost fields_v = env.fields@;
    let ghost st1 = env_state(*env);
    // The compiled methods.
    proof {
        lemma_methods_prefix::<P>(st1, fields_v, defs@, 0, defs@.len() as int);
    }
    let holder = name.clone();
    let mut map = method_map_new();
    let mut list: Vec<ClassMethod<P>> = Vec::new();
    let mut i: usize = 0;
    while i < defs.len()
        invariant
            holder@ == name@,
            list@.len() == i,
            forall|k: int| 0 <= k < i ==> entry_holder(#[trigger] list@[k]) == Some(name@),
            forall|k: int| 0 <= k < i ==> entry_signature(#[trigger] list@[k]) == defs@[k].signature@,
            env.wf(),
            env.fields@ == fields_v,
            old(env).interner.view().len() <= env.interner.view().len(),
            i <= defs@.len(),
            methods_compiled::<P>(st1, fields_v, defs@, defs@.len() as int) is Some,
            methods_compiled::<P>(st1, fields_v, defs@, i as int) == Some(
                (env_state(*env), list@.map_values(|m: ClassMethod<P>| entry_view(m)), method_map_items(map)),
            ),
        decreases defs@.len() - i,
    {
        proof {
            lemma_methods_prefix::<P>(st1, fields_v, defs@, i + 1, defs@.len() as int);
        }
        let ghost lv = list@.map_values(|m: ClassMethod<P>| entry_view(m));
        let sig = intern_symbol(env, defs[i].signature.as_str());
        let mut m = compile_method(&defs[i], env);
        m.set_holder(&holder);
        let idx = list.len();
        list.push(ClassMethod::Compiled(m));
        method_map_insert(&mut map, sig.0, idx);
        proof {
            assert(list@.map_values(|m: ClassMethod<P>| entry_view(m)) =~= lv.push(
                EntryView::Compiled(method_view(m.kind)),
            ));
        }
        i += 1;
    }
    // The primitives.
    let ghost names2 = env.interner.view();
    let ghost heap2 = env.heap;
    let ghost list2 = list@.map_values(|m: ClassMethod<P>| entry_view(m));
    let ghost map2 = method_map_items(map);
    proof {
        lemma_primitives_prefix(names2, table@, list2, map2, 0, table@.len() as int);
        lemma_wf_names_unique(env.interner);
    }
    let mut j: usize = 0;
    while j < table.len()
        invariant
            holder@ == name@,
            list@.len() == defs@.len() + j,
            forall|k: int| 0 <= k < list@.len() ==> entry_holder(#[trigger] list@[k]) == Some(name@),
            forall|k: int| 0 <= k < defs@.len() ==> entry_signature(#[trigger] list@[k]) == defs@[k].signature@,
            forall|k: int| 0 <= k < j ==> entry_signature(#[trigger] list@[defs@.len() + k]) == table@[k].0@,
            env.wf(),
            env.heap == heap2,
            env.fields@ == fields_v,
            old(env).interner.view().len() <= env.interner.view().len(),
            j <= table@.len(),
            list@.len() == list2.len() + j,
            names_unique(names2),
            primitives_installed(names2, table@, list2, map2, table@.len() as int) is Some,
            primitives_installed(names2, table@, list2, map2, j as int) == Some(
                (
                    env.interner.view(),
                    list@.map_values(|m: ClassMethod<P>| entry_view(m)),
                    method_map_items(map),
                ),
            ),
        decreases table@.len() - j,
    {
        proof {
            lemma_primitives_prefix(names2, table@, list2, map2, j + 1, table@.len() as int);
        }
        let ghost lv = list@.map_values(|m: ClassMethod<P>| entry_view(m));
        let entry = table[j];
        let sig = intern_symbol(env, entry.0);
        let idx = list.len();
        list.push(
            ClassMethod::Primitive { primitive: entry.1, signature: String::from_str(entry.0), holder: holder.clone() },
        );
        method_map_insert(&mut map, sig.0, idx);
        proof {
            assert(list@.map_values(|m: ClassMethod<P>| entry_view(m)) =~= lv.push(EntryView::Primitive(entry.1)));
        }
        j += 1;
    }
    let nf = field_names.len();
    let mut values: Vec<AstNaNBoxedVal> = Vec::new();
    let mut v: usize = 0;
    while v < nf
        invariant
            v <= nf,
            values@ == Seq::new(v as nat, |k: int| AstNaNBoxedVal::nil_spec()),
        decreases nf - v,
    {
        values.push(AstNaNBoxedVal::nil());
        v += 1;
        assert(values@ =~= Seq::new(v as nat, |k: int| AstNaNBoxedVal::nil_spec()));
    }
    let r = CompiledClass {
        name,
        field_names,
        fields: values,
        methods: map,
        method_list: list,
        is_static,
        super_class: None,
    };
    proof {
        assert(r.method_list@.len() == r.method_list.len());
        assert forall|j: int|
            0 <= j < table@.len() && (forall|j2: int| j < j2 < table@.len() ==> table@[j2].0@ != table@[j].0@)
            implies ({
            let p = key_position(r.table(), id_of(env.interner.view(), (#[trigger] table@[j]).0@) as u32);
            &&& p >= 0
            &&& r.table()[p].1 < r.list_view().len()
            &&& r.list_view()[r.table()[p].1 as int] == EntryView::Primitive(table@[j].1)
        }) by {
            lemma_primitives_override(names2, table@, list2, map2, table@.len() as int, j);
        }
    }
    r
}

/// Compiles a class definition: the class side, then the instance side
/// (see `class_compiled`). The chains hold the field names of the
/// superclass chain's classes (for the class side) and of their instances,
/// root first; the tables are the VM's primitives for this class.
pub fn compile_class<P: Copy>(
    defn: &ClassDef,
    super_static_chain: &Vec<Vec<Interned>>,
    super_instance_chain: &Vec<Vec<Interned>>,
    class_table: &Vec<PrimInfo<P>>,
    instance_table: &Vec<PrimInfo<P>>,
    env: &mut CompileEnv,
) -> (r: (CompiledClass<P>, CompiledClass<P>))
    requires
        old(env).wf(),
        chain_interned(chain_view(super_static_chain@), old(env).interner.view()),
        chain_interned(chain_view(super_instance_chain@), old(env).interner.view()),
        class_compiled(
            env_state(*old(env)),
            chain_view(super_static_chain@),
            chain_view(super_instance_chain@),
            *defn,
            class_table@,
            instance_table@,
        ) is Some,
    ensures
        final(env).wf(),
        r.0.name@ == defn.name@ + " class"@,
        r.1.name@ == defn.name@,
        side_settled(r.0, true, defn.static_methods@, class_table@),
        side_settled(r.1, false, defn.instance_methods@, instance_table@),
        class_compiled(
            env_state(*old(env)),
            chain_view(super_static_chain@),
            chain_view(super_instance_chain@),
            *defn,
            class_table@,
            instance_table@,
        ) == Some((env_state(*final(env)), class_view(r.0), class_view(r.1))),
{
    let mut static_name = String::from_str(defn.name.as_str());
    static_name.append(" class");
    let static_class = compile_class_side(
        static_name,
        true,
        super_static_chain,
        &defn.static_locals,
        &defn.static_methods,
        class_table,
        env,
    );
    let instance_class = compile_class_side(
        defn.name.clone(),
        false,
        super_instance_chain,
        &defn.instance_locals,
        &defn.instance_methods,
        instance_table,
        env,
    );
    (static_class, instance_class)
}

} // verus!
