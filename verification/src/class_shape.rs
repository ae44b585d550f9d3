//! A class of the AST interpreter, laid out from its definition: the class
//! and its class side, each with its own field names, `nil` in every field,
//! its superclass, and its methods (those of the definition, compiled, then
//! the primitives of the VM), each held by the class. A field named twice in
//! one list is refused.

use crate::ast::{ClassDef, MethodDef};
use crate::class_compiler::{map_insert, method_map_insert, method_map_items, method_map_new, names_of};
use crate::interner::{id_of, Interner};
use crate::primitives::PrimInfo;
use crate::value::AstNaNBoxedVal;
use indexmap::IndexMap;
use vstd::prelude::*;

verus! {

/// The entries of a map from field names to their values, in insertion
/// order.
pub uninterp spec fn local_map_items(map: IndexMap<String, AstNaNBoxedVal>) -> Seq<(Seq<char>, AstNaNBoxedVal)>;

/// The position of the entry of `key` among `items`, or -1.
pub open spec fn entry_position(items: Seq<(Seq<char>, AstNaNBoxedVal)>, key: Seq<char>) -> int
    decreases items.len(),
{
    if items.len() == 0 {
        -1
    } else if items.last().0 == key {
        items.len() - 1
    } else {
        entry_position(items.drop_last(), key)
    }
}

/// `IndexMap::new`: an empty map.
#[verifier::external_body]
fn local_map_new() -> (r: IndexMap<String, AstNaNBoxedVal>)
    ensures
        local_map_items(r) == Seq::<(Seq<char>, AstNaNBoxedVal)>::empty(),
{
    IndexMap::new()
}

/// `IndexMap::insert`: the value of an existing key is replaced in place
/// and the old value given back; a new key goes last.
#[verifier::external_body]
fn local_map_insert(map: &mut IndexMap<String, AstNaNBoxedVal>, key: String, value: AstNaNBoxedVal) -> (r: Option<
    AstNaNBoxedVal,
>)
    ensures
        ({
            let items = local_map_items(*old(map));
            let p = entry_position(items, key@);
            &&& p >= 0 ==> r == Some(items[p].1) && local_map_items(*final(map)) == items.update(p, (key@, value))
            &&& p < 0 ==> r is None && local_map_items(*final(map)) == items.push((key@, value))
        }),
{
    map.insert(key, value)
}

/// `IndexMap::len`: the number of entries.
#[verifier::external_body]
fn local_map_len(map: &IndexMap<String, AstNaNBoxedVal>) -> (r: usize)
    ensures
        r == local_map_items(*map).len(),
{
    map.len()
}

/// The first name of a list, among its first `k`, that repeats a name
/// before it.
pub open spec fn first_repeat(xs: Seq<Seq<char>>, k: int) -> Option<Seq<char>>
    decreases k,
{
    if k <= 0 || k > xs.len() {
        None
    } else {
        match first_repeat(xs, k - 1) {
            Some(x) => Some(x),
            None => if xs.subrange(0, k - 1).contains(xs[k - 1]) {
                Some(xs[k - 1])
            } else {
                None
            },
        }
    }
}

/// The code of a method of a class: what the method compiler made of its
/// definition, or a primitive of the VM.
pub enum AstMethodKind<K, P> {
    Defined(K),
    Primitive(P),
}

/// A method of a class: its code, its signature, and the name of the class
/// that holds it.
pub struct AstMethod<K, P> {
    pub kind: AstMethodKind<K, P>,
    pub signature: String,
    pub holder: String,
}

/// A class laid out from its definition: its name, its field names and
/// their values, whether it is the class side, the name of its superclass,
/// if it has one, its methods in the order they were made, and its method
/// table, which maps a signature's id to the position of its method in
/// that list.
pub struct ClassShape<K, P> {
    pub name: String,
    pub field_names: Vec<String>,
    pub fields: Vec<AstNaNBoxedVal>,
    pub is_static: bool,
    pub super_class: Option<String>,
    pub methods: IndexMap<u32, usize>,
    pub method_list: Vec<AstMethod<K, P>>,
}

/// The signatures of a side of a class: those of its definitions, then
/// those of its primitives.
pub open spec fn side_signatures<P>(defs: Seq<MethodDef>, table: Seq<PrimInfo<P>>) -> Seq<Seq<char>> {
    defs.map_values(|d: MethodDef| d.signature@) + table.map_values(|e: PrimInfo<P>| e.0@)
}

/// The first `k` signatures interned one after the other, each entered in
/// a method table under its id with its position: the new names, and the
/// table.
pub open spec fn signatures_entered(names: Seq<Seq<char>>, sigs: Seq<Seq<char>>, k: int) -> (
    Seq<Seq<char>>,
    Seq<(u32, usize)>,
)
    decreases k,
{
    if k <= 0 || k > sigs.len() {
        (names, Seq::empty())
    } else {
        let (n, m) = signatures_entered(names, sigs, k - 1);
        let n2 = if n.contains(sigs[k - 1]) {
            n
        } else {
            n.push(sigs[k - 1])
        };
        (n2, map_insert(m, id_of(n2, sigs[k - 1]) as u32, (k - 1) as usize))
    }
}

/// The methods of a side of a class, as the layout leaves them: one per
/// definition, with the code compiled from it, then one per primitive, each
/// under its signature and held by the class named `holder`.
pub open spec fn methods_laid_out<K, P>(
    list: Seq<AstMethod<K, P>>,
    holder: Seq<char>,
    defs: Seq<MethodDef>,
    kinds: Seq<K>,
    table: Seq<PrimInfo<P>>,
) -> bool {
    &&& list.len() == defs.len() + table.len()
    &&& forall|i: int| 0 <= i < list.len() ==> (#[trigger] list[i]).holder@ == holder
    &&& forall|i: int|
        0 <= i < defs.len() ==> (#[trigger] list[i]).kind == AstMethodKind::<K, P>::Defined(kinds[i])
            && list[i].signature@ == defs[i].signature@
    &&& forall|j: int|
        0 <= j < table.len() ==> (#[trigger] list[defs.len() + j]).kind == AstMethodKind::<K, P>::Primitive(
            table[j].1,
        ) && list[defs.len() + j].signature@ == table[j].0@
}

/// Makes the methods of a side of a class: one for each definition, from
/// the code compiled for it, then one for each primitive, all held by the
/// class named `holder`, each entered in the method table under its
/// interned signature.
fn lay_out_methods<K, P: Copy>(
    holder: &String,
    defs: &Vec<MethodDef>,
    kinds: Vec<K>,
    table: &Vec<PrimInfo<P>>,
    interner: &mut Interner,
) -> (r: (IndexMap<u32, usize>, Vec<AstMethod<K, P>>))
    requires
        old(interner).wf(),
        old(interner).view().len() + defs@.len() + table@.len() < u32::MAX,
        kinds@.len() == defs@.len(),
    ensures
        final(interner).wf(),
        final(interner).view().len() <= old(interner).view().len() + defs@.len() + table@.len(),
        ({
            let sigs = side_signatures(defs@, table@);
            signatures_entered(old(interner).view(), sigs, sigs.len() as int) == (
                final(interner).view(),
                method_map_items(r.0),
            )
        }),
        methods_laid_out(r.1@, holder@, defs@, kinds@, table@),
{
    let ghost sigs = side_signatures(defs@, table@);
    let ghost base = interner.view();
    let ghost all_kinds = kinds@;
    let mut kinds = kinds;
    let mut map = method_map_new();
    let mut list: Vec<AstMethod<K, P>> = Vec::new();
    let mut i: usize = 0;
    while i < defs.len()
        invariant
            interner.wf(),
            sigs == side_signatures(defs@, table@),
            base.len() + defs@.len() + table@.len() < u32::MAX,
            i <= defs@.len(),
            all_kinds.len() == defs@.len(),
            kinds@ == all_kinds.subrange(i as int, all_kinds.len() as int),
            interner.view().len() <= base.len() + i,
            signatures_entered(base, sigs, i as int) == (interner.view(), method_map_items(map)),
            list@.len() == i,
            forall|k: int| 0 <= k < i ==> (#[trigger] list@[k]).holder@ == holder@,
            forall|k: int|
                0 <= k < i ==> (#[trigger] list@[k]).kind == AstMethodKind::<K, P>::Defined(all_kinds[k])
                    && list@[k].signature@ == defs@[k].signature@,
        decreases defs@.len() - i,
    {
        assert(sigs[i as int] == defs@[i as int].signature@);
        let id = interner.intern(defs[i].signature.as_str());
        let kind = kinds.remove(0);
        assert(kinds@ =~= all_kinds.subrange(i + 1, all_kinds.len() as int));
        method_map_insert(&mut map, id.0, i);
        list.push(AstMethod { kind: AstMethodKind::Defined(kind), signature: defs[i].signature.clone(), holder: holder.clone() });
        i += 1;
    }
    let mut j: usize = 0;
    while j < table.len()
        invariant
            interner.wf(),
            sigs == side_signatures(defs@, table@),
            base.len() + defs@.len() + table@.len() < u32::MAX,
            j <= table@.len(),
            interner.view().len() <= base.len() + defs@.len() + j,
            signatures_entered(base, sigs, defs@.len() + j) == (interner.view(), method_map_items(map)),
            list@.len() == defs@.len() + j,
            forall|k: int| 0 <= k < list@.len() ==> (#[trigger] list@[k]).holder@ == holder@,
            forall|k: int|
                0 <= k < defs@.len() ==> (#[trigger] list@[k]).kind == AstMethodKind::<K, P>::Defined(all_kinds[k])
                    && list@[k].signature@ == defs@[k].signature@,
            forall|k: int|
                0 <= k < j ==> (#[trigger] list@[defs@.len() + k]).kind == AstMethodKind::<K, P>::Primitive(
                    table@[k].1,
                ) && list@[defs@.len() + k].signature@ == table@[k].0@,
        decreases table@.len() - j,
    {
        assert(sigs[defs@.len() + j] == table@[j as int].0@);
        let entry = table[j];
        let id = interner.intern(entry.0);
        let idx = list.len();
        method_map_insert(&mut map, id.0, idx);
        list.push(
            AstMethod { kind: AstMethodKind::Primitive(entry.1), signature: String::from_str(entry.0), holder: holder.clone() },
        );
        j += 1;
    }
    (map, list)
}

/// A field named twice in one list of a class definition.
#[derive(Debug)]
pub struct DuplicateField {
    pub class_name: String,
    pub field: String,
}

/// The class side of a class named `name` is named `name class`.
pub open spec fn class_side_name(name: Seq<char>) -> Seq<char> {
    name + " class"@
}

/// What a class shape laid out from a list of fields holds.
pub open spec fn shape_of<K, P>(
    c: ClassShape<K, P>,
    name: Seq<char>,
    fields: Seq<String>,
    is_static: bool,
    super_class: Option<Seq<char>>,
) -> bool {
    &&& c.name@ == name
    &&& c.field_names@ == fields
    &&& c.fields@ == Seq::new(fields.len(), |k: int| AstNaNBoxedVal::nil_spec())
    &&& c.is_static == is_static
    &&& match c.super_class {
        Some(s) => super_class == Some(s@),
        None => super_class is None,
    }
}

/// Checks that no field is named twice in `fields`: the number of distinct
/// names, or the first name that repeats one before it.
fn distinct_fields(fields: &Vec<String>) -> (r: Result<usize, String>)
    ensures
        match first_repeat(names_of(fields@), fields@.len() as int) {
            Some(f) => r matches Err(e) && e@ == f,
            None => r matches Ok(n) && n == fields@.len(),
        },
{
    let ghost xs = names_of(fields@);
    let mut map = local_map_new();
    let mut i: usize = 0;
    while i < fields.len()
        invariant
            xs == names_of(fields@),
            i <= fields@.len(),
            first_repeat(xs, i as int) is None,
            local_map_items(map).len() == i,
            forall|k: int| 0 <= k < i ==> (#[trigger] local_map_items(map)[k]).0 == xs[k],
        decreases fields@.len() - i,
    {
        let ghost items = local_map_items(map);
        let ghost seen = xs.subrange(0, i as int);
        proof {
            lemma_position_in_prefix(items, seen, xs[i as int]);
        }
        let old_value = local_map_insert(&mut map, fields[i].clone(), AstNaNBoxedVal::nil());
        if old_value.is_some() {
            proof {
                assert(first_repeat(xs, i + 1) == Some(xs[i as int]));
                lemma_first_repeat_stays(xs, i + 1, fields@.len() as int);
            }
            return Err(fields[i].clone());
        }
        assert(first_repeat(xs, i + 1) is None);
        i += 1;
    }
    let n = local_map_len(&map);
    Ok(n)
}

/// The entry of a key lies among the first entries exactly when the key
/// is among their names.
proof fn lemma_position_in_prefix(items: Seq<(Seq<char>, AstNaNBoxedVal)>, names: Seq<Seq<char>>, key: Seq<char>)
    requires
        items.len() == names.len(),
        forall|k: int| 0 <= k < items.len() ==> (#[trigger] items[k]).0 == names[k],
    ensures
        entry_position(items, key) >= 0 <==> names.contains(key),
        entry_position(items, key) < items.len(),
    decreases items.len(),
{
    if items.len() > 0 {
        let n = items.len() - 1;
        lemma_position_in_prefix(items.drop_last(), names.drop_last(), key);
        if names.contains(key) && items.last().0 != key {
            let j = choose|j: int| 0 <= j < names.len() && names[j] == key;
            assert(names.drop_last()[j] == key);
        }
        if names.drop_last().contains(key) {
            let j = choose|j: int| 0 <= j < names.drop_last().len() && names.drop_last()[j] == key;
            assert(names[j] == key);
        }
        assert(names[n] == items[n].0);
    }
}

/// Once a name repeats, it stays the first that does.
proof fn lemma_first_repeat_stays(xs: Seq<Seq<char>>, j: int, k: int)
    requires
        0 <= j <= k <= xs.len(),
        first_repeat(xs, j) is Some,
    ensures
        first_repeat(xs, k) == first_repeat(xs, j),
    decreases k - j,
{
    if j < k {
        lemma_first_repeat_stays(xs, j, k - 1);
    }
}

/// `nil` in each of `n` fields.
fn nil_fields(n: usize) -> (r: Vec<AstNaNBoxedVal>)
    ensures
        r@ == Seq::new(n as nat, |k: int| AstNaNBoxedVal::nil_spec()),
{
    let mut values: Vec<AstNaNBoxedVal> = Vec::new();
    let mut v: usize = 0;
    while v < n
        invariant
            v <= n,
            values@ == Seq::new(v as nat, |k: int| AstNaNBoxedVal::nil_spec()),
        decreases n - v,
    {
        values.push(AstNaNBoxedVal::nil());
        v += 1;
        assert(values@ =~= Seq::new(v as nat, |k: int| AstNaNBoxedVal::nil_spec()));
    }
    values
}

/// A copy of a list of names.
fn copy_names(xs: &Vec<String>) -> (r: Vec<String>)
    ensures
        r@ == xs@,
{
    let mut r: Vec<String> = Vec::new();
    let mut i: usize = 0;
    while i < xs.len()
        invariant
            i <= xs@.len(),
            r@ == xs@.subrange(0, i as int),
        decreases xs@.len() - i,
    {
        r.push(xs[i].clone());
        i += 1;
        assert(r@ =~= xs@.subrange(0, i as int));
    }
    assert(xs@.subrange(0, xs@.len() as int) =~= xs@);
    r
}

/// The name of the superclass of a class side, given that of the class.
pub open spec fn super_of_class_side(super_class: Option<String>) -> Option<Seq<char>> {
    match super_class {
        Some(n) => Some(class_side_name(n@)),
        None => None,
    }
}

/// The name of a superclass, as plain characters.
pub open spec fn super_name(super_class: Option<String>) -> Option<Seq<char>> {
    match super_class {
        Some(n) => Some(n@),
        None => None,
    }
}

/// Both sides of a class laid out: the class side first, then the class,
/// each with the fields and methods of its part of the definition, the
/// method tables built by interning the signatures into `names`, the class
/// side's signatures first; `after` is the table of names once all are
/// interned.
pub open spec fn class_laid_out<K, P>(
    s: ClassShape<K, P>,
    i: ClassShape<K, P>,
    defn: ClassDef,
    super_class: Option<String>,
    static_kinds: Seq<K>,
    instance_kinds: Seq<K>,
    class_table: Seq<PrimInfo<P>>,
    instance_table: Seq<PrimInfo<P>>,
    names: Seq<Seq<char>>,
    after: Seq<Seq<char>>,
) -> bool {
    let ss = side_signatures(defn.static_methods@, class_table);
    let (n1, t1) = signatures_entered(names, ss, ss.len() as int);
    let is = side_signatures(defn.instance_methods@, instance_table);
    let (n2, t2) = signatures_entered(n1, is, is.len() as int);
    &&& shape_of(s, class_side_name(defn.name@), defn.static_locals@, true, super_of_class_side(super_class))
    &&& shape_of(i, defn.name@, defn.instance_locals@, false, super_name(super_class))
    &&& methods_laid_out(s.method_list@, s.name@, defn.static_methods@, static_kinds, class_table)
    &&& methods_laid_out(i.method_list@, i.name@, defn.instance_methods@, instance_kinds, instance_table)
    &&& method_map_items(s.methods) == t1
    &&& method_map_items(i.methods) == t2
    &&& after == n2
}

impl<K, P: Copy> ClassShape<K, P> {
    /// Lays out a class and its class side from a definition, under the
    /// superclass named `super_class` (whose class side is named
    /// `super_class class`). The class-side fields are checked first, then
    /// the instance fields: the first field named twice in a list is
    /// refused, and then no name is interned. Otherwise each side gets its
    /// methods: first those of the definition, with the code the method
    /// compiler made of them (`static_kinds`, `instance_kinds`, in the order
    /// of the definitions), then the VM's primitives for it, all held by
    /// that side; the class side's signatures are interned first.
    pub fn from_class_def(
        defn: &ClassDef,
        super_class: Option<String>,
        static_kinds: Vec<K>,
        instance_kinds: Vec<K>,
        class_table: &Vec<PrimInfo<P>>,
        instance_table: &Vec<PrimInfo<P>>,
        interner: &mut Interner,
    ) -> (r: Result<(ClassShape<K, P>, ClassShape<K, P>), DuplicateField>)
        requires
            old(interner).wf(),
            static_kinds@.len() == defn.static_methods@.len(),
            instance_kinds@.len() == defn.instance_methods@.len(),
            old(interner).view().len() + defn.static_methods@.len() + class_table@.len()
                + defn.instance_methods@.len() + instance_table@.len() < u32::MAX,
        ensures
            final(interner).wf(),
            ({
                let statics = names_of(defn.static_locals@);
                let instances = names_of(defn.instance_locals@);
                match first_repeat(statics, statics.len() as int) {
                    Some(f) => r matches Err(e) && e.class_name@ == defn.name@ && e.field@ == f
                        && final(interner).view() == old(interner).view(),
                    None => match first_repeat(instances, instances.len() as int) {
                        Some(f) => r matches Err(e) && e.class_name@ == defn.name@ && e.field@ == f
                            && final(interner).view() == old(interner).view(),
                        None => r matches Ok((s, i)) && class_laid_out(
                            s,
                            i,
                            *defn,
                            super_class,
                            static_kinds@,
                            instance_kinds@,
                            class_table@,
                            instance_table@,
                            old(interner).view(),
                            final(interner).view(),
                        ),
                    },
                }
            }),
    {
        let static_count = match distinct_fields(&defn.static_locals) {
            Ok(n) => n,
            Err(field) => {
                return Err(DuplicateField { class_name: defn.name.clone(), field });
            },
        };
        let instance_count = match distinct_fields(&defn.instance_locals) {
            Ok(n) => n,
            Err(field) => {
                return Err(DuplicateField { class_name: defn.name.clone(), field });
            },
        };
        let static_super = match &super_class {
            Some(n) => {
                let mut s = n.clone();
                s.append(" class");
                Some(s)
            },
            None => None,
        };
        let mut static_name = defn.name.clone();
        static_name.append(" class");
        let (static_map, static_list) = lay_out_methods(
            &static_name,
            &defn.static_methods,
            static_kinds,
            class_table,
            interner,
        );
        let instance_name = defn.name.clone();
        let (instance_map, instance_list) = lay_out_methods(
            &instance_name,
            &defn.instance_methods,
            instance_kinds,
            instance_table,
            interner,
        );
        let static_class = ClassShape {
            name: static_name,
            field_names: copy_names(&defn.static_locals),
            fields: nil_fields(static_count),
            is_static: true,
            super_class: static_super,
            methods: static_map,
            method_list: static_list,
        };
        let instance_class = ClassShape {
            name: instance_name,
            field_names: copy_names(&defn.instance_locals),
            fields: nil_fields(instance_count),
            is_static: false,
            super_class,
            methods: instance_map,
            method_list: instance_list,
        };
        Ok((static_class, instance_class))
    }
}

} // verus!
