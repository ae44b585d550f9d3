//! The literal table of a code generation context: an insertion-ordered set
//! (`indexmap::IndexSet`) of literals, each held as a small key of plain
//! integers that identifies it.

use crate::compiler::Literal;
use crate::value::Interned;
use indexmap::IndexSet;
use vstd::prelude::*;

verus! {

#[verifier::external_type_specification]
#[verifier::external_body]
#[verifier::reject_recursive_types(T)]
#[verifier::reject_recursive_types(S)]
pub struct ExIndexSet<T, S>(IndexSet<T, S>);

/// The items of a set of literal keys, in insertion order.
pub uninterp spec fn literal_set_items(set: IndexSet<(u8, u64)>) -> Seq<(u8, u64)>;

/// The key of a literal: a tag for its kind, and its payload (the symbol's
/// id, the object's address, the double's bits, the integer's bits). Two
/// doubles are one constant when their bits are the same, so `0.0` and
/// `-0.0` stay apart and two NaN of the same bits share a slot (a literal
/// in source text is never NaN).
pub open spec fn literal_key(l: Literal) -> (u8, u64) {
    match l {
        Literal::Symbol(s) => (0, s.0 as u64),
        Literal::String(a) => (1, a),
        Literal::Double(b) => (2, b),
        Literal::Integer(i) => (3, (i as u32) as u64),
        Literal::BigInteger(a) => (4, a),
        Literal::Array(a) => (5, a),
        Literal::Block(a) => (6, a),
    }
}

/// Whether a key is the key of some literal.
pub open spec fn valid_key(k: (u8, u64)) -> bool {
    k.0 <= 6 && (k.0 == 0 ==> k.1 <= u32::MAX) && (k.0 == 3 ==> k.1 <= u32::MAX)
}

/// The literal a valid key stands for.
pub open spec fn key_literal(k: (u8, u64)) -> Literal {
    if k.0 == 0 {
        Literal::Symbol(Interned(k.1 as u32))
    } else if k.0 == 1 {
        Literal::String(k.1)
    } else if k.0 == 2 {
        Literal::Double(k.1)
    } else if k.0 == 3 {
        Literal::Integer((k.1 as u32) as i32)
    } else if k.0 == 4 {
        Literal::BigInteger(k.1)
    } else if k.0 == 5 {
        Literal::Array(k.1)
    } else {
        Literal::Block(k.1)
    }
}

/// A literal's key is valid and stands for the literal; a valid key is the
/// key of the literal it stands for.
pub proof fn lemma_literal_key_roundtrip(l: Literal, k: (u8, u64))
    ensures
        valid_key(literal_key(l)),
        key_literal(literal_key(l)) == l,
        valid_key(k) ==> literal_key(key_literal(k)) == k,
{
    match l {
        Literal::Integer(i) => {
            assert(((i as u32) as u64) as u32 as i32 == i) by (bit_vector);
        },
        _ => {},
    }
    if valid_key(k) && k.0 == 3 {
        let x = k.1;
        assert(x <= 0xffff_ffff ==> ((((x as u32) as i32) as u32) as u64) == x) by (bit_vector);
    }
    if valid_key(k) && k.0 == 0 {
        let x = k.1;
        assert(x <= 0xffff_ffff ==> ((x as u32) as u64) == x) by (bit_vector);
    }
}

/// The key of a literal.
pub fn literal_to_key(l: Literal) -> (r: (u8, u64))
    ensures
        r == literal_key(l),
{
    match l {
        Literal::Symbol(s) => (0, s.0 as u64),
        Literal::String(a) => (1, a),
        Literal::Double(b) => (2, b),
        Literal::Integer(i) => (3, (i as u32) as u64),
        Literal::BigInteger(a) => (4, a),
        Literal::Array(a) => (5, a),
        Literal::Block(a) => (6, a),
    }
}

/// The literal a valid key stands for.
pub fn key_to_literal(k: (u8, u64)) -> (r: Literal)
    requires
        valid_key(k),
    ensures
        r == key_literal(k),
{
    if k.0 == 0 {
        Literal::Symbol(Interned(k.1 as u32))
    } else if k.0 == 1 {
        Literal::String(k.1)
    } else if k.0 == 2 {
        Literal::Double(k.1)
    } else if k.0 == 3 {
        Literal::Integer((k.1 as u32) as i32)
    } else if k.0 == 4 {
        Literal::BigInteger(k.1)
    } else if k.0 == 5 {
        Literal::Array(k.1)
    } else {
        Literal::Block(k.1)
    }
}

/// `IndexSet::new`: an empty set.
#[verifier::external_body]
pub(crate) fn literal_set_new() -> (r: IndexSet<(u8, u64)>)
    ensures
        literal_set_items(r) == Seq::<(u8, u64)>::empty(),
{
    IndexSet::new()
}

/// `IndexSet::len`: the number of items.
#[verifier::external_body]
pub(crate) fn literal_set_len(set: &IndexSet<(u8, u64)>) -> (r: usize)
    ensures
        r == literal_set_items(*set).len(),
{
    set.len()
}

/// `IndexSet::insert_full`: when an equal item is in the set, its index, the
/// set unchanged; otherwise the item goes at the end, and its index is the
/// old length. The flag tells whether the item was added.
#[verifier::external_body]
pub(crate) fn literal_set_insert_full(set: &mut IndexSet<(u8, u64)>, key: (u8, u64)) -> (r: (usize, bool))
    ensures
        literal_set_items(*old(set)).contains(key) ==> {
            &&& literal_set_items(*final(set)) == literal_set_items(*old(set))
            &&& r.0 < literal_set_items(*old(set)).len()
            &&& literal_set_items(*old(set))[r.0 as int] == key
            &&& !r.1
        },
        !literal_set_items(*old(set)).contains(key) ==> {
            &&& literal_set_items(*final(set)) == literal_set_items(*old(set)).push(key)
            &&& r.0 == literal_set_items(*old(set)).len()
            &&& r.1
        },
{
    set.insert_full(key)
}

/// `IndexSet::get_index`: the item at an index, if there is one.
#[verifier::external_body]
pub(crate) fn literal_set_get_index(set: &IndexSet<(u8, u64)>, index: usize) -> (r: Option<(u8, u64)>)
    ensures
        r == (if index < literal_set_items(*set).len() {
            Some(literal_set_items(*set)[index as int])
        } else {
            None
        }),
{
    set.get_index(index).copied()
}

/// `IndexSet::shift_remove_index`: removes the item at an index, shifting the
/// ones after it, and gives it back; nothing happens past the end.
#[verifier::external_body]
pub(crate) fn literal_set_shift_remove_index(set: &mut IndexSet<(u8, u64)>, index: usize) -> (r: Option<(u8, u64)>)
    ensures
        index < literal_set_items(*old(set)).len() ==> r == Some(literal_set_items(*old(set))[index as int])
            && literal_set_items(*final(set)) == literal_set_items(*old(set)).remove(index as int),
        index >= literal_set_items(*old(set)).len() ==> r is None && literal_set_items(*final(set))
            == literal_set_items(*old(set)),
{
    set.shift_remove_index(index)
}

} // verus!
