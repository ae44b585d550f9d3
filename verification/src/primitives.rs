//! The primitive tables: for each class with built-in methods, the selectors it
//! implements natively, looked up by signature when a class is loaded.

use vstd::prelude::*;

pub mod array;
pub mod blocks;
pub mod class;
pub mod double;
pub mod false_class;
pub mod integer;
pub mod method;
pub mod string;
pub mod system;
pub mod true_class;

verus! {

/// Why a primitive refused its arguments.
#[derive(Clone, Copy, Debug, PartialEq, Eq, Structural)]
pub enum PrimitiveError {
    /// An index below the first position.
    NegativeIndex,
    /// An index past the last position.
    IndexOutOfBounds,
    /// A value that does not fit in the type the primitive needs.
    OutOfRange,
    /// A range too large to pick a random value from.
    RangeTooBig,
}

/// An entry of a primitive table: the selector, the primitive it names, and
/// whether a missing implementation is worth a warning.
pub type PrimInfo<P> = (&'static str, P, bool);

/// The primitive of the first entry whose selector is `signature`.
pub open spec fn find_in_table<P>(table: Seq<PrimInfo<P>>, signature: Seq<char>) -> Option<P>
    decreases table.len(),
{
    if table.len() == 0 {
        None
    } else if table[0].0@ == signature {
        Some(table[0].1)
    } else {
        find_in_table(table.drop_first(), signature)
    }
}

/// Whether two strings hold the same characters.
pub fn str_eq(a: &str, b: &str) -> (r: bool)
    ensures
        r == (a@ == b@),
{
    let n = a.unicode_len();
    if n != b.unicode_len() {
        return false;
    }
    let mut i: usize = 0;
    while i < n
        invariant
            n == a@.len(),
            n == b@.len(),
            i <= n,
            forall|k: int| 0 <= k < i ==> a@[k] == b@[k],
        decreases n - i,
    {
        if a.get_char(i) != b.get_char(i) {
            return false;
        }
        i += 1;
    }
    assert(a@ =~= b@);
    true
}

/// Searches a primitive table for the first entry whose selector is
/// `signature`.
pub fn find_primitive<P: Copy>(table: &Vec<PrimInfo<P>>, signature: &str) -> (r: Option<P>)
    ensures
        r == find_in_table(table@, signature@),
{
    let mut i: usize = 0;
    assert(table@.skip(0) =~= table@);
    while i < table.len()
        invariant
            i <= table@.len(),
            find_in_table(table@, signature@) == find_in_table(table@.skip(i as int), signature@),
        decreases table@.len() - i,
    {
        assert(table@.skip(i as int)[0] == table@[i as int]);
        if str_eq(table[i].0, signature) {
            return Some(table[i].1);
        }
        assert(table@.skip(i as int).drop_first() =~= table@.skip(i + 1));
        i += 1;
    }
    None
}

} // verus!
