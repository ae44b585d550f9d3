//! The universe's table of global bindings: a list of (name, value) pairs
//! in the order they were made. Assigning a global appends a binding, and a
//! lookup finds the latest binding of a name, so an assignment to a global
//! that is bound already gives it the new value.

use crate::value::{AstNaNBoxedVal, Interned};
use vstd::prelude::*;

verus! {

/// The global bindings, in the order they were made.
pub struct Globals {
    pub entries: Vec<(Interned, AstNaNBoxedVal)>,
}

/// The value of the latest binding of `name` among `entries`, if any.
pub open spec fn latest_binding(entries: Seq<(Interned, AstNaNBoxedVal)>, name: Interned) -> Option<AstNaNBoxedVal>
    decreases entries.len(),
{
    if entries.len() == 0 {
        None
    } else if entries.last().0 == name {
        Some(entries.last().1)
    } else {
        latest_binding(entries.drop_last(), name)
    }
}

impl Globals {
    /// An empty table.
    pub fn new() -> (r: Globals)
        ensures
            r.entries@ == Seq::<(Interned, AstNaNBoxedVal)>::empty(),
    {
        Globals { entries: Vec::new() }
    }

    /// The value of a global, if it is bound.
    pub fn lookup_global(&self, name: Interned) -> (r: Option<AstNaNBoxedVal>)
        ensures
            r == latest_binding(self.entries@, name),
    {
        let mut i: usize = self.entries.len();
        assert(self.entries@.subrange(0, i as int) =~= self.entries@);
        while i > 0
            invariant
                i <= self.entries@.len(),
                latest_binding(self.entries@, name) == latest_binding(self.entries@.subrange(0, i as int), name),
            decreases i,
        {
            let ghost prefix = self.entries@.subrange(0, i as int);
            assert(prefix.drop_last() =~= self.entries@.subrange(0, i - 1));
            if self.entries[i - 1].0 == name {
                return Some(self.entries[i - 1].1);
            }
            i -= 1;
        }
        None
    }

    /// Whether a global is bound.
    pub fn has_global(&self, name: Interned) -> (r: bool)
        ensures
            r == latest_binding(self.entries@, name) is Some,
    {
        self.lookup_global(name).is_some()
    }

    /// Assigns a value to a global: the new binding comes after the others,
    /// so the global has that value from now on, and every other global
    /// keeps its own.
    pub fn assign_global(&mut self, name: Interned, value: AstNaNBoxedVal)
        ensures
            final(self).entries@ == old(self).entries@.push((name, value)),
            latest_binding(final(self).entries@, name) == Some(value),
            forall|other: Interned|
                other != name ==> latest_binding(#[trigger] final(self).entries@, other) == latest_binding(
                    old(self).entries@,
                    other,
                ),
    {
        self.entries.push((name, value));
        assert(self.entries@.drop_last() =~= old(self).entries@);
    }
}

} // verus!
