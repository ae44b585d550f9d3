//! The symbol interner: maps strings to small integer ids and back.

use crate::value::Interned;
use vstd::prelude::*;

verus! {

/// A table of interned strings, kept in the order they were first interned:
/// the id of a string is its position, and a string is found again by a
/// linear search.
pub struct Interner {
    strings: Vec<String>,
}

impl Interner {
    /// The interned strings, in the order of their ids.
    pub closed spec fn view(&self) -> Seq<Seq<char>> {
        self.strings@.map_values(|s: String| s@)
    }

    /// No string is interned twice, and every id fits in 32 bits.
    pub closed spec fn wf(&self) -> bool {
        &&& self.strings@.len() <= u32::MAX
        &&& forall|i: int, j: int|
            0 <= i < j < self.strings@.len() ==> #[trigger] self.strings@[i]@ != #[trigger] self.strings@[j]@
    }

    /// Creates an empty interner.
    pub fn new() -> (r: Self)
        ensures
            r.wf(),
            r.view() == Seq::<Seq<char>>::empty(),
    {
        let r = Interner { strings: Vec::new() };
        assert(r.view() =~= Seq::<Seq<char>>::empty());
        r
    }

    /// The number of interned strings.
    pub fn len(&self) -> (r: usize)
        ensures
            r == self.view().len(),
    {
        self.strings.len()
    }

    /// Returns the id of a string if it is interned.
    pub fn find(&self, name: &str) -> (r: Option<Interned>)
        requires
            self.wf(),
        ensures
            match r {
                Some(id) => id.0 < self.view().len() && self.view()[id.0 as int] == name@,
                None => forall|i: int| 0 <= i < self.view().len() ==> self.view()[i] != name@,
            },
    {
        let owned = name.to_owned();
        let mut i: usize = 0;
        while i < self.strings.len()
            invariant
                self.wf(),
                owned@ == name@,
                i <= self.strings@.len(),
                forall|k: int| 0 <= k < i ==> self.view()[k] != name@,
            decreases self.strings@.len() - i,
        {
            if self.strings[i] == owned {
                return Some(Interned(i as u32));
            }
            i += 1;
        }
        None
    }

    /// Interns a string: returns its id, adding it to the table if it was not
    /// there yet.
    pub fn intern(&mut self, name: &str) -> (r: Interned)
        requires
            old(self).wf(),
            old(self).view().len() < u32::MAX,
        ensures
            final(self).wf(),
            final(self).view()[r.0 as int] == name@,
            r.0 < final(self).view().len(),
            r.0 == id_of(final(self).view(), name@),
            old(self).view().contains(name@) ==> final(self).view() == old(self).view(),
            !old(self).view().contains(name@) ==> final(self).view() == old(self).view().push(name@),
    {
        let r = self.intern_inner(name);
        proof {
            lemma_id_unique(*self, r.0 as int);
        }
        r
    }

    fn intern_inner(&mut self, name: &str) -> (r: Interned)
        requires
            old(self).wf(),
            old(self).view().len() < u32::MAX,
        ensures
            final(self).wf(),
            final(self).view()[r.0 as int] == name@,
            r.0 < final(self).view().len(),
            old(self).view().contains(name@) ==> final(self).view() == old(self).view(),
            !old(self).view().contains(name@) ==> final(self).view() == old(self).view().push(name@),
    {
        match self.find(name) {
            Some(id) => id,
            None => {
                let id = self.strings.len();
                let ghost before = self.view();
                self.strings.push(name.to_owned());
                proof {
                    assert(self.view() =~= before.push(name@));
                    assert forall|i: int, j: int| 0 <= i < j < self.strings@.len() implies
                        #[trigger] self.strings@[i]@ != #[trigger] self.strings@[j]@ by {
                        if j == id {
                            assert(before[i] == self.strings@[i]@);
                        } else {
                            assert(self.strings@[i] == old(self).strings@[i]);
                            assert(self.strings@[j] == old(self).strings@[j]);
                        }
                    }
                }
                Interned(id as u32)
            },
        }
    }

    /// Returns the string an id stands for.
    pub fn lookup(&self, id: Interned) -> (r: &str)
        requires
            id.0 < self.view().len(),
        ensures
            r@ == self.view()[id.0 as int],
    {
        self.strings[id.0 as usize].as_str()
    }
}

/// The id a string has in a table of interned strings.
pub open spec fn id_of(names: Seq<Seq<char>>, name: Seq<char>) -> int {
    choose|i: int| 0 <= i < names.len() && names[i] == name
}

/// In a well-formed table a string has one id: the one `id_of` names.
pub proof fn lemma_id_unique(interner: Interner, i: int)
    requires
        interner.wf(),
        0 <= i < interner.view().len(),
    ensures
        id_of(interner.view(), interner.view()[i]) == i,
{
    let v = interner.view();
    let j = id_of(v, v[i]);
    assert(0 <= j < v.len() && v[j] == v[i]);
    if j != i {
        if j < i {
            assert(interner.strings@[j]@ != interner.strings@[i]@);
        } else {
            assert(interner.strings@[i]@ != interner.strings@[j]@);
        }
    }
}

/// Interning the same string twice: the second call gives the id of the
/// first and leaves the table as the first call left it. (`intern` states what
/// one call does; this puts two of them together.)
pub proof fn lemma_intern_twice(first: Interner, second: Interner, name: Seq<char>, id: Interned, id2: Interned)
    requires
        first.wf(),
        id.0 < first.view().len(),
        first.view()[id.0 as int] == name,
        id2.0 < second.view().len(),
        second.view()[id2.0 as int] == name,
        first.view().contains(name) ==> second.view() == first.view(),
    ensures
        second.view() == first.view(),
        id2 == id,
{
    assert(first.view().contains(name));
    if id2.0 != id.0 {
        if id2.0 < id.0 {
            assert(first.strings@[id2.0 as int]@ != first.strings@[id.0 as int]@);
        } else {
            assert(first.strings@[id.0 as int]@ != first.strings@[id2.0 as int]@);
        }
    }
}

/// No string occurs twice in a table.
pub open spec fn names_unique(names: Seq<Seq<char>>) -> bool {
    forall|i: int, j: int| 0 <= i < j < names.len() ==> #[trigger] names[i] != #[trigger] names[j]
}

/// A well-formed interner holds no string twice.
pub proof fn lemma_wf_names_unique(interner: Interner)
    requires
        interner.wf(),
    ensures
        names_unique(interner.view()),
{
    assert forall|i: int, j: int| 0 <= i < j < interner.view().len() implies #[trigger] interner.view()[i]
        != #[trigger] interner.view()[j] by {
        assert(interner.strings@[i]@ != interner.strings@[j]@);
    }
}

/// In a table without duplicates, the id of the string at a position is
/// that position.
pub proof fn lemma_id_of_unique(names: Seq<Seq<char>>, i: int)
    requires
        names_unique(names),
        0 <= i < names.len(),
    ensures
        id_of(names, names[i]) == i,
{
    let j = id_of(names, names[i]);
    assert(0 <= j < names.len() && names[j] == names[i]);
    if j < i {
        assert(names[j] != names[i]);
    } else if i < j {
        assert(names[i] != names[j]);
    }
}

} // verus!
