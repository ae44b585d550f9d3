//! Primitives of the `String` class.

use crate::bigint::big_from_usize;
use crate::interner::Interner;
use crate::primitives::integer::{IntegerLike, demote};
use crate::primitives::{PrimInfo, PrimitiveError, find_in_table, find_primitive, str_eq};
use crate::value::Interned;
use vstd::prelude::*;

verus! {

/// The built-in methods of `String`.
#[derive(Clone, Copy, Debug, PartialEq, Eq, Structural)]
pub enum StringPrimitive {
    Length,
    Hashcode,
    IsLetters,
    IsDigits,
    IsWhiteSpace,
    AsSymbol,
    Concatenate,
    PrimSubstringFromTo,
    Eq,
    CharAt,
}

/// The instance-side table.
pub open spec fn instance_table() -> Seq<PrimInfo<StringPrimitive>> {
    seq![
        ("length", StringPrimitive::Length, true),
        ("hashcode", StringPrimitive::Hashcode, true),
        ("isLetters", StringPrimitive::IsLetters, true),
        ("isDigits", StringPrimitive::IsDigits, true),
        ("isWhiteSpace", StringPrimitive::IsWhiteSpace, true),
        ("asSymbol", StringPrimitive::AsSymbol, true),
        ("concatenate:", StringPrimitive::Concatenate, true),
        ("primSubstringFrom:to:", StringPrimitive::PrimSubstringFromTo, true),
        ("=", StringPrimitive::Eq, true),
        ("charAt:", StringPrimitive::CharAt, true),
    ]
}

/// The class-side table.
pub open spec fn class_table() -> Seq<PrimInfo<StringPrimitive>> {
    Seq::empty()
}

/// The instance-side primitives of `String`, in lookup order.
pub fn instance_primitives() -> (r: Vec<PrimInfo<StringPrimitive>>)
    ensures
        r@ == instance_table(),
{
    vec![
        ("length", StringPrimitive::Length, true),
        ("hashcode", StringPrimitive::Hashcode, true),
        ("isLetters", StringPrimitive::IsLetters, true),
        ("isDigits", StringPrimitive::IsDigits, true),
        ("isWhiteSpace", StringPrimitive::IsWhiteSpace, true),
        ("asSymbol", StringPrimitive::AsSymbol, true),
        ("concatenate:", StringPrimitive::Concatenate, true),
        ("primSubstringFrom:to:", StringPrimitive::PrimSubstringFromTo, true),
        ("=", StringPrimitive::Eq, true),
        ("charAt:", StringPrimitive::CharAt, true),
    ]
}

/// The class-side primitives of `String`, in lookup order.
pub fn class_primitives() -> (r: Vec<PrimInfo<StringPrimitive>>)
    ensures
        r@ == class_table(),
{
    Vec::new()
}

/// Search for an instance primitive matching the given signature.
pub fn get_instance_primitive(signature: &str) -> (r: Option<StringPrimitive>)
    ensures
        r == find_in_table(instance_table(), signature@),
{
    find_primitive(&instance_primitives(), signature)
}

/// Search for a class primitive matching the given signature.
pub fn get_class_primitive(signature: &str) -> (r: Option<StringPrimitive>)
    ensures
        r == find_in_table(class_table(), signature@),
{
    find_primitive(&class_primitives(), signature)
}

} // verus!

verus! {

/// Whether a character has the Unicode `Alphabetic` property.
pub uninterp spec fn is_alphabetic(c: char) -> bool;

/// Whether a character is in one of Unicode's general categories for
/// numbers (`Nd`, `Nl`, `No`).
pub uninterp spec fn is_numeric(c: char) -> bool;

/// Whether a character has the Unicode `White_Space` property.
pub uninterp spec fn is_whitespace(c: char) -> bool;

/// An ASCII letter.
pub open spec fn ascii_letter(c: char) -> bool {
    (65 <= c as u32 <= 90) || (97 <= c as u32 <= 122)
}

/// An ASCII decimal digit.
pub open spec fn ascii_digit(c: char) -> bool {
    48 <= c as u32 <= 57
}

/// An ASCII white-space character: tab, line feed, vertical tab, form
/// feed, carriage return or space.
pub open spec fn ascii_white_space(c: char) -> bool {
    (9 <= c as u32 <= 13) || c as u32 == 32
}

/// `char::is_alphabetic`: whether `c` has the Unicode `Alphabetic`
/// property; among the ASCII characters, the letters have it and no other.
#[verifier::external_body]
pub(crate) fn char_is_alphabetic(c: char) -> (r: bool)
    ensures
        r == is_alphabetic(c),
        (c as u32) < 128 ==> (r <==> ascii_letter(c)),
{
    c.is_alphabetic()
}

/// `char::is_numeric`: whether `c` is in one of Unicode's general
/// categories for numbers; among the ASCII characters, the decimal digits
/// are and no other.
#[verifier::external_body]
fn char_is_numeric(c: char) -> (r: bool)
    ensures
        r == is_numeric(c),
        (c as u32) < 128 ==> (r <==> ascii_digit(c)),
{
    c.is_numeric()
}

/// `char::is_whitespace`: whether `c` has the Unicode `White_Space`
/// property; among the ASCII characters, tab, line feed, vertical tab,
/// form feed, carriage return and space have it and no other.
#[verifier::external_body]
pub(crate) fn char_is_whitespace(c: char) -> (r: bool)
    ensures
        r == is_whitespace(c),
        (c as u32) < 128 ==> (r <==> ascii_white_space(c)),
{
    c.is_whitespace()
}

/// The receiver of a string primitive: a string, or a symbol standing for
/// one in the interner.
#[derive(Clone, Debug)]
pub enum StringLike {
    String(String),
    Symbol(Interned),
}

impl StringLike {
    /// A symbol names an interned string.
    pub open spec fn wf(&self, interner: Interner) -> bool {
        match self {
            StringLike::String(_) => true,
            StringLike::Symbol(id) => id.0 < interner.view().len(),
        }
    }

    /// The characters of the string.
    pub open spec fn chars(&self, interner: Interner) -> Seq<char> {
        match self {
            StringLike::String(s) => s@,
            StringLike::Symbol(id) => interner.view()[id.0 as int],
        }
    }

    /// The characters, looking a symbol up in the interner.
    pub fn as_str<'a>(&'a self, interner: &'a Interner) -> (r: &'a str)
        requires
            self.wf(*interner),
        ensures
            r@ == self.chars(*interner),
    {
        match self {
            StringLike::String(s) => s.as_str(),
            StringLike::Symbol(id) => interner.lookup(*id),
        }
    }
}

/// `String>>#length`: the number of characters, unboxed when it fits.
pub fn length(interner: &Interner, receiver: &StringLike) -> (r: IntegerLike)
    requires
        receiver.wf(*interner),
    ensures
        r.value() == receiver.chars(*interner).len(),
        r.demoted(),
{
    let n = receiver.as_str(interner).unicode_len();
    if n <= i32::MAX as usize {
        IntegerLike::Integer(n as i32)
    } else {
        demote(big_from_usize(n))
    }
}

/// Whether every character of `s` passes the test of `kind` (0: letters,
/// 1: digits, 2: white space), and `s` is not empty.
fn all_chars(s: &str, kind: u8) -> (r: bool)
    requires
        kind <= 2,
    ensures
        r == (s@.len() > 0 && forall|i: int|
            0 <= i < s@.len() ==> #[trigger] char_class(kind, s@[i])),
{
    let n = s.unicode_len();
    if n == 0 {
        return false;
    }
    let mut i: usize = 0;
    while i < n
        invariant
            n == s@.len(),
            kind <= 2,
            i <= n,
            forall|k: int| 0 <= k < i ==> #[trigger] char_class(kind, s@[k]),
        decreases n - i,
    {
        let c = s.get_char(i);
        let ok = if kind == 0 {
            char_is_alphabetic(c)
        } else if kind == 1 {
            char_is_numeric(c)
        } else {
            char_is_whitespace(c)
        };
        if !ok {
            assert(!char_class(kind, s@[i as int]));
            return false;
        }
        i += 1;
    }
    true
}

/// The character test `kind` stands for (0: letters, 1: digits, 2: white
/// space).
pub open spec fn char_class(kind: u8, c: char) -> bool {
    if kind == 0 {
        is_alphabetic(c)
    } else if kind == 1 {
        is_numeric(c)
    } else {
        is_whitespace(c)
    }
}

/// `String>>#isLetters`: not empty, and every character alphabetic.
pub fn is_letters(interner: &Interner, receiver: &StringLike) -> (r: bool)
    requires
        receiver.wf(*interner),
    ensures
        r == (receiver.chars(*interner).len() > 0 && forall|i: int|
            0 <= i < receiver.chars(*interner).len() ==> is_alphabetic(
                #[trigger] receiver.chars(*interner)[i],
            )),
{
    let s = receiver.as_str(interner);
    let r = all_chars(s, 0);
    proof {
        if !r && s@.len() > 0 {
            let k = choose|k: int| 0 <= k < s@.len() && !#[trigger] char_class(0, s@[k]);
            assert(!is_alphabetic(receiver.chars(*interner)[k]));
        }
        if r {
            assert forall|i: int| 0 <= i < s@.len() implies is_alphabetic(#[trigger] receiver.chars(*interner)[i]) by {
                assert(char_class(0, s@[i]));
            }
        }
    }
    r
}

/// `String>>#isDigits`: not empty, and every character numeric.
pub fn is_digits(interner: &Interner, receiver: &StringLike) -> (r: bool)
    requires
        receiver.wf(*interner),
    ensures
        r == (receiver.chars(*interner).len() > 0 && forall|i: int|
            0 <= i < receiver.chars(*interner).len() ==> is_numeric(
                #[trigger] receiver.chars(*interner)[i],
            )),
{
    let s = receiver.as_str(interner);
    let r = all_chars(s, 1);
    proof {
        if !r && s@.len() > 0 {
            let k = choose|k: int| 0 <= k < s@.len() && !#[trigger] char_class(1, s@[k]);
            assert(!is_numeric(receiver.chars(*interner)[k]));
        }
        if r {
            assert forall|i: int| 0 <= i < s@.len() implies is_numeric(#[trigger] receiver.chars(*interner)[i]) by {
                assert(char_class(1, s@[i]));
            }
        }
    }
    r
}

/// `String>>#isWhiteSpace`: not empty, and every character white space.
pub fn is_whitespace_string(interner: &Interner, receiver: &StringLike) -> (r: bool)
    requires
        receiver.wf(*interner),
    ensures
        r == (receiver.chars(*interner).len() > 0 && forall|i: int|
            0 <= i < receiver.chars(*interner).len() ==> is_whitespace(
                #[trigger] receiver.chars(*interner)[i],
            )),
{
    let s = receiver.as_str(interner);
    let r = all_chars(s, 2);
    proof {
        if !r && s@.len() > 0 {
            let k = choose|k: int| 0 <= k < s@.len() && !#[trigger] char_class(2, s@[k]);
            assert(!is_whitespace(receiver.chars(*interner)[k]));
        }
        if r {
            assert forall|i: int| 0 <= i < s@.len() implies is_whitespace(#[trigger] receiver.chars(*interner)[i]) by {
                assert(char_class(2, s@[i]));
            }
        }
    }
    r
}

/// `String>>#concatenate:`: the receiver's characters followed by the
/// argument's.
pub fn concatenate(interner: &Interner, receiver: &StringLike, other: &StringLike) -> (r: String)
    requires
        receiver.wf(*interner),
        other.wf(*interner),
    ensures
        r@ == receiver.chars(*interner) + other.chars(*interner),
{
    let mut s = String::from_str(receiver.as_str(interner));
    s.append(other.as_str(interner));
    s
}

/// `String>>#asSymbol`: a string is interned; a symbol is its own symbol.
pub fn as_symbol(interner: &mut Interner, receiver: &StringLike) -> (r: Interned)
    requires
        old(interner).wf(),
        old(interner).view().len() < u32::MAX,
        receiver.wf(*old(interner)),
    ensures
        final(interner).wf(),
        r.0 < final(interner).view().len(),
        final(interner).view()[r.0 as int] == receiver.chars(*old(interner)),
        receiver is Symbol ==> r == receiver->Symbol_0 && *final(interner) == *old(interner),
{
    match receiver {
        StringLike::String(s) => interner.intern(s.as_str()),
        StringLike::Symbol(id) => *id,
    }
}

/// `String>>#=` on two strings: whether they hold the same characters.
pub fn eq(interner: &Interner, a: &StringLike, b: &StringLike) -> (r: bool)
    requires
        a.wf(*interner),
        b.wf(*interner),
    ensures
        r == (a.chars(*interner) == b.chars(*interner)),
{
    str_eq(a.as_str(interner), b.as_str(interner))
}

/// The characters from the 0-based position `start` up to, not including,
/// `end`, both cut at the end of the string; empty when `end` comes first.
pub open spec fn substring(chars: Seq<char>, start: int, end: int) -> Seq<char> {
    let s = if start <= chars.len() { start } else { chars.len() as int };
    let e = if end <= chars.len() { end } else { chars.len() as int };
    chars.subrange(s, if e >= s { e } else { s })
}

/// `String>>#primSubstringFrom:to:`: the characters from the 1-based position
/// `from` to the position `to`, both included, cut at the end of the string;
/// a position below the first is refused.
pub fn prim_substring_from_to(interner: &Interner, receiver: &StringLike, from: i32, to: i32) -> (r:
    Result<String, PrimitiveError>)
    requires
        receiver.wf(*interner),
        from != i32::MIN,
        from >= 1 && to >= 0 ==> from - 1 <= to,
    ensures
        (from < 1 || to < 0) ==> r == Err::<String, PrimitiveError>(PrimitiveError::OutOfRange),
        from >= 1 && to >= 0 ==> (r matches Ok(s) && s@ == substring(
            receiver.chars(*interner),
            from - 1,
            to as int,
        )),
{
    if from - 1 < 0 || to < 0 {
        return Err(PrimitiveError::OutOfRange);
    }
    let s = receiver.as_str(interner);
    let n = s.unicode_len();
    let f = (from - 1) as usize;
    let t = to as usize;
    let start = if f <= n { f } else { n };
    let end = if t <= n { t } else { n };
    let end = if end >= start { end } else { start };
    Ok(s.substring_char(start, end).to_owned())
}

/// `String>>#charAt:`: the character at a 1-based index, as a string.
pub fn char_at(interner: &Interner, receiver: &StringLike, idx: i32) -> (r: String)
    requires
        receiver.wf(*interner),
        1 <= idx <= receiver.chars(*interner).len(),
    ensures
        r@ == seq![receiver.chars(*interner)[idx - 1]],
{
    let s = receiver.as_str(interner);
    let i = (idx - 1) as usize;
    let r = s.substring_char(i, i + 1).to_owned();
    assert(r@ =~= seq![receiver.chars(*interner)[idx - 1]]);
    r
}

} // verus!
