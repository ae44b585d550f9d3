//! A value spelled out by kind: the enumeration a NaN-boxed word decodes
//! to, and back. Heap objects are held by their address; a double by the
//! bits of its IEEE 754 representation.

use crate::value::{
    encode, is_double_word, lemma_tag_payload_roundtrip, payload_of, tag_of, AstNaNBoxedVal, Interned, ARRAY_TAG,
    BIG_INTEGER_TAG, BLOCK_TAG, BOOLEAN_TAG, CLASS_TAG, INSTANCE_TAG, INTEGER_TAG, INVOKABLE_TAG, NIL_TAG,
    STRING_TAG, SYMBOL_TAG, SYSTEM_TAG,
};
use vstd::prelude::*;

verus! {

/// Represents an SOM value by its kind.
#[derive(Clone, Copy, Debug, PartialEq, Eq, Structural)]
pub enum ValueEnum {
    /// The **nil** value.
    Nil,
    /// The **system** value.
    System,
    /// A boolean value (**true** or **false**).
    Boolean(bool),
    /// An integer value.
    Integer(i32),
    /// A big integer, by its address.
    BigInteger(u64),
    /// A floating-point value, by its bits.
    Double(u64),
    /// An interned symbol value.
    Symbol(Interned),
    /// A string, by its address.
    String(u64),
    /// An array of values, by its address.
    Array(u64),
    /// A block, by its address.
    Block(u64),
    /// A class instance, by its address.
    Instance(u64),
    /// A class, by its address.
    Class(u64),
    /// An invokable, by its address.
    Invokable(u64),
}

/// The kind a word decodes to: a double first, then by tag; an array decodes
/// to `nil`. `None` for a word with an unknown tag that is no double.
pub open spec fn enum_of(v: AstNaNBoxedVal) -> Option<ValueEnum> {
    let w = v.encoded;
    let t = tag_of(w);
    let p = payload_of(w);
    if is_double_word(w) {
        Some(ValueEnum::Double(w))
    } else if t == NIL_TAG {
        Some(ValueEnum::Nil)
    } else if t == SYSTEM_TAG {
        Some(ValueEnum::System)
    } else if t == INTEGER_TAG {
        Some(ValueEnum::Integer((p as u32) as i32))
    } else if t == BIG_INTEGER_TAG {
        Some(ValueEnum::BigInteger(p))
    } else if t == BOOLEAN_TAG {
        Some(ValueEnum::Boolean(p != 0))
    } else if t == SYMBOL_TAG {
        Some(ValueEnum::Symbol(Interned(p as u32)))
    } else if t == STRING_TAG {
        Some(ValueEnum::String(p))
    } else if t == ARRAY_TAG {
        Some(ValueEnum::Nil)
    } else if t == BLOCK_TAG {
        Some(ValueEnum::Block(p))
    } else if t == INSTANCE_TAG {
        Some(ValueEnum::Instance(p))
    } else if t == CLASS_TAG {
        Some(ValueEnum::Class(p))
    } else if t == INVOKABLE_TAG {
        Some(ValueEnum::Invokable(p))
    } else {
        None
    }
}

/// The word a value of a kind is boxed into.
pub open spec fn word_of(e: ValueEnum) -> u64 {
    match e {
        ValueEnum::Nil => encode(NIL_TAG, 0),
        ValueEnum::System => encode(SYSTEM_TAG, 0),
        ValueEnum::Boolean(b) => encode(BOOLEAN_TAG, if b { 1 } else { 0 }),
        ValueEnum::Integer(i) => encode(INTEGER_TAG, (i as u32) as u64),
        ValueEnum::BigInteger(a) => encode(BIG_INTEGER_TAG, a),
        ValueEnum::Double(bits) => bits,
        ValueEnum::Symbol(s) => encode(SYMBOL_TAG, s.0 as u64),
        ValueEnum::String(a) => encode(STRING_TAG, a),
        ValueEnum::Array(a) => encode(ARRAY_TAG, a),
        ValueEnum::Block(a) => encode(BLOCK_TAG, a),
        ValueEnum::Instance(a) => encode(INSTANCE_TAG, a),
        ValueEnum::Class(a) => encode(CLASS_TAG, a),
        ValueEnum::Invokable(a) => encode(INVOKABLE_TAG, a),
    }
}

/// A value that can be boxed: no array (boxing one is not supported),
/// addresses that fit in a payload, and a double whose bits are no boxed
/// value's.
pub open spec fn boxable(e: ValueEnum) -> bool {
    match e {
        ValueEnum::Array(_) => false,
        ValueEnum::BigInteger(a) | ValueEnum::String(a) | ValueEnum::Block(a) | ValueEnum::Instance(a)
        | ValueEnum::Class(a) | ValueEnum::Invokable(a) => a < 0x1_0000_0000_0000,
        ValueEnum::Double(bits) => is_double_word(bits),
        _ => true,
    }
}

/// A word that is the boxing of what it decodes to: no array, no payload
/// for `nil` and `system`, a boolean's payload 0 or 1, and an integer's or a
/// symbol's payload within 32 bits.
pub open spec fn canonical_word(v: AstNaNBoxedVal) -> bool {
    let t = tag_of(v.encoded);
    let p = payload_of(v.encoded);
    &&& enum_of(v) is Some
    &&& !is_double_word(v.encoded) ==> t != ARRAY_TAG
    &&& !is_double_word(v.encoded) && (t == NIL_TAG || t == SYSTEM_TAG) ==> p == 0
    &&& !is_double_word(v.encoded) && t == BOOLEAN_TAG ==> p <= 1
    &&& !is_double_word(v.encoded) && (t == INTEGER_TAG || t == SYMBOL_TAG) ==> p <= u32::MAX
}

/// A word with a boxed tag is no double.
proof fn lemma_boxed_not_double(t: u64, p: u64)
    requires
        t == NIL_TAG || t == SYSTEM_TAG || t == INTEGER_TAG || t == BOOLEAN_TAG || t == SYMBOL_TAG || t
            == BIG_INTEGER_TAG || t == STRING_TAG || t == ARRAY_TAG || t == BLOCK_TAG || t == CLASS_TAG || t
            == INSTANCE_TAG || t == INVOKABLE_TAG,
        p < 0x1_0000_0000_0000,
    ensures
        !is_double_word(encode(t, p)),
{
    assert(((t << 48) | p) & 0x7FF8_0000_0000_0000u64 == 0x7FF8_0000_0000_0000u64) by (bit_vector)
        requires
            t == 0x7FF9u64 || t == 0x7FFAu64 || t == 0x7FFBu64 || t == 0x7FFCu64 || t == 0x7FFDu64 || t
                == 0xFFF8u64 || t == 0xFFF9u64 || t == 0xFFFAu64 || t == 0xFFFCu64 || t == 0xFFFDu64 || t
                == 0xFFFEu64 || t == 0xFFFFu64,
            p < 0x1_0000_0000_0000u64,
    ;
    assert(((t << 48) | p) != 0x7FF8_0000_0000_0000u64) by (bit_vector)
        requires
            t == 0x7FF9u64 || t == 0x7FFAu64 || t == 0x7FFBu64 || t == 0x7FFCu64 || t == 0x7FFDu64 || t
                == 0xFFF8u64 || t == 0xFFF9u64 || t == 0xFFFAu64 || t == 0xFFFCu64 || t == 0xFFFDu64 || t
                == 0xFFFEu64 || t == 0xFFFFu64,
            p < 0x1_0000_0000_0000u64,
    ;
}

/// Decoding the boxing of a value gives the value back.
pub proof fn lemma_enum_roundtrip(e: ValueEnum)
    requires
        boxable(e),
    ensures
        enum_of(AstNaNBoxedVal { encoded: word_of(e) }) == Some(e),
{
    let w = word_of(e);
    match e {
        ValueEnum::Double(bits) => {},
        ValueEnum::Nil => {
            lemma_tag_payload_roundtrip(NIL_TAG, 0, w);
            lemma_boxed_not_double(NIL_TAG, 0);
        },
        ValueEnum::System => {
            lemma_tag_payload_roundtrip(SYSTEM_TAG, 0, w);
            lemma_boxed_not_double(SYSTEM_TAG, 0);
        },
        ValueEnum::Boolean(b) => {
            let p: u64 = if b { 1 } else { 0 };
            lemma_tag_payload_roundtrip(BOOLEAN_TAG, p, w);
            lemma_boxed_not_double(BOOLEAN_TAG, p);
        },
        ValueEnum::Integer(i) => {
            let p: u64 = (i as u32) as u64;
            assert(p < 0x1_0000_0000_0000);
            assert(((i as u32) as u64) as u32 as i32 == i) by (bit_vector);
            lemma_tag_payload_roundtrip(INTEGER_TAG, p, w);
            lemma_boxed_not_double(INTEGER_TAG, p);
        },
        ValueEnum::Symbol(s) => {
            let p: u64 = s.0 as u64;
            lemma_tag_payload_roundtrip(SYMBOL_TAG, p, w);
            lemma_boxed_not_double(SYMBOL_TAG, p);
        },
        ValueEnum::BigInteger(a) => {
            lemma_tag_payload_roundtrip(BIG_INTEGER_TAG, a, w);
            lemma_boxed_not_double(BIG_INTEGER_TAG, a);
        },
        ValueEnum::String(a) => {
            lemma_tag_payload_roundtrip(STRING_TAG, a, w);
            lemma_boxed_not_double(STRING_TAG, a);
        },
        ValueEnum::Array(a) => {},
        ValueEnum::Block(a) => {
            lemma_tag_payload_roundtrip(BLOCK_TAG, a, w);
            lemma_boxed_not_double(BLOCK_TAG, a);
        },
        ValueEnum::Instance(a) => {
            lemma_tag_payload_roundtrip(INSTANCE_TAG, a, w);
            lemma_boxed_not_double(INSTANCE_TAG, a);
        },
        ValueEnum::Class(a) => {
            lemma_tag_payload_roundtrip(CLASS_TAG, a, w);
            lemma_boxed_not_double(CLASS_TAG, a);
        },
        ValueEnum::Invokable(a) => {
            lemma_tag_payload_roundtrip(INVOKABLE_TAG, a, w);
            lemma_boxed_not_double(INVOKABLE_TAG, a);
        },
    }
}

/// Boxing what a canonical word decodes to gives the word back.
pub proof fn lemma_word_roundtrip(v: AstNaNBoxedVal)
    requires
        canonical_word(v),
    ensures
        boxable(enum_of(v).unwrap()),
        word_of(enum_of(v).unwrap()) == v.encoded,
{
    let w = v.encoded;
    let t = tag_of(w);
    let p = payload_of(w);
    lemma_tag_payload_roundtrip(0, 0, w);
    assert(w & 0x0000_FFFF_FFFF_FFFFu64 < 0x1_0000_0000_0000u64) by (bit_vector);
    if !is_double_word(w) {
        assert(encode(t, p) == w);
        if t == INTEGER_TAG {
            assert(p <= 0xFFFF_FFFFu64 ==> ((((p as u32) as i32) as u32) as u64) == p) by (bit_vector);
            assert(word_of(ValueEnum::Integer((p as u32) as i32)) == w);
        } else if t == SYMBOL_TAG {
            assert(p <= 0xFFFF_FFFFu64 ==> ((p as u32) as u64) == p) by (bit_vector);
            assert(word_of(ValueEnum::Symbol(Interned(p as u32))) == w);
        } else if t == BOOLEAN_TAG {
            assert((if p != 0 { 1u64 } else { 0u64 }) == p);
            assert(word_of(ValueEnum::Boolean(p != 0)) == w);
        }
    }
}

impl ValueEnum {
    /// The kind a value decodes to (see `enum_of`).
    pub fn from_value(value: AstNaNBoxedVal) -> (r: ValueEnum)
        requires
            enum_of(value) is Some,
        ensures
            enum_of(value) == Some(r),
    {
        if value.is_double() {
            ValueEnum::Double(value.encoded)
        } else if value.is_nil() {
            ValueEnum::Nil
        } else if value.is_system() {
            ValueEnum::System
        } else if let Some(i) = value.as_integer() {
            ValueEnum::Integer(i)
        } else if let Some(a) = value.as_pointer(BIG_INTEGER_TAG) {
            ValueEnum::BigInteger(a)
        } else if let Some(b) = value.as_boolean() {
            ValueEnum::Boolean(b)
        } else if let Some(s) = value.as_symbol() {
            ValueEnum::Symbol(s)
        } else if let Some(a) = value.as_pointer(STRING_TAG) {
            ValueEnum::String(a)
        } else if value.is_array() {
            ValueEnum::Nil
        } else if let Some(a) = value.as_pointer(BLOCK_TAG) {
            ValueEnum::Block(a)
        } else if let Some(a) = value.as_pointer(INSTANCE_TAG) {
            ValueEnum::Instance(a)
        } else if let Some(a) = value.as_pointer(CLASS_TAG) {
            ValueEnum::Class(a)
        } else {
            ValueEnum::Invokable(value.as_pointer(INVOKABLE_TAG).unwrap())
        }
    }

    /// Boxes a value of a kind into a word (see `word_of`).
    pub fn into_value(self) -> (r: AstNaNBoxedVal)
        requires
            boxable(self),
        ensures
            r.encoded == word_of(self),
    {
        let r = match self {
            ValueEnum::Nil => AstNaNBoxedVal::nil(),
            ValueEnum::System => AstNaNBoxedVal::system(),
            ValueEnum::Boolean(b) => AstNaNBoxedVal::new_boolean(b),
            ValueEnum::Integer(i) => AstNaNBoxedVal::new_integer(i),
            ValueEnum::BigInteger(a) => AstNaNBoxedVal::new(BIG_INTEGER_TAG, a),
            ValueEnum::Double(bits) => AstNaNBoxedVal { encoded: bits },
            ValueEnum::Symbol(s) => AstNaNBoxedVal::new_symbol(s),
            ValueEnum::String(a) => AstNaNBoxedVal::new(STRING_TAG, a),
            ValueEnum::Array(a) => AstNaNBoxedVal::new(ARRAY_TAG, a),
            ValueEnum::Block(a) => AstNaNBoxedVal::new(BLOCK_TAG, a),
            ValueEnum::Instance(a) => AstNaNBoxedVal::new(INSTANCE_TAG, a),
            ValueEnum::Class(a) => AstNaNBoxedVal::new(CLASS_TAG, a),
            ValueEnum::Invokable(a) => AstNaNBoxedVal::new(INVOKABLE_TAG, a),
        };
        proof {
            lemma_tag_payload_roundtrip(0, 0, r.encoded);
        }
        r
    }
}

} // verus!
