//! NaN-boxed SOM values.
//!
//! A value is one 64-bit word. Doubles are stored as their own bit pattern;
//! every other kind of value lives in the space of quiet NaNs: the upper 16
//! bits hold a tag, the lower 48 bits a payload.

use vstd::prelude::*;

verus! {

/// Number of bits the tag is shifted by.
pub const TAG_SHIFT: u64 = 48;
/// Mask extracting the tag bits of an encoded word.
pub const TAG_EXTRACTION: u64 = 0xFFFF_0000_0000_0000;
/// Mask extracting the payload bits of an encoded word.
pub const PAYLOAD_MASK: u64 = 0x0000_FFFF_FFFF_FFFF;
/// Tag bits shared by every non-pointer boxed value (a quiet NaN).
pub const BASE_TAG: u64 = 0x7FF8;
/// Tag bits shared by every pointer ("cell") value (a negative quiet NaN).
pub const CELL_BASE_TAG: u64 = 0xFFF8;
/// The encoding of the canonical NaN double.
pub const CANON_NAN_BITS: u64 = 0x7FF8_0000_0000_0000;
/// `BASE_TAG` shifted into tag position.
pub const BASE_PATTERN: u64 = 0x7FF8_0000_0000_0000;
/// `CELL_BASE_TAG` shifted into tag position.
pub const IS_PTR_PATTERN: u64 = 0xFFF8_0000_0000_0000;

/// Tag of the `nil` value.
pub const NIL_TAG: u64 = 0x7FF9;
/// Tag of the `system` value.
pub const SYSTEM_TAG: u64 = 0x7FFA;
/// Tag of 32-bit integers.
pub const INTEGER_TAG: u64 = 0x7FFB;
/// Tag of booleans.
pub const BOOLEAN_TAG: u64 = 0x7FFC;
/// Tag of interned symbols.
pub const SYMBOL_TAG: u64 = 0x7FFD;

/// Tag of big integers (pointer type).
pub const BIG_INTEGER_TAG: u64 = 0xFFF8;
/// Tag of strings (pointer type).
pub const STRING_TAG: u64 = 0xFFF9;
/// Tag of arrays (pointer type): `0b010 | CELL_BASE_TAG`.
pub const ARRAY_TAG: u64 = 0xFFFA;
/// Tag of blocks (pointer type): `0b100 | CELL_BASE_TAG`.
pub const BLOCK_TAG: u64 = 0xFFFC;
/// Tag of classes (pointer type): `0b101 | CELL_BASE_TAG`.
pub const CLASS_TAG: u64 = 0xFFFD;
/// Tag of instances (pointer type): `0b110 | CELL_BASE_TAG`.
pub const INSTANCE_TAG: u64 = 0xFFFE;
/// Tag of invokables (pointer type): `0b111 | CELL_BASE_TAG`.
pub const INVOKABLE_TAG: u64 = 0xFFFF;

/// An interned symbol: an index into the interner's table.
#[derive(Clone, Copy, Debug, PartialEq, Eq, Structural)]
pub struct Interned(pub u32);

/// Represents an SOM value, NaN-boxed into a 64-bit word.
#[derive(Clone, Copy, Debug, PartialEq, Eq, Structural)]
pub struct AstNaNBoxedVal {
    /// The 64-bit value that is used to store SOM values using NaN-boxing.
    pub encoded: u64,
}

/// The class a value belongs to, as far as the value itself decides it.
/// For pointer values the class is read from the object pointed to.
#[derive(Clone, Copy, Debug, PartialEq, Eq, Structural)]
pub enum ValueClass {
    Nil,
    System,
    True,
    False,
    Integer,
    Symbol,
    String,
    Array,
    Double,
    /// The class of the block object at the payload address.
    OfBlock,
    /// The class of the instance at the payload address.
    OfInstance,
    /// The metaclass of the class at the payload address.
    OfClass,
    /// The class of the invokable at the payload address.
    OfInvokable,
}

/// The tag of an encoded word.
pub open spec fn tag_of(encoded: u64) -> u64 {
    encoded >> 48
}

/// The payload of an encoded word.
pub open spec fn payload_of(encoded: u64) -> u64 {
    encoded & PAYLOAD_MASK
}

/// The word made of a tag and a payload.
pub open spec fn encode(tag: u64, payload: u64) -> u64 {
    (tag << 48) | payload
}

/// Whether an encoded word is a double.
pub open spec fn is_double_word(encoded: u64) -> bool {
    (encoded & BASE_PATTERN) != BASE_PATTERN || encoded == CANON_NAN_BITS
}

proof fn lemma_encode_roundtrip(tag: u64, payload: u64)
    requires
        tag < 0x10000,
        payload < 0x1_0000_0000_0000,
    ensures
        tag_of(encode(tag, payload)) == tag,
        payload_of(encode(tag, payload)) == payload,
{
    assert(((tag << 48) | payload) >> 48 == tag) by (bit_vector)
        requires
            tag < 0x10000u64,
            payload < 0x1_0000_0000_0000u64,
    ;
    assert(((tag << 48) | payload) & 0x0000_FFFF_FFFF_FFFFu64 == payload) by (bit_vector)
        requires
            tag < 0x10000u64,
            payload < 0x1_0000_0000_0000u64,
    ;
}

proof fn lemma_word_from_parts(w: u64)
    ensures
        encode(tag_of(w), payload_of(w)) == w,
        tag_of(w) < 0x10000,
        payload_of(w) < 0x1_0000_0000_0000,
{
    assert((((w >> 48) << 48) | (w & 0x0000_FFFF_FFFF_FFFFu64)) == w) by (bit_vector);
    assert(w >> 48 < 0x10000u64) by (bit_vector);
    assert(w & 0x0000_FFFF_FFFF_FFFFu64 < 0x1_0000_0000_0000u64) by (bit_vector);
}

/// Encoding a word from a tag and a payload and reading them back gives the
/// same tag and payload; and every word is the encoding of its own tag and
/// payload.
pub proof fn lemma_tag_payload_roundtrip(tag: u64, payload: u64, w: u64)
    requires
        tag < 0x10000,
        payload < 0x1_0000_0000_0000,
    ensures
        tag_of(encode(tag, payload)) == tag,
        payload_of(encode(tag, payload)) == payload,
        encode(tag_of(w), payload_of(w)) == w,
{
    lemma_encode_roundtrip(tag, payload);
    lemma_word_from_parts(w);
}

impl AstNaNBoxedVal {
    /// The tag of this value.
    pub open spec fn spec_tag(self) -> u64 {
        tag_of(self.encoded)
    }

    /// The payload of this value.
    pub open spec fn spec_payload(self) -> u64 {
        payload_of(self.encoded)
    }

    /// Builds a value from a tag and a payload.
    pub fn new(tag: u64, payload: u64) -> (r: Self)
        requires
            tag < 0x10000,
            payload < 0x1_0000_0000_0000,
        ensures
            r.encoded == encode(tag, payload),
            r.spec_tag() == tag,
            r.spec_payload() == payload,
    {
        proof {
            lemma_encode_roundtrip(tag, payload);
        }
        AstNaNBoxedVal { encoded: (tag << 48) | payload }
    }

    /// Returns the tag of this value.
    pub fn tag(self) -> (r: u64)
        ensures
            r == self.spec_tag(),
            r < 0x10000,
    {
        proof {
            lemma_word_from_parts(self.encoded);
        }
        self.encoded >> 48
    }

    /// Returns the payload of this value.
    pub fn payload(self) -> (r: u64)
        ensures
            r == self.spec_payload(),
            r < 0x1_0000_0000_0000,
    {
        proof {
            lemma_word_from_parts(self.encoded);
        }
        self.encoded & PAYLOAD_MASK
    }

    /// The `nil` value.
    pub open spec fn nil_spec() -> Self {
        AstNaNBoxedVal { encoded: encode(NIL_TAG, 0) }
    }

    /// The value of an integer.
    pub open spec fn integer_spec(value: i32) -> Self {
        AstNaNBoxedVal { encoded: encode(INTEGER_TAG, (value as u32) as u64) }
    }

    /// The boolean a value holds, if it is one.
    pub open spec fn as_boolean_spec(self) -> Option<bool> {
        if self.spec_tag() == BOOLEAN_TAG {
            Some(self.spec_payload() != 0)
        } else {
            None
        }
    }

    /// Whether the value is a block.
    pub open spec fn is_block_spec(self) -> bool {
        self.spec_tag() == BLOCK_TAG
    }

    /// Whether the value is an unboxed integer.
    pub open spec fn is_integer_spec(self) -> bool {
        self.spec_tag() == INTEGER_TAG
    }

    /// Whether the value is a double.
    pub open spec fn is_double_spec(self) -> bool {
        is_double_word(self.encoded)
    }

    /// The `nil` value.
    pub fn nil() -> (r: Self)
        ensures
            r == Self::nil_spec(),
            r.spec_tag() == NIL_TAG,
            r.spec_payload() == 0,
    {
        Self::new(NIL_TAG, 0)
    }

    /// The `system` value.
    pub fn system() -> (r: Self)
        ensures
            r.spec_tag() == SYSTEM_TAG,
            r.spec_payload() == 0,
    {
        Self::new(SYSTEM_TAG, 0)
    }

    /// Returns whether this value is a double.
    pub fn is_double(self) -> (r: bool)
        ensures
            r == is_double_word(self.encoded),
    {
        (self.encoded & BASE_PATTERN) != BASE_PATTERN || self.encoded == CANON_NAN_BITS
    }

    /// Returns whether this value points to an object on the heap.
    pub fn is_ptr_type(self) -> (r: bool)
        ensures
            r == ((self.encoded & IS_PTR_PATTERN) == IS_PTR_PATTERN),
    {
        (self.encoded & IS_PTR_PATTERN) == IS_PTR_PATTERN
    }

    /// Returns whether this value is `nil`.
    pub fn is_nil(self) -> (r: bool)
        ensures
            r == (self.spec_tag() == NIL_TAG),
    {
        self.tag() == NIL_TAG
    }

    /// Returns whether this value is `system`.
    pub fn is_system(self) -> (r: bool)
        ensures
            r == (self.spec_tag() == SYSTEM_TAG),
    {
        self.tag() == SYSTEM_TAG
    }

    /// Returns whether this value is a boolean.
    pub fn is_boolean(self) -> (r: bool)
        ensures
            r == (self.spec_tag() == BOOLEAN_TAG),
    {
        self.tag() == BOOLEAN_TAG
    }

    /// Returns whether this value is an integer.
    pub fn is_integer(self) -> (r: bool)
        ensures
            r == (self.spec_tag() == INTEGER_TAG),
    {
        self.tag() == INTEGER_TAG
    }

    /// Returns whether this value is a symbol.
    pub fn is_symbol(self) -> (r: bool)
        ensures
            r == (self.spec_tag() == SYMBOL_TAG),
    {
        self.tag() == SYMBOL_TAG
    }

    /// Returns whether this value is an array.
    pub fn is_array(self) -> (r: bool)
        ensures
            r == (self.spec_tag() == ARRAY_TAG),
    {
        self.tag() == ARRAY_TAG
    }

    /// Returns whether this value is a block.
    pub fn is_block(self) -> (r: bool)
        ensures
            r == (self.spec_tag() == BLOCK_TAG),
    {
        self.tag() == BLOCK_TAG
    }

    /// Returns whether this value is a class.
    pub fn is_class(self) -> (r: bool)
        ensures
            r == (self.spec_tag() == CLASS_TAG),
    {
        self.tag() == CLASS_TAG
    }

    /// Returns whether this value is an instance.
    pub fn is_instance(self) -> (r: bool)
        ensures
            r == (self.spec_tag() == INSTANCE_TAG),
    {
        self.tag() == INSTANCE_TAG
    }

    /// Returns whether this value is an invocable.
    pub fn is_invocable(self) -> (r: bool)
        ensures
            r == (self.spec_tag() == INVOKABLE_TAG),
    {
        self.tag() == INVOKABLE_TAG
    }

    /// Returns the value as a boolean, but without checking if it actually is one.
    pub fn as_boolean_unchecked(self) -> (r: bool)
        ensures
            r == (self.spec_payload() != 0),
    {
        self.payload() != 0
    }

    /// Returns a new boolean value.
    pub fn new_boolean(value: bool) -> (r: Self)
        ensures
            r.spec_tag() == BOOLEAN_TAG,
            r.spec_payload() == (if value { 1u64 } else { 0u64 }),
    {
        Self::new(BOOLEAN_TAG, if value { 1 } else { 0 })
    }

    /// Returns this value as a boolean, if such is its type.
    pub fn as_boolean(self) -> (r: Option<bool>)
        ensures
            r == (if self.spec_tag() == BOOLEAN_TAG {
                Some(self.spec_payload() != 0)
            } else {
                None::<bool>
            }),
    {
        if self.is_boolean() {
            Some(self.as_boolean_unchecked())
        } else {
            None
        }
    }

    /// The integer held by a payload: its low 32 bits, as a signed number.
    pub open spec fn payload_as_i32(payload: u64) -> i32 {
        (payload as u32) as i32
    }

    /// Returns a new integer value.
    pub fn new_integer(value: i32) -> (r: Self)
        ensures
            r == Self::integer_spec(value),
            r.spec_tag() == INTEGER_TAG,
            r.spec_payload() == (value as u32) as u64,
            Self::payload_as_i32(r.spec_payload()) == value,
    {
        let bits: u32 = value as u32;
        let payload: u64 = bits as u64;
        assert(((value as u32) as u64) as u32 as i32 == value) by (bit_vector);
        Self::new(INTEGER_TAG, payload)
    }

    /// Returns this value as an integer, if such is its type.
    pub fn as_integer(self) -> (r: Option<i32>)
        ensures
            r == (if self.spec_tag() == INTEGER_TAG {
                Some(Self::payload_as_i32(self.spec_payload()))
            } else {
                None::<i32>
            }),
    {
        if self.is_integer() {
            let p = self.payload();
            Some((p as u32) as i32)
        } else {
            None
        }
    }

    /// Returns a new symbol value.
    pub fn new_symbol(value: Interned) -> (r: Self)
        ensures
            r.spec_tag() == SYMBOL_TAG,
            r.spec_payload() == value.0 as u64,
    {
        Self::new(SYMBOL_TAG, value.0 as u64)
    }

    /// Returns this value as a symbol, if such is its type.
    pub fn as_symbol(self) -> (r: Option<Interned>)
        ensures
            r == (if self.spec_tag() == SYMBOL_TAG {
                Some(Interned(self.spec_payload() as u32))
            } else {
                None::<Interned>
            }),
    {
        if self.is_symbol() {
            Some(Interned(self.payload() as u32))
        } else {
            None
        }
    }

    /// Returns a pointer value with the given tag and heap address.
    pub fn new_pointer(tag: u64, address: u64) -> (r: Self)
        requires
            tag == BIG_INTEGER_TAG || tag == STRING_TAG || tag == ARRAY_TAG || tag == BLOCK_TAG
                || tag == CLASS_TAG || tag == INSTANCE_TAG || tag == INVOKABLE_TAG,
            address < 0x1_0000_0000_0000,
        ensures
            r.spec_tag() == tag,
            r.spec_payload() == address,
    {
        Self::new(tag, address)
    }

    /// Returns a new array value pointing to the given address.
    #[allow(non_snake_case)]
    pub fn Array(address: u64) -> (r: Self)
        requires
            address < 0x1_0000_0000_0000,
        ensures
            r.spec_tag() == ARRAY_TAG,
            r.spec_payload() == address,
    {
        Self::new_pointer(ARRAY_TAG, address)
    }

    /// Returns a new block value pointing to the given address.
    #[allow(non_snake_case)]
    pub fn Block(address: u64) -> (r: Self)
        requires
            address < 0x1_0000_0000_0000,
        ensures
            r.spec_tag() == BLOCK_TAG,
            r.spec_payload() == address,
    {
        Self::new_pointer(BLOCK_TAG, address)
    }

    /// Returns a new class value pointing to the given address.
    #[allow(non_snake_case)]
    pub fn Class(address: u64) -> (r: Self)
        requires
            address < 0x1_0000_0000_0000,
        ensures
            r.spec_tag() == CLASS_TAG,
            r.spec_payload() == address,
    {
        Self::new_pointer(CLASS_TAG, address)
    }

    /// Returns a new instance value pointing to the given address.
    #[allow(non_snake_case)]
    pub fn Instance(address: u64) -> (r: Self)
        requires
            address < 0x1_0000_0000_0000,
        ensures
            r.spec_tag() == INSTANCE_TAG,
            r.spec_payload() == address,
    {
        Self::new_pointer(INSTANCE_TAG, address)
    }

    /// Returns a new invokable value pointing to the given address.
    #[allow(non_snake_case)]
    pub fn Invokable(address: u64) -> (r: Self)
        requires
            address < 0x1_0000_0000_0000,
        ensures
            r.spec_tag() == INVOKABLE_TAG,
            r.spec_payload() == address,
    {
        Self::new_pointer(INVOKABLE_TAG, address)
    }

    /// Returns the heap address this value points to, if it is of the pointer
    /// type with the given tag.
    pub fn as_pointer(self, tag: u64) -> (r: Option<u64>)
        ensures
            r == (if self.spec_tag() == tag {
                Some(self.spec_payload())
            } else {
                None::<u64>
            }),
    {
        if self.tag() == tag {
            Some(self.payload())
        } else {
            None
        }
    }

    /// The class of a value, as decided by its tag.
    pub open spec fn spec_class(self) -> Option<ValueClass> {
        let t = self.spec_tag();
        if t == NIL_TAG {
            Some(ValueClass::Nil)
        } else if t == SYSTEM_TAG {
            Some(ValueClass::System)
        } else if t == BOOLEAN_TAG {
            Some(if self.spec_payload() != 0 { ValueClass::True } else { ValueClass::False })
        } else if t == INTEGER_TAG || t == BIG_INTEGER_TAG {
            Some(ValueClass::Integer)
        } else if t == SYMBOL_TAG {
            Some(ValueClass::Symbol)
        } else if t == STRING_TAG {
            Some(ValueClass::String)
        } else if t == ARRAY_TAG {
            Some(ValueClass::Array)
        } else if t == BLOCK_TAG {
            Some(ValueClass::OfBlock)
        } else if t == INSTANCE_TAG {
            Some(ValueClass::OfInstance)
        } else if t == CLASS_TAG {
            Some(ValueClass::OfClass)
        } else if t == INVOKABLE_TAG {
            Some(ValueClass::OfInvokable)
        } else if is_double_word(self.encoded) {
            Some(ValueClass::Double)
        } else {
            None
        }
    }

    /// Get the class of the current value. A word with an unknown tag that is
    /// no double has no class (`None`).
    pub fn class(&self) -> (r: Option<ValueClass>)
        ensures
            r == self.spec_class(),
    {
        let t = self.tag();
        if t == NIL_TAG {
            Some(ValueClass::Nil)
        } else if t == SYSTEM_TAG {
            Some(ValueClass::System)
        } else if t == BOOLEAN_TAG {
            if self.as_boolean_unchecked() {
                Some(ValueClass::True)
            } else {
                Some(ValueClass::False)
            }
        } else if t == INTEGER_TAG || t == BIG_INTEGER_TAG {
            Some(ValueClass::Integer)
        } else if t == SYMBOL_TAG {
            Some(ValueClass::Symbol)
        } else if t == STRING_TAG {
            Some(ValueClass::String)
        } else if t == ARRAY_TAG {
            Some(ValueClass::Array)
        } else if t == BLOCK_TAG {
            Some(ValueClass::OfBlock)
        } else if t == INSTANCE_TAG {
            Some(ValueClass::OfInstance)
        } else if t == CLASS_TAG {
            Some(ValueClass::OfClass)
        } else if t == INVOKABLE_TAG {
            Some(ValueClass::OfInvokable)
        } else if self.is_double() {
            Some(ValueClass::Double)
        } else {
            None
        }
    }
}

impl AstNaNBoxedVal {
    /// Whether the value points to an object with fields: an instance or a
    /// class.
    pub open spec fn has_fields(self) -> bool {
        self.spec_tag() == INSTANCE_TAG || self.spec_tag() == CLASS_TAG
    }

    /// Search for a local binding within this value: `fields` are the fields
    /// of the instance or class this value points to.
    pub fn lookup_local(&self, fields: &Vec<AstNaNBoxedVal>, idx: u8) -> (r: AstNaNBoxedVal)
        requires
            self.has_fields(),
            idx < fields@.len(),
        ensures
            r == fields@[idx as int],
    {
        fields[idx as usize]
    }

    /// Assign a value to a local binding within this value: `fields` are the
    /// fields of the instance or class this value points to. Any other value
    /// has no binding to assign, and nothing changes.
    pub fn assign_local(&self, fields: &mut Vec<AstNaNBoxedVal>, idx: u8, value: AstNaNBoxedVal) -> (r: Option<()>)
        requires
            self.has_fields() ==> idx < old(fields)@.len(),
        ensures
            r is Some <==> self.has_fields(),
            self.has_fields() ==> final(fields)@ == old(fields)@.update(idx as int, value),
            !self.has_fields() ==> final(fields)@ == old(fields)@,
    {
        if self.is_instance() || self.is_class() {
            fields.set(idx as usize, value);
            Some(())
        } else {
            None
        }
    }
}

/// An integer stored into a value reads back as the same integer; a boolean
/// reads back as the same boolean; a symbol as the same symbol.
pub proof fn lemma_boxing_roundtrip(i: i32, b: bool, s: Interned)
    ensures
        ({
            let v = AstNaNBoxedVal { encoded: encode(INTEGER_TAG, (i as u32) as u64) };
            v.spec_tag() == INTEGER_TAG && AstNaNBoxedVal::payload_as_i32(v.spec_payload()) == i
        }),
        ({
            let v = AstNaNBoxedVal { encoded: encode(BOOLEAN_TAG, if b { 1u64 } else { 0u64 }) };
            v.spec_tag() == BOOLEAN_TAG && (v.spec_payload() != 0) == b
        }),
        ({
            let v = AstNaNBoxedVal { encoded: encode(SYMBOL_TAG, s.0 as u64) };
            v.spec_tag() == SYMBOL_TAG && v.spec_payload() as u32 == s.0
        }),
{
    assert(((i as u32) as u64) < 0x1_0000_0000_0000u64) by (bit_vector);
    assert(((i as u32) as u64) as u32 as i32 == i) by (bit_vector);
    lemma_encode_roundtrip(INTEGER_TAG, (i as u32) as u64);
    lemma_encode_roundtrip(BOOLEAN_TAG, if b { 1u64 } else { 0u64 });
    lemma_encode_roundtrip(SYMBOL_TAG, s.0 as u64);
}

} // verus!
