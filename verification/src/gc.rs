//! What the garbage-collected heap records about its objects: the type tag
//! written in each allocation's header, and references as plain addresses.

use core::marker::PhantomData;
use vstd::prelude::*;

verus! {

/// The type of an object on the heap, as its allocation header records it.
#[derive(Clone, Copy, Debug, PartialEq, Eq, Structural)]
pub enum GCMagicId {
    Frame,
    BlockInfo,
    Block,
    Class,
    Instance,
    Method,
    String,
    ArrayVal,
    ArrayU8,
    BigInt,
}

/// The number written in the header for each type: 100 to 109, in the order
/// of the variants.
pub open spec fn magic_number(id: GCMagicId) -> u8 {
    match id {
        GCMagicId::Frame => 100,
        GCMagicId::BlockInfo => 101,
        GCMagicId::Block => 102,
        GCMagicId::Class => 103,
        GCMagicId::Instance => 104,
        GCMagicId::Method => 105,
        GCMagicId::String => 106,
        GCMagicId::ArrayVal => 107,
        GCMagicId::ArrayU8 => 108,
        GCMagicId::BigInt => 109,
    }
}

impl GCMagicId {
    /// The number written in an allocation header for this type.
    pub fn to_u8(self) -> (r: u8)
        ensures
            r == magic_number(self),
    {
        match self {
            GCMagicId::Frame => 100,
            GCMagicId::BlockInfo => 101,
            GCMagicId::Block => 102,
            GCMagicId::Class => 103,
            GCMagicId::Instance => 104,
            GCMagicId::Method => 105,
            GCMagicId::String => 106,
            GCMagicId::ArrayVal => 107,
            GCMagicId::ArrayU8 => 108,
            GCMagicId::BigInt => 109,
        }
    }

    /// The type a header number stands for, if it stands for one.
    pub fn from_u8(n: u8) -> (r: Option<GCMagicId>)
        ensures
            match r {
                Some(id) => magic_number(id) == n,
                None => n < 100 || n > 109,
            },
    {
        if n == 100 {
            Some(GCMagicId::Frame)
        } else if n == 101 {
            Some(GCMagicId::BlockInfo)
        } else if n == 102 {
            Some(GCMagicId::Block)
        } else if n == 103 {
            Some(GCMagicId::Class)
        } else if n == 104 {
            Some(GCMagicId::Instance)
        } else if n == 105 {
            Some(GCMagicId::Method)
        } else if n == 106 {
            Some(GCMagicId::String)
        } else if n == 107 {
            Some(GCMagicId::ArrayVal)
        } else if n == 108 {
            Some(GCMagicId::ArrayU8)
        } else if n == 109 {
            Some(GCMagicId::BigInt)
        } else {
            None
        }
    }
}

/// Every type has its own header number, and reading a header number back
/// gives the type it was written for.
pub proof fn lemma_magic_number_roundtrip(a: GCMagicId, b: GCMagicId)
    ensures
        100 <= magic_number(a) <= 109,
        magic_number(a) == magic_number(b) ==> a == b,
{
}

/// A reference to an object on the heap: its address, zero for none.
pub struct GCRef<T> {
    pub ptr: u64,
    pub _phantom: PhantomData<T>,
}

impl<T> Clone for GCRef<T> {
    fn clone(&self) -> (r: Self)
        ensures
            r.ptr == self.ptr,
    {
        GCRef { ptr: self.ptr, _phantom: PhantomData }
    }
}

impl<T> Copy for GCRef<T> {
}

impl<T> GCRef<T> {
    /// Does the address not point to any data?
    pub fn is_empty(&self) -> (r: bool)
        ensures
            r == (self.ptr == 0),
    {
        self.ptr == 0
    }

    /// The reference whose address is `ptr`, as a NaN-boxed value holds it.
    pub fn from_u64(ptr: u64) -> (r: GCRef<T>)
        ensures
            r.ptr == ptr,
    {
        GCRef { ptr, _phantom: PhantomData }
    }

    /// The placeholder reference, pointing nowhere.
    pub fn empty() -> (r: GCRef<T>)
        ensures
            r.ptr == 0,
    {
        GCRef { ptr: 0, _phantom: PhantomData }
    }

    /// Two references are the same when their addresses are.
    pub fn same_object(&self, other: &GCRef<T>) -> (r: bool)
        ensures
            r == (self.ptr == other.ptr),
    {
        self.ptr == other.ptr
    }
}

} // verus!
