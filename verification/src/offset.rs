//! Addresses stored relative to an agreed base, where zero means "absent".

use crate::array::LazyArray;
use crate::scalar::{lemma_scalar_sizes, FromData};
use crate::stream::{span, SafeStream};
use vstd::prelude::*;

verus! {

/// A byte distance from some base position.
pub trait Offset {
    /// The distance in bytes.
    spec fn offset_value(&self) -> int;

    fn to_usize(&self) -> (n: usize)
        ensures
            n == self.offset_value(),
    ;

    /// Whether the offset is the distinguished zero, which addresses nothing.
    fn is_null(&self) -> (null: bool)
        ensures
            null == (self.offset_value() == 0),
    {
        self.to_usize() == 0
    }
}

/// A 16-bit offset.
#[derive(Clone, Copy, Debug)]
pub struct Offset16(pub u16);

impl Offset for Offset16 {
    open spec fn offset_value(&self) -> int {
        self.0 as int
    }

    fn to_usize(&self) -> (n: usize) {
        self.0 as usize
    }
}

impl FromData for Offset16 {
    const SIZE: usize = 2;

    open spec fn spec_parse(data: Seq<u8>) -> Offset16 {
        Offset16(<u16 as FromData>::spec_parse(data))
    }

    #[inline]
    fn parse(data: &[u8]) -> (value: Offset16) {
        proof {
            lemma_scalar_sizes();
            assert(span(data@, 0, 2) =~= data@);
        }
        let mut stream = SafeStream::new(data);
        Offset16(stream.read())
    }
}

impl FromData for Option<Offset16> {
    const SIZE: usize = 2;

    /// A stored zero decodes to no offset, anything else to that offset.
    open spec fn spec_parse(data: Seq<u8>) -> Option<Offset16> {
        let offset = <Offset16 as FromData>::spec_parse(data);
        if offset.0 != 0 {
            Some(offset)
        } else {
            None
        }
    }

    #[inline]
    fn parse(data: &[u8]) -> (value: Option<Offset16>) {
        let offset = Offset16::parse(data);
        if offset.0 != 0 {
            Some(offset)
        } else {
            None
        }
    }
}

/// A 32-bit offset.
#[derive(Clone, Copy, Debug)]
pub struct Offset32(pub u32);

impl Offset for Offset32 {
    open spec fn offset_value(&self) -> int {
        self.0 as int
    }

    fn to_usize(&self) -> (n: usize) {
        self.0 as usize
    }
}

impl FromData for Offset32 {
    const SIZE: usize = 4;

    open spec fn spec_parse(data: Seq<u8>) -> Offset32 {
        Offset32(<u32 as FromData>::spec_parse(data))
    }

    #[inline]
    fn parse(data: &[u8]) -> (value: Offset32) {
        proof {
            lemma_scalar_sizes();
            assert(span(data@, 0, 4) =~= data@);
        }
        let mut stream = SafeStream::new(data);
        Offset32(stream.read())
    }
}

impl FromData for Option<Offset32> {
    const SIZE: usize = 4;

    /// A stored zero decodes to no offset, anything else to that offset.
    open spec fn spec_parse(data: Seq<u8>) -> Option<Offset32> {
        let offset = <Offset32 as FromData>::spec_parse(data);
        if offset.0 != 0 {
            Some(offset)
        } else {
            None
        }
    }

    #[inline]
    fn parse(data: &[u8]) -> (value: Option<Offset32>) {
        let offset = Offset32::parse(data);
        if offset.0 != 0 {
            Some(offset)
        } else {
            None
        }
    }
}

/// The widths of the offsets, for code outside this module.
pub proof fn lemma_offset_sizes()
    ensures
        <Offset16 as FromData>::SIZE == 2,
        <Offset32 as FromData>::SIZE == 4,
        <Option<Offset16> as FromData>::SIZE == 2,
        <Option<Offset32> as FromData>::SIZE == 4,
{
}

/// An array of offsets, each counted from the beginning of `data`.
pub struct Offsets<'a, T: Offset + FromData> {
    pub data: &'a [u8],
    pub offsets: LazyArray<'a, T>,
}

} // verus!
