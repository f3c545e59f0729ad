//! Fixed-width, big-endian scalar values and how they are decoded.

use crate::Error;
use vstd::prelude::*;

verus! {

/// The unsigned number that two big-endian bytes encode.
pub open spec fn be16(data: Seq<u8>) -> int
    recommends
        data.len() == 2,
{
    data[0] * 0x100 + data[1]
}

/// The unsigned number that three big-endian bytes encode.
pub open spec fn be24(data: Seq<u8>) -> int
    recommends
        data.len() == 3,
{
    data[0] * 0x1_0000 + data[1] * 0x100 + data[2]
}

/// The unsigned number that four big-endian bytes encode.
pub open spec fn be32(data: Seq<u8>) -> int
    recommends
        data.len() == 4,
{
    data[0] * 0x100_0000 + data[1] * 0x1_0000 + data[2] * 0x100 + data[3]
}

/// Reads `raw`, an unsigned number below `2 * half`, as two's complement.
pub open spec fn twos_complement(raw: int, half: int) -> int {
    if raw >= half {
        raw - 2 * half
    } else {
        raw
    }
}

/// A value with a fixed width on the wire that every byte pattern of that
/// width decodes to.
pub trait FromData: Sized {
    /// The number of bytes that one encoded value takes. It may differ from
    /// the size of `Self` in memory.
    const SIZE: usize;

    /// The value that `data` encodes. An implementation that does not say
    /// leaves it open.
    open spec fn spec_parse(data: Seq<u8>) -> Self {
        arbitrary()
    }

    /// Decodes exactly `SIZE` bytes. The result depends on the bytes alone.
    fn parse(data: &[u8]) -> (value: Self)
        requires
            data@.len() == Self::SIZE,
        ensures
            value == Self::spec_parse(data@),
    ;
}

impl FromData for u8 {
    const SIZE: usize = 1;

    open spec fn spec_parse(data: Seq<u8>) -> u8 {
        data[0]
    }

    #[inline]
    fn parse(data: &[u8]) -> (value: u8) {
        data[0]
    }
}

impl FromData for i8 {
    const SIZE: usize = 1;

    open spec fn spec_parse(data: Seq<u8>) -> i8 {
        twos_complement(data[0] as int, 0x80) as i8
    }

    #[inline]
    fn parse(data: &[u8]) -> (value: i8) {
        let raw: u8 = data[0];
        if raw >= 0x80 {
            ((raw - 0x80) as i8) + i8::MIN
        } else {
            raw as i8
        }
    }
}

impl FromData for u16 {
    const SIZE: usize = 2;

    open spec fn spec_parse(data: Seq<u8>) -> u16 {
        be16(data) as u16
    }

    #[inline]
    fn parse(data: &[u8]) -> (value: u16) {
        (data[0] as u16) * 0x100 + (data[1] as u16)
    }
}

impl FromData for i16 {
    const SIZE: usize = 2;

    open spec fn spec_parse(data: Seq<u8>) -> i16 {
        twos_complement(be16(data), 0x8000) as i16
    }

    #[inline]
    fn parse(data: &[u8]) -> (value: i16) {
        let raw: u16 = u16::parse(data);
        if raw >= 0x8000 {
            ((raw - 0x8000) as i16) + i16::MIN
        } else {
            raw as i16
        }
    }
}

impl FromData for u32 {
    const SIZE: usize = 4;

    open spec fn spec_parse(data: Seq<u8>) -> u32 {
        be32(data) as u32
    }

    #[inline]
    fn parse(data: &[u8]) -> (value: u32) {
        (data[0] as u32) * 0x100_0000 + (data[1] as u32) * 0x1_0000 + (data[2] as u32) * 0x100 + (
        data[3] as u32)
    }
}

impl FromData for i32 {
    const SIZE: usize = 4;

    open spec fn spec_parse(data: Seq<u8>) -> i32 {
        twos_complement(be32(data), 0x8000_0000) as i32
    }

    #[inline]
    fn parse(data: &[u8]) -> (value: i32) {
        let raw: u32 = u32::parse(data);
        if raw >= 0x8000_0000 {
            ((raw - 0x8000_0000) as i32) + i32::MIN
        } else {
            raw as i32
        }
    }
}

/// A 24-bit unsigned integer, held in 32 bits.
#[derive(Clone, Copy, Debug)]
pub struct U24(pub u32);

impl FromData for U24 {
    const SIZE: usize = 3;

    open spec fn spec_parse(data: Seq<u8>) -> U24 {
        U24(be24(data) as u32)
    }

    #[inline]
    fn parse(data: &[u8]) -> (value: U24) {
        U24((data[0] as u32) * 0x1_0000 + (data[1] as u32) * 0x100 + (data[2] as u32))
    }
}

/// The widths of the scalars, for code outside this module.
pub proof fn lemma_scalar_sizes()
    ensures
        <u8 as FromData>::SIZE == 1,
        <i8 as FromData>::SIZE == 1,
        <u16 as FromData>::SIZE == 2,
        <i16 as FromData>::SIZE == 2,
        <u32 as FromData>::SIZE == 4,
        <i32 as FromData>::SIZE == 4,
        <U24 as FromData>::SIZE == 3,
{
}

/// A value with a fixed width on the wire that only some byte patterns of
/// that width decode to.
pub trait TryFromData: Sized {
    /// The number of bytes that one encoded value takes.
    const SIZE: usize;

    /// The value that `data` encodes, or why it encodes none. An
    /// implementation that does not say leaves it open.
    open spec fn spec_try_parse(data: Seq<u8>) -> Result<Self, Error> {
        arbitrary()
    }

    /// Decodes exactly `SIZE` bytes, or rejects them.
    fn try_parse(data: &[u8]) -> (value: Result<Self, Error>)
        requires
            data@.len() == Self::SIZE,
        ensures
            value == Self::spec_try_parse(data@),
    ;
}

/// A count or length as the format stores it.
pub trait FSize {
    /// The number that this value stands for.
    spec fn size_value(&self) -> int;

    fn to_usize(&self) -> (n: usize)
        ensures
            n == self.size_value(),
    ;
}

impl FSize for u16 {
    open spec fn size_value(&self) -> int {
        *self as int
    }

    #[inline]
    fn to_usize(&self) -> (n: usize) {
        *self as usize
    }
}

impl FSize for u32 {
    open spec fn size_value(&self) -> int {
        *self as int
    }

    #[inline]
    fn to_usize(&self) -> (n: usize) {
        *self as usize
    }
}

impl FSize for usize {
    open spec fn size_value(&self) -> int {
        *self as int
    }

    #[inline]
    fn to_usize(&self) -> (n: usize) {
        *self
    }
}

/// The two big-endian bytes that hold `value` in two's complement.
pub open spec fn encode_i16(value: i16) -> Seq<u8> {
    let raw: int = if value < 0 {
        value + 0x1_0000
    } else {
        value as int
    };
    seq![(raw / 0x100) as u8, (raw % 0x100) as u8]
}

/// The four big-endian bytes that hold `value` in two's complement.
pub open spec fn encode_i32(value: i32) -> Seq<u8> {
    let raw: int = if value < 0 {
        value + 0x1_0000_0000
    } else {
        value as int
    };
    seq![
        (raw / 0x100_0000) as u8,
        (raw / 0x1_0000 % 0x100) as u8,
        (raw / 0x100 % 0x100) as u8,
        (raw % 0x100) as u8,
    ]
}

/// Every 16-bit signed number, which is what a fixed-point value with 14
/// fractional bits is stored as, comes back from its encoding unchanged.
pub proof fn lemma_i16_round_trip(value: i16)
    ensures
        encode_i16(value).len() == <i16 as FromData>::SIZE,
        <i16 as FromData>::spec_parse(encode_i16(value)) == value,
{
}

/// Every 32-bit signed number, which is what a fixed-point value with 16
/// fractional bits is stored as, comes back from its encoding unchanged.
pub proof fn lemma_i32_round_trip(value: i32)
    ensures
        encode_i32(value).len() == <i32 as FromData>::SIZE,
        <i32 as FromData>::spec_parse(encode_i32(value)) == value,
{
}

/// Decoding depends on the bytes alone: equal byte sequences decode to equal
/// values, whatever buffers they come from.
pub proof fn lemma_parse_deterministic<T: FromData>(a: &[u8], b: &[u8])
    requires
        a@ == b@,
    ensures
        T::spec_parse(a@) == T::spec_parse(b@),
{
}

} // verus!
