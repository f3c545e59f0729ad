//! Cursors over a byte buffer: one that checks every read against the
//! buffer's bounds, and one for spans that were checked before.

use crate::array::LazyArray;
use crate::offset::Offset;
use crate::scalar::{lemma_scalar_sizes, FSize, FromData, TryFromData};
use crate::Error;
use core::ops::Range;
use vstd::prelude::*;

verus! {

/// Whether the `width` bytes from `start` on lie inside `buffer`.
pub open spec fn span_in_bounds(buffer: Seq<u8>, start: int, width: int) -> bool {
    0 <= start && 0 <= width && start + width <= buffer.len()
}

/// The `width` bytes of `buffer` from `start` on.
pub open spec fn span(buffer: Seq<u8>, start: int, width: int) -> Seq<u8> {
    buffer.subrange(start, start + width)
}

/// What reading `count` elements of type `T` at `start` comes to: the view
/// over the next `count` widths and a cursor past them, or a refusal with the
/// cursor left at `start` where those bytes do not lie inside `buffer`.
pub open spec fn array_read_outcome<'a, T: FromData>(
    buffer: Seq<u8>,
    start: int,
    count: int,
    result: Result<LazyArray<'a, T>, Error>,
    after: int,
) -> bool {
    match result {
        Ok(array) => {
            &&& span_in_bounds(buffer, start, count * T::SIZE)
            &&& array.bytes() == span(buffer, start, count * T::SIZE)
            &&& array@.len() == count
            &&& after == start + count * T::SIZE
        },
        Err(error) => {
            &&& !span_in_bounds(buffer, start, count * T::SIZE)
            &&& error == Error::SliceOutOfBounds
            &&& after == start
        },
    }
}

/// `count` elements of `size` bytes each take `count * size` bytes, and that
/// many bytes hold `count` whole elements.
proof fn lemma_array_width(count: int, size: int)
    requires
        0 <= count,
        0 < size,
    ensures
        0 <= count * size,
        (count * size) / size == count,
{
    assert(0 <= count * size && (count * size) / size == count) by (nonlinear_arith)
        requires
            0 <= count,
            0 < size,
    ;
}

/// Slicing that reports a span outside the bytes instead of panicking.
pub trait TrySlice<'a> {
    /// The bytes that are sliced.
    spec fn slice_bytes(&self) -> Seq<u8>;

    /// The bytes from `range.start` up to, not including, `range.end`.
    fn try_slice(&self, range: Range<usize>) -> (slice: Result<&'a [u8], Error>)
        ensures
            match slice {
                Ok(bytes) => range.start <= range.end <= self.slice_bytes().len() && bytes@
                    == self.slice_bytes().subrange(range.start as int, range.end as int),
                Err(error) => !(range.start <= range.end <= self.slice_bytes().len()) && error
                    == Error::SliceOutOfBounds,
            },
    ;

    /// The bytes from `start` to the end.
    fn try_slice_from<T: Offset>(&self, start: T) -> (slice: Result<&'a [u8], Error>)
        ensures
            match slice {
                Ok(bytes) => 0 <= start.offset_value() <= self.slice_bytes().len() && bytes@
                    == self.slice_bytes().subrange(
                    start.offset_value(),
                    self.slice_bytes().len() as int,
                ),
                Err(error) => !(0 <= start.offset_value() <= self.slice_bytes().len()) && error
                    == Error::SliceOutOfBounds,
            },
    ;
}

impl<'a> TrySlice<'a> for &'a [u8] {
    open spec fn slice_bytes(&self) -> Seq<u8> {
        self@
    }

    #[inline]
    fn try_slice(&self, range: Range<usize>) -> (slice: Result<&'a [u8], Error>) {
        if range.start <= range.end && range.end <= self.len() {
            Ok(vstd::slice::slice_subrange(*self, range.start, range.end))
        } else {
            Err(Error::SliceOutOfBounds)
        }
    }

    #[inline]
    fn try_slice_from<T: Offset>(&self, start: T) -> (slice: Result<&'a [u8], Error>) {
        let first: usize = start.to_usize();
        if first <= self.len() {
            Ok(vstd::slice::slice_subrange(*self, first, self.len()))
        } else {
            Err(Error::SliceOutOfBounds)
        }
    }
}

/// A cursor that checks every read against the bounds of its buffer. It is
/// the reader for bytes that nobody has checked yet.
#[derive(Clone, Copy)]
pub struct Stream<'a> {
    data: &'a [u8],
    offset: usize,
}

impl<'a> Stream<'a> {
    /// The whole buffer that the cursor moves over.
    pub closed spec fn buffer(&self) -> Seq<u8> {
        self.data@
    }

    /// The position of the cursor, in bytes from the start of the buffer.
    pub closed spec fn cursor(&self) -> int {
        self.offset as int
    }

    #[inline]
    pub fn new(data: &'a [u8]) -> (stream: Self)
        ensures
            stream.buffer() == data@,
            stream.cursor() == 0,
    {
        Stream { data, offset: 0 }
    }

    /// A cursor that starts at `offset`, which may lie past the end: the next
    /// read finds that out.
    #[inline]
    pub fn new_at(data: &'a [u8], offset: usize) -> (stream: Self)
        ensures
            stream.buffer() == data@,
            stream.cursor() == offset,
    {
        Stream { data, offset }
    }

    #[inline]
    pub fn at_end(&self) -> (end: bool)
        ensures
            end == (self.cursor() == self.buffer().len()),
    {
        self.offset == self.data.len()
    }

    #[inline]
    pub fn offset(&self) -> (offset: usize)
        ensures
            offset == self.cursor(),
    {
        self.offset
    }

    /// Everything from the cursor to the end of the buffer.
    #[inline]
    pub fn tail(&self) -> (tail: Result<&'a [u8], Error>)
        ensures
            match tail {
                Ok(bytes) => self.cursor() <= self.buffer().len() && bytes@
                    == self.buffer().subrange(self.cursor(), self.buffer().len() as int),
                Err(error) => self.cursor() > self.buffer().len() && error
                    == Error::SliceOutOfBounds,
            },
    {
        self.data.try_slice(self.offset..self.data.len())
    }

    /// Moves the cursor over one `T` without decoding it.
    #[inline]
    pub fn skip<T: FromData>(&mut self)
        requires
            old(self).cursor() + T::SIZE <= usize::MAX,
        ensures
            final(self).buffer() == old(self).buffer(),
            final(self).cursor() == old(self).cursor() + T::SIZE,
    {
        self.offset = self.offset + T::SIZE;
    }

    /// Moves the cursor forward by `len` bytes without reading them.
    #[inline]
    pub fn advance<L: FSize>(&mut self, len: L)
        requires
            old(self).cursor() + len.size_value() <= usize::MAX,
        ensures
            final(self).buffer() == old(self).buffer(),
            final(self).cursor() == old(self).cursor() + len.size_value(),
    {
        self.offset = self.offset + len.to_usize();
    }

    /// Decodes the `T` under the cursor and moves past it. A `T` that does not
    /// lie inside the buffer is refused, and the cursor stays.
    #[inline]
    pub fn read<T: FromData>(&mut self) -> (value: Result<T, Error>)
        ensures
            final(self).buffer() == old(self).buffer(),
            match value {
                Ok(v) => {
                    &&& span_in_bounds(old(self).buffer(), old(self).cursor(), T::SIZE as int)
                    &&& v == T::spec_parse(
                        span(old(self).buffer(), old(self).cursor(), T::SIZE as int),
                    )
                    &&& final(self).cursor() == old(self).cursor() + T::SIZE
                },
                Err(error) => {
                    &&& !span_in_bounds(old(self).buffer(), old(self).cursor(), T::SIZE as int)
                    &&& error == Error::SliceOutOfBounds
                    &&& final(self).cursor() == old(self).cursor()
                },
            },
    {
        match self.read_bytes(T::SIZE) {
            Ok(bytes) => Ok(T::parse(bytes)),
            Err(error) => Err(error),
        }
    }

    /// Decodes the `T` under the cursor, which may reject the bytes, and
    /// moves past it. A `T` that does not lie inside the buffer is refused,
    /// and the cursor stays.
    #[inline]
    pub fn try_read<T: TryFromData>(&mut self) -> (value: Result<T, Error>)
        ensures
            final(self).buffer() == old(self).buffer(),
            value == (if span_in_bounds(old(self).buffer(), old(self).cursor(), T::SIZE as int) {
                T::spec_try_parse(span(old(self).buffer(), old(self).cursor(), T::SIZE as int))
            } else {
                Err(Error::SliceOutOfBounds)
            }),
            final(self).cursor() == (if span_in_bounds(
                old(self).buffer(),
                old(self).cursor(),
                T::SIZE as int,
            ) {
                old(self).cursor() + T::SIZE
            } else {
                old(self).cursor()
            }),
    {
        match self.read_bytes(T::SIZE) {
            Ok(bytes) => T::try_parse(bytes),
            Err(error) => Err(error),
        }
    }

    /// Decodes the `T` that starts `offset` bytes into `data`.
    #[inline]
    pub fn read_at<T: FromData>(data: &[u8], offset: usize) -> (value: Result<T, Error>)
        ensures
            value == (if span_in_bounds(data@, offset as int, T::SIZE as int) {
                Ok(T::spec_parse(span(data@, offset as int, T::SIZE as int)))
            } else {
                Err(Error::SliceOutOfBounds)
            }),
    {
        let mut stream = Stream::new_at(data, offset);
        stream.read()
    }

    /// The next `len` bytes, and moves past them. A span that does not lie
    /// inside the buffer is refused, and the cursor stays.
    #[inline]
    pub fn read_bytes<L: FSize>(&mut self, len: L) -> (bytes: Result<&'a [u8], Error>)
        ensures
            final(self).buffer() == old(self).buffer(),
            match bytes {
                Ok(b) => {
                    &&& span_in_bounds(old(self).buffer(), old(self).cursor(), len.size_value())
                    &&& b@ == span(old(self).buffer(), old(self).cursor(), len.size_value())
                    &&& final(self).cursor() == old(self).cursor() + len.size_value()
                },
                Err(error) => {
                    &&& !span_in_bounds(old(self).buffer(), old(self).cursor(), len.size_value())
                    &&& error == Error::SliceOutOfBounds
                    &&& final(self).cursor() == old(self).cursor()
                },
            },
    {
        let width: usize = len.to_usize();
        let start: usize = self.offset;
        let total: usize = self.data.len();
        if start <= total && width <= total - start {
            self.offset = start + width;
            Ok(vstd::slice::slice_subrange(self.data, start, start + width))
        } else {
            Err(Error::SliceOutOfBounds)
        }
    }

    /// A view over the next `len` elements of type `T`, and moves past them.
    /// Elements that do not all lie inside the buffer are refused, and the
    /// cursor stays.
    #[inline]
    pub fn read_array<T: FromData, L: FSize>(&mut self, len: L) -> (array: Result<
        LazyArray<'a, T>,
        Error,
    >)
        requires
            T::SIZE > 0,
        ensures
            final(self).buffer() == old(self).buffer(),
            array_read_outcome(
                old(self).buffer(),
                old(self).cursor(),
                len.size_value(),
                array,
                final(self).cursor(),
            ),
    {
        let count: usize = len.to_usize();
        proof {
            lemma_array_width(count as int, T::SIZE as int);
        }
        assert(self.data.len() == self.data@.len());
        match count.checked_mul(T::SIZE) {
            Some(width) => match self.read_bytes(width) {
                Ok(bytes) => Ok(LazyArray::new(bytes)),
                Err(error) => Err(error),
            },
            None => Err(Error::SliceOutOfBounds),
        }
    }

    /// Reads a 16-bit count and then a view over that many elements. Where
    /// the count is read and the elements are refused, the cursor stays
    /// behind the count.
    #[inline]
    pub fn read_array16<T: FromData>(&mut self) -> (array: Result<LazyArray<'a, T>, Error>)
        requires
            T::SIZE > 0,
        ensures
            final(self).buffer() == old(self).buffer(),
            if span_in_bounds(old(self).buffer(), old(self).cursor(), 2) {
                array_read_outcome(
                    old(self).buffer(),
                    old(self).cursor() + 2,
                    <u16 as FromData>::spec_parse(span(old(self).buffer(), old(self).cursor(), 2))
                        as int,
                    array,
                    final(self).cursor(),
                )
            } else {
                &&& array matches Err(error) && error == Error::SliceOutOfBounds
                &&& final(self).cursor() == old(self).cursor()
            },
    {
        proof {
            lemma_scalar_sizes();
        }
        match self.read::<u16>() {
            Ok(count) => self.read_array(count),
            Err(error) => Err(error),
        }
    }

    /// Reads a 32-bit count and then a view over that many elements. Where
    /// the count is read and the elements are refused, the cursor stays
    /// behind the count.
    #[inline]
    pub fn read_array32<T: FromData>(&mut self) -> (array: Result<LazyArray<'a, T>, Error>)
        requires
            T::SIZE > 0,
        ensures
            final(self).buffer() == old(self).buffer(),
            if span_in_bounds(old(self).buffer(), old(self).cursor(), 4) {
                array_read_outcome(
                    old(self).buffer(),
                    old(self).cursor() + 4,
                    <u32 as FromData>::spec_parse(span(old(self).buffer(), old(self).cursor(), 4))
                        as int,
                    array,
                    final(self).cursor(),
                )
            } else {
                &&& array matches Err(error) && error == Error::SliceOutOfBounds
                &&& final(self).cursor() == old(self).cursor()
            },
    {
        proof {
            lemma_scalar_sizes();
        }
        match self.read::<u32>() {
            Ok(count) => self.read_array(count),
            Err(error) => Err(error),
        }
    }
}

/// A cursor for spans that were checked before. It does not check again, so
/// its caller has to know that each read lies inside the buffer.
#[derive(Clone, Copy)]
pub struct SafeStream<'a> {
    data: &'a [u8],
    offset: usize,
}

impl<'a> SafeStream<'a> {
    /// The whole buffer that the cursor moves over.
    pub closed spec fn buffer(&self) -> Seq<u8> {
        self.data@
    }

    /// The position of the cursor, in bytes from the start of the buffer.
    pub closed spec fn cursor(&self) -> int {
        self.offset as int
    }

    #[inline]
    pub fn new(data: &'a [u8]) -> (stream: Self)
        ensures
            stream.buffer() == data@,
            stream.cursor() == 0,
    {
        SafeStream { data, offset: 0 }
    }

    /// Decodes the `T` under the cursor and moves past it.
    #[inline]
    pub fn read<T: FromData>(&mut self) -> (value: T)
        requires
            span_in_bounds(old(self).buffer(), old(self).cursor(), T::SIZE as int),
        ensures
            final(self).buffer() == old(self).buffer(),
            final(self).cursor() == old(self).cursor() + T::SIZE,
            value == T::spec_parse(span(old(self).buffer(), old(self).cursor(), T::SIZE as int)),
    {
        T::parse(self.read_bytes(T::SIZE))
    }

    /// The next `len` bytes, and moves past them.
    #[inline]
    pub fn read_bytes<L: FSize>(&mut self, len: L) -> (bytes: &'a [u8])
        requires
            span_in_bounds(old(self).buffer(), old(self).cursor(), len.size_value()),
        ensures
            final(self).buffer() == old(self).buffer(),
            final(self).cursor() == old(self).cursor() + len.size_value(),
            bytes@ == span(old(self).buffer(), old(self).cursor(), len.size_value()),
    {
        let width: usize = len.to_usize();
        let start: usize = self.offset;
        assert(self.data.len() == self.data@.len());
        self.offset = start + width;
        vstd::slice::slice_subrange(self.data, start, start + width)
    }
}

} // verus!
