//! The glyph-location table: where each glyph's outline lies in the outline
//! data, stored as an array of ascending offsets with one entry more than
//! there are glyphs.

use crate::array::LazyArray;
use crate::scalar::{be16, be32, lemma_scalar_sizes};
use crate::stream::{span, Stream};
use crate::Error;
use core::ops::Range;
use vstd::prelude::*;

verus! {

/// A glyph's number in its font.
#[derive(Clone, Copy, Debug, PartialEq, Eq, Structural)]
pub struct GlyphId(pub u16);

/// The width in which the glyph-location table stores its offsets.
#[derive(Clone, Copy, Debug, PartialEq, Eq, Structural)]
pub enum IndexToLocationFormat {
    /// 16-bit entries that hold half the offset.
    Short,
    /// 32-bit entries that hold the offset.
    Long,
}

/// The number of bytes that one entry of the table takes.
pub open spec fn entry_width(format: IndexToLocationFormat) -> int {
    match format {
        IndexToLocationFormat::Short => 2,
        IndexToLocationFormat::Long => 4,
    }
}

/// The byte offset that entry `index` of the table stands for.
pub open spec fn loca_entry(format: IndexToLocationFormat, loca: Seq<u8>, index: int) -> int {
    match format {
        IndexToLocationFormat::Short => 2 * be16(span(loca, 2 * index, 2)),
        IndexToLocationFormat::Long => be32(span(loca, 4 * index, 4)),
    }
}

/// Where the outline of glyph `glyph_id` lies, as the start and the end of a
/// half-open range of bytes.
///
/// There is no range where the glyph count is the ambiguous `0xFFFF`, where
/// the id is the reserved `0xFFFF` or not below the count, and where the
/// glyph's two entries are equal or descend. A table too short for one entry
/// more than there are glyphs is out of bounds.
pub open spec fn glyph_bounds(
    glyph_id: u16,
    number_of_glyphs: u16,
    format: IndexToLocationFormat,
    loca: Seq<u8>,
) -> Result<Option<(int, int)>, Error> {
    if number_of_glyphs == 0xFFFF || glyph_id == 0xFFFF || glyph_id >= number_of_glyphs {
        Ok(None)
    } else if (number_of_glyphs + 1) * entry_width(format) > loca.len() {
        Err(Error::SliceOutOfBounds)
    } else {
        let start = loca_entry(format, loca, glyph_id as int);
        let end = loca_entry(format, loca, glyph_id + 1);
        if start < end {
            Ok(Some((start, end)))
        } else {
            Ok(None)
        }
    }
}

/// Whether `range` is the range that `bounds` gives, or both are none.
pub open spec fn is_range(range: Option<Range<usize>>, bounds: Option<(int, int)>) -> bool {
    match (range, bounds) {
        (Some(r), Some((start, end))) => r.start == start && r.end == end,
        (None, None) => true,
        _ => false,
    }
}

/// The bytes of entry `index`, taken from the first `width` bytes of the
/// table, are the bytes of that entry in the table.
proof fn lemma_entry_bytes(loca: Seq<u8>, width: int, index: int, size: int)
    requires
        0 <= index,
        0 < size,
        index * size + size <= width <= loca.len(),
    ensures
        span(loca, 0, width).subrange(index * size, index * size + size) == span(
            loca,
            size * index,
            size,
        ),
{
    assert(index * size == size * index) by (nonlinear_arith);
    assert(span(loca, 0, width).subrange(index * size, index * size + size) =~= span(
        loca,
        size * index,
        size,
    ));
}

/// Finds the byte range of a glyph's outline in the outline data, or that
/// the table is too short to say.
pub fn glyph_range(
    glyph_id: GlyphId,
    number_of_glyphs: u16,
    format: IndexToLocationFormat,
    loca: &[u8],
) -> (range: Result<Option<Range<usize>>, Error>)
    ensures
        match (range, glyph_bounds(glyph_id.0, number_of_glyphs, format, loca@)) {
            (Ok(found), Ok(bounds)) => is_range(found, bounds),
            (Err(error), Err(expected)) => error == expected,
            _ => false,
        },
{
    if number_of_glyphs == u16::MAX {
        return Ok(None);
    }
    let glyph_id: u16 = glyph_id.0;
    if glyph_id == u16::MAX {
        return Ok(None);
    }
    let total: u16 = number_of_glyphs + 1;
    if glyph_id + 1 >= total {
        return Ok(None);
    }
    let mut s = Stream::new(loca);
    let (start, end): (usize, usize) = match format {
        IndexToLocationFormat::Short => {
            proof {
                lemma_scalar_sizes();
            }
            let array: LazyArray<u16> = match s.read_array(total) {
                Ok(array) => array,
                Err(error) => return Err(error),
            };
            proof {
                lemma_entry_bytes(loca@, total * 2, glyph_id as int, 2);
                lemma_entry_bytes(loca@, total * 2, glyph_id + 1, 2);
            }
            let first: u16 = array.at(glyph_id);
            let second: u16 = array.at(glyph_id + 1);
            (first as usize * 2, second as usize * 2)
        },
        IndexToLocationFormat::Long => {
            proof {
                lemma_scalar_sizes();
            }
            let array: LazyArray<u32> = match s.read_array(total) {
                Ok(array) => array,
                Err(error) => return Err(error),
            };
            proof {
                lemma_entry_bytes(loca@, total * 4, glyph_id as int, 4);
                lemma_entry_bytes(loca@, total * 4, glyph_id + 1, 4);
            }
            let first: u32 = array.at(glyph_id);
            let second: u32 = array.at(glyph_id + 1);
            (first as usize, second as usize)
        },
    };
    if start < end {
        Ok(Some(start..end))
    } else {
        Ok(None)
    }
}

/// Finds the byte range of a glyph's outline in the outline data. A table
/// too short to say counts as no outline.
pub fn resolve_glyph_range(
    glyph_id: GlyphId,
    number_of_glyphs: u16,
    format: IndexToLocationFormat,
    loca: &[u8],
) -> (range: Option<Range<usize>>)
    ensures
        is_range(
            range,
            match glyph_bounds(glyph_id.0, number_of_glyphs, format, loca@) {
                Ok(bounds) => bounds,
                Err(_) => None,
            },
        ),
        number_of_glyphs == 0xFFFF ==> range.is_none(),
        glyph_id.0 == 0xFFFF ==> range.is_none(),
        range matches Some(r) ==> r.start < r.end,
{
    match glyph_range(glyph_id, number_of_glyphs, format, loca) {
        Ok(range) => range,
        Err(_) => None,
    }
}

} // verus!
