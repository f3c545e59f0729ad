//! Zero-copy decoding of big-endian, offset-addressed binary tables.
//!
//! Every reader and view borrows a caller-owned byte buffer. The contracts are
//! stated over the buffer's byte sequence, so that no read can leave it.

use vstd::prelude::*;

pub mod array;
pub mod loca;
pub mod offset;
pub mod scalar;
pub mod search;
pub mod stream;

pub use array::{LazyArray, LazyArrayIter};
pub use loca::{glyph_range, resolve_glyph_range, GlyphId, IndexToLocationFormat};
pub use offset::{Offset, Offset16, Offset32, Offsets};
pub use scalar::{FSize, FromData, TryFromData, U24};
pub use stream::{SafeStream, Stream, TrySlice};

verus! {

/// Why a read did not yield a value.
#[derive(Clone, Copy, Debug, PartialEq, Eq, Structural)]
pub enum Error {
    /// The requested byte span does not lie inside the buffer.
    SliceOutOfBounds,
    /// The bytes were in bounds but do not encode a value of the requested type.
    InvalidValue,
}

} // verus!
