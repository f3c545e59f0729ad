use ttf_parser::loca::{glyph_range, resolve_glyph_range, GlyphId, IndexToLocationFormat};
use ttf_parser::Error;

fn short_table(values: &[u16]) -> Vec<u8> {
    let mut bytes = Vec::new();
    for value in values {
        bytes.extend_from_slice(&value.to_be_bytes());
    }
    bytes
}

fn long_table(values: &[u32]) -> Vec<u8> {
    let mut bytes = Vec::new();
    for value in values {
        bytes.extend_from_slice(&value.to_be_bytes());
    }
    bytes
}

#[test]
fn short_entries_are_doubled() {
    let loca = short_table(&[0, 0, 5, 5]);
    let short = IndexToLocationFormat::Short;
    assert_eq!(resolve_glyph_range(GlyphId(0), 3, short, &loca), None);
    assert_eq!(resolve_glyph_range(GlyphId(1), 3, short, &loca), Some(0..10));
    assert_eq!(resolve_glyph_range(GlyphId(2), 3, short, &loca), None);
    assert_eq!(glyph_range(GlyphId(1), 3, short, &loca), Ok(Some(0..10)));
    assert_eq!(glyph_range(GlyphId(0), 3, short, &loca), Ok(None));
}

#[test]
fn short_entries_reach_past_sixteen_bits() {
    let loca = short_table(&[0x7000, 0xffff]);
    let short = IndexToLocationFormat::Short;
    assert_eq!(resolve_glyph_range(GlyphId(0), 1, short, &loca), Some(0xe000..0x1fffe));
}

#[test]
fn long_entries_are_used_as_they_are() {
    let loca = long_table(&[0, 12, 12, 0x0001_0000]);
    let long = IndexToLocationFormat::Long;
    assert_eq!(resolve_glyph_range(GlyphId(0), 3, long, &loca), Some(0..12));
    assert_eq!(resolve_glyph_range(GlyphId(1), 3, long, &loca), None);
    assert_eq!(resolve_glyph_range(GlyphId(2), 3, long, &loca), Some(12..0x0001_0000));
    assert_eq!(glyph_range(GlyphId(2), 3, long, &loca), Ok(Some(12..0x0001_0000)));
}

#[test]
fn ambiguous_glyph_count_gives_nothing() {
    let loca = vec![0u8; 4 * 0x1_0000];
    let mut filled = loca.clone();
    for (index, byte) in filled.iter_mut().enumerate() {
        *byte = (index / 4) as u8;
    }
    for id in [0u16, 1, 2, 100, 0x7fff, 0xfffe, 0xffff] {
        for format in [IndexToLocationFormat::Short, IndexToLocationFormat::Long] {
            assert_eq!(resolve_glyph_range(GlyphId(id), 0xffff, format, &loca), None);
            assert_eq!(resolve_glyph_range(GlyphId(id), 0xffff, format, &filled), None);
            assert_eq!(glyph_range(GlyphId(id), 0xffff, format, &filled), Ok(None));
            assert_eq!(glyph_range(GlyphId(id), 0xffff, format, &[]), Ok(None));
        }
    }
}

#[test]
fn reserved_glyph_id_gives_nothing() {
    let loca = long_table(&[0, 4, 8, 12]);
    for count in [0u16, 1, 3, 1000, 0xfffe, 0xffff] {
        for format in [IndexToLocationFormat::Short, IndexToLocationFormat::Long] {
            assert_eq!(resolve_glyph_range(GlyphId(0xffff), count, format, &loca), None);
            assert_eq!(glyph_range(GlyphId(0xffff), count, format, &loca), Ok(None));
        }
    }
}

#[test]
fn glyph_id_from_the_count_on_gives_nothing() {
    let loca = long_table(&[0, 4, 8, 12]);
    let long = IndexToLocationFormat::Long;
    assert_eq!(resolve_glyph_range(GlyphId(2), 3, long, &loca), Some(8..12));
    assert_eq!(resolve_glyph_range(GlyphId(3), 3, long, &loca), None);
    assert_eq!(resolve_glyph_range(GlyphId(4), 3, long, &loca), None);
    assert_eq!(glyph_range(GlyphId(3), 3, long, &[]), Ok(None));
    assert_eq!(resolve_glyph_range(GlyphId(0), 0, long, &loca), None);
}

#[test]
fn descending_entries_give_nothing() {
    let long = long_table(&[10, 4, 8]);
    assert_eq!(resolve_glyph_range(GlyphId(0), 2, IndexToLocationFormat::Long, &long), None);
    assert_eq!(glyph_range(GlyphId(0), 2, IndexToLocationFormat::Long, &long), Ok(None));
    assert_eq!(resolve_glyph_range(GlyphId(1), 2, IndexToLocationFormat::Long, &long), Some(4..8));
    let short = short_table(&[9, 3]);
    assert_eq!(resolve_glyph_range(GlyphId(0), 1, IndexToLocationFormat::Short, &short), None);
}

#[test]
fn table_too_short_is_out_of_bounds() {
    let loca = short_table(&[0, 2, 4]);
    let short = IndexToLocationFormat::Short;
    assert_eq!(glyph_range(GlyphId(0), 3, short, &loca), Err(Error::SliceOutOfBounds));
    assert_eq!(resolve_glyph_range(GlyphId(0), 3, short, &loca), None);
    assert_eq!(glyph_range(GlyphId(0), 2, short, &loca), Ok(Some(0..4)));
    let long = IndexToLocationFormat::Long;
    assert_eq!(glyph_range(GlyphId(0), 1, long, &loca), Err(Error::SliceOutOfBounds));
    assert_eq!(glyph_range(GlyphId(0), 1, long, &[]), Err(Error::SliceOutOfBounds));
    assert_eq!(resolve_glyph_range(GlyphId(0), 1, long, &[]), None);
}

#[test]
fn largest_unambiguous_table() {
    let values: Vec<u32> = (0..0xffffu32).map(|i| i * 3).collect();
    let loca = long_table(&values);
    let long = IndexToLocationFormat::Long;
    assert_eq!(
        resolve_glyph_range(GlyphId(0xfffd), 0xfffe, long, &loca),
        Some(0xfffd * 3..0xfffe * 3)
    );
    assert_eq!(resolve_glyph_range(GlyphId(0xfffe), 0xfffe, long, &loca), None);
}
