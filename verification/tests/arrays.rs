use core::cmp::Ordering;
use ttf_parser::array::LazyArray;
use ttf_parser::scalar::U24;

fn be16(values: &[u16]) -> Vec<u8> {
    let mut bytes = Vec::new();
    for value in values {
        bytes.extend_from_slice(&value.to_be_bytes());
    }
    bytes
}

#[test]
fn len_is_the_quotient() {
    let bytes = [0u8; 7];
    assert_eq!(LazyArray::<u16>::new(&bytes).len(), 3);
    assert_eq!(LazyArray::<u32>::new(&bytes).len(), 1);
    assert_eq!(LazyArray::<U24>::new(&bytes).len(), 2);
    assert_eq!(LazyArray::<u8>::new(&bytes).len(), 7);
    assert_eq!(LazyArray::<u32>::new(&bytes[..3]).len(), 0);
}

#[test]
fn remainder_bytes_belong_to_no_element() {
    let bytes = [0x00, 0x01, 0x00, 0x02, 0xff];
    let array = LazyArray::<u16>::new(&bytes);
    assert_eq!(array.len(), 2);
    assert_eq!(array.get(1u16), Some(2));
    assert_eq!(array.get(2u16), None);
    assert_eq!(array.last(), Some(2));
}

#[test]
fn get_is_none_from_len_on() {
    let bytes = be16(&[10, 20, 30]);
    let array = LazyArray::<u16>::new(&bytes);
    for index in 0u32..10 {
        assert_eq!(array.get(index).is_none(), index as usize >= array.len());
    }
    assert_eq!(array.get(u32::MAX), None);
    assert_eq!(array.get(usize::MAX), None);
}

#[test]
fn get_agrees_with_at() {
    let bytes = be16(&[10, 20, 30, 40]);
    let array = LazyArray::<u16>::new(&bytes);
    for index in 0u16..4 {
        assert_eq!(array.get(index), Some(array.at(index)));
    }
    assert_eq!(array.at(0u32), 10);
    assert_eq!(array.at(3u16), 40);
    assert_eq!(array.at(2usize), 30);
}

#[test]
fn indexing_is_repeatable() {
    let bytes = be16(&[7, 8]);
    let array = LazyArray::<u16>::new(&bytes);
    assert_eq!(array.at(1u16), array.at(1u16));
    let copy = array;
    assert_eq!(copy.at(0u16), array.at(0u16));
    assert_eq!(array.clone().len(), 2);
}

#[test]
fn last_and_is_empty() {
    let bytes = be16(&[5, 6, 7]);
    let array = LazyArray::<u16>::new(&bytes);
    assert!(!array.is_empty());
    assert_eq!(array.last(), Some(7));
    let empty = LazyArray::<u16>::new(&[]);
    assert!(empty.is_empty());
    assert_eq!(empty.len(), 0);
    assert_eq!(empty.last(), None);
    assert_eq!(empty.get(0u16), None);
    let short = LazyArray::<u32>::new(&bytes[..3]);
    assert!(short.is_empty());
    assert_eq!(short.last(), None);
}

#[test]
fn u24_elements_are_three_bytes_apart() {
    let bytes = [0, 0, 1, 0, 1, 0, 1, 0, 0];
    let array = LazyArray::<U24>::new(&bytes);
    assert_eq!(array.len(), 3);
    assert_eq!(array.at(0u16).0, 1);
    assert_eq!(array.at(1u16).0, 256);
    assert_eq!(array.at(2u16).0, 65536);
}

#[test]
fn iteration_walks_in_index_order_and_restarts() {
    let bytes = be16(&[3, 1, 2]);
    let array = LazyArray::<u16>::new(&bytes);
    let mut iter = array.into_iter();
    assert_eq!(iter.next(), Some(3));
    assert_eq!(iter.next(), Some(1));
    assert_eq!(iter.next(), Some(2));
    assert_eq!(iter.next(), None);
    assert_eq!(iter.next(), None);
    let mut again = array.into_iter();
    assert_eq!(again.next(), Some(3));
    assert_eq!(array.len(), 3);
}

#[test]
fn nth_counts_from_the_first_element() {
    let bytes = be16(&[3, 1, 2]);
    let mut iter = LazyArray::<u16>::new(&bytes).into_iter();
    assert_eq!(iter.next(), Some(3));
    assert_eq!(iter.nth(0), Some(3));
    assert_eq!(iter.nth(2), Some(2));
    assert_eq!(iter.nth(3), None);
    assert_eq!(iter.next(), Some(1));
}

#[test]
fn binary_search_finds_what_is_there() {
    let bytes = be16(&[2, 4, 4, 7]);
    let array = LazyArray::<u16>::new(&bytes);
    assert_eq!(array.binary_search(&4), Some(4));
    assert_eq!(array.binary_search(&2), Some(2));
    assert_eq!(array.binary_search(&7), Some(7));
}

#[test]
fn binary_search_misses_what_is_not_there() {
    let bytes = be16(&[2, 4, 4, 7]);
    let array = LazyArray::<u16>::new(&bytes);
    assert_eq!(array.binary_search(&5), None);
    assert_eq!(array.binary_search(&0), None);
    assert_eq!(array.binary_search(&3), None);
    assert_eq!(array.binary_search(&8), None);
}

#[test]
fn binary_search_on_an_empty_view_is_none() {
    let array = LazyArray::<u16>::new(&[]);
    for target in [0u16, 1, 4, u16::MAX] {
        assert_eq!(array.binary_search(&target), None);
    }
    assert_eq!(array.binary_search_by(|_| Ordering::Equal), None);
}

#[test]
fn binary_search_agrees_with_contains_on_every_length() {
    for len in 0u16..20 {
        let values: Vec<u16> = (0..len).map(|i| 3 * i + 1).collect();
        let bytes = be16(&values);
        let array = LazyArray::<u16>::new(&bytes);
        for target in 0u16..64 {
            let expected = if values.contains(&target) { Some(target) } else { None };
            assert_eq!(array.binary_search(&target), expected);
        }
    }
}

#[test]
fn binary_search_on_signed_elements() {
    let mut bytes = Vec::new();
    for value in [-300i16, -2, 0, 5, 900] {
        bytes.extend_from_slice(&value.to_be_bytes());
    }
    let array = LazyArray::<i16>::new(&bytes);
    assert_eq!(array.binary_search(&-300), Some(-300));
    assert_eq!(array.binary_search(&900), Some(900));
    assert_eq!(array.binary_search(&-1), None);
}

#[test]
fn binary_search_by_returns_the_last_equal_element() {
    // Keys are the high bytes; the low bytes tell the elements apart.
    let bytes = be16(&[0x0100, 0x0201, 0x0202, 0x0203, 0x0500]);
    let array = LazyArray::<u16>::new(&bytes);
    let found = array.binary_search_by(|value| (value >> 8).cmp(&2));
    assert_eq!(found, Some(0x0203));
    assert_eq!(array.binary_search_by(|value| (value >> 8).cmp(&1)), Some(0x0100));
    assert_eq!(array.binary_search_by(|value| (value >> 8).cmp(&5)), Some(0x0500));
    assert_eq!(array.binary_search_by(|value| (value >> 8).cmp(&3)), None);
    assert_eq!(array.binary_search_by(|value| (value >> 8).cmp(&0)), None);
    assert_eq!(array.binary_search_by(|value| (value >> 8).cmp(&9)), None);
}
