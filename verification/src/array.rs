//! A byte slice read as an array of fixed-width elements, decoded on demand.

use crate::scalar::{FSize, FromData};
use vstd::prelude::*;

verus! {

/// How many whole elements of type `T` the bytes hold. Bytes left over after
/// the last whole element belong to no element.
pub open spec fn element_count<T: FromData>(bytes: Seq<u8>) -> nat {
    (bytes.len() / T::SIZE as nat) as nat
}

/// The element that starts `index` widths into the bytes.
pub open spec fn element_at<T: FromData>(bytes: Seq<u8>, index: int) -> T {
    T::spec_parse(bytes.subrange(index * T::SIZE, index * T::SIZE + T::SIZE))
}

/// All the elements that the bytes hold, in order.
pub open spec fn elements<T: FromData>(bytes: Seq<u8>) -> Seq<T> {
    Seq::new(element_count::<T>(bytes), |index: int| element_at::<T>(bytes, index))
}

/// The item at `index`, if there is one.
pub open spec fn item_at<T>(items: Seq<T>, index: int) -> Option<T> {
    if 0 <= index < items.len() {
        Some(items[index])
    } else {
        None
    }
}

/// A checked lookup finds nothing exactly from the length on, and below the
/// length it finds what an unchecked lookup at the same index finds.
pub proof fn lemma_checked_lookup<T>(items: Seq<T>, index: nat)
    ensures
        item_at(items, index as int).is_none() <==> index >= items.len(),
        index < items.len() ==> item_at(items, index as int) == Some(items[index as int]),
{
}

/// The bytes of the element at `index` lie inside a buffer of `len` bytes.
proof fn lemma_element_span(len: int, size: int, index: int)
    requires
        size > 0,
        0 <= index < len / size,
    ensures
        0 <= index * size,
        index * size + size <= len,
{
    assert(0 <= index * size && index * size + size <= len) by (nonlinear_arith)
        requires
            size > 0,
            0 <= index,
            index + 1 <= len / size,
    ;
}

/// A view of a byte slice as an array of `T`. Nothing is decoded before it is
/// asked for.
pub struct LazyArray<'a, T: FromData> {
    data: &'a [u8],
    phantom: core::marker::PhantomData<T>,
}

impl<'a, T: FromData> Clone for LazyArray<'a, T> {
    #[inline]
    fn clone(&self) -> (copy: Self)
        ensures
            copy == *self,
    {
        *self
    }
}

impl<'a, T: FromData> Copy for LazyArray<'a, T> {

}

impl<'a, T: FromData> View for LazyArray<'a, T> {
    type V = Seq<T>;

    /// The decoded elements, in order.
    open spec fn view(&self) -> Seq<T> {
        elements::<T>(self.bytes())
    }
}

impl<'a, T: FromData> LazyArray<'a, T> {
    /// Elements have a width.
    #[verifier::type_invariant]
    spec fn has_width(&self) -> bool {
        T::SIZE > 0
    }

    /// The bytes under the view.
    pub closed spec fn bytes(&self) -> Seq<u8> {
        self.data@
    }

    /// A view of `data` as elements of a type that takes at least one byte.
    #[inline]
    pub fn new(data: &'a [u8]) -> (array: Self)
        requires
            T::SIZE > 0,
        ensures
            array.bytes() == data@,
    {
        LazyArray { data, phantom: core::marker::PhantomData }
    }

    /// The element at `index`, which the caller knows to be in range.
    pub fn at<L: FSize>(&self, index: L) -> (value: T)
        requires
            0 <= index.size_value() < self@.len(),
        ensures
            value == self@[index.size_value()],
    {
        let position: usize = index.to_usize();
        let total: usize = self.data.len();
        proof {
            use_type_invariant(self);
            lemma_element_span(total as int, T::SIZE as int, position as int);
        }
        let start: usize = position * T::SIZE;
        let end: usize = start + T::SIZE;
        T::parse(vstd::slice::slice_subrange(self.data, start, end))
    }

    /// The element at `index`, if there is one.
    pub fn get<L: FSize>(&self, index: L) -> (value: Option<T>)
        ensures
            value == item_at(self@, index.size_value()),
    {
        let position: usize = index.to_usize();
        if position < self.len() {
            Some(self.at(position))
        } else {
            None
        }
    }

    /// The final element, if the view is not empty.
    #[inline]
    pub fn last(&self) -> (value: Option<T>)
        ensures
            value == item_at(self@, self@.len() - 1),
    {
        if !self.is_empty() {
            self.get(self.len() - 1)
        } else {
            None
        }
    }

    /// The number of whole elements.
    #[inline]
    pub fn len(&self) -> (count: usize)
        ensures
            count == self@.len(),
            count == self.bytes().len() / T::SIZE as nat,
    {
        proof {
            use_type_invariant(self);
        }
        self.data.len() / T::SIZE
    }

    #[inline]
    pub fn is_empty(&self) -> (empty: bool)
        ensures
            empty == (self@.len() == 0),
    {
        self.len() == 0
    }

    /// A cursor over the elements in index order, starting at the first.
    #[inline]
    pub fn into_iter(self) -> (iter: LazyArrayIter<'a, T>)
        ensures
            iter.items() == self@,
            iter.position() == 0,
    {
        LazyArrayIter { data: self, index: 0 }
    }
}

/// A cursor over the elements of a [`LazyArray`].
pub struct LazyArrayIter<'a, T: FromData> {
    data: LazyArray<'a, T>,
    index: usize,
}

impl<'a, T: FromData> LazyArrayIter<'a, T> {
    /// The elements that the cursor walks over.
    pub closed spec fn items(&self) -> Seq<T> {
        self.data@
    }

    /// How many elements the cursor has handed out.
    pub closed spec fn position(&self) -> nat {
        self.index as nat
    }

    /// Hands out the element under the cursor and moves on. Once the elements
    /// are used up the cursor stays where it is.
    #[inline]
    pub fn next(&mut self) -> (value: Option<T>)
        ensures
            final(self).items() == old(self).items(),
            value == item_at(old(self).items(), old(self).position() as int),
            final(self).position() == (if old(self).position() < old(self).items().len() {
                old(self).position() + 1
            } else {
                old(self).position()
            }),
    {
        if self.index < self.data.len() {
            let value = self.data.at(self.index);
            self.index = self.index + 1;
            Some(value)
        } else {
            None
        }
    }

    /// The element at index `n` modulo 2^32, counted from the first element
    /// and not from the cursor, which stays where it is.
    #[inline]
    pub fn nth(&mut self, n: usize) -> (value: Option<T>)
        ensures
            *final(self) == *old(self),
            value == item_at(old(self).items(), n as int % 0x1_0000_0000),
    {
        let index: u32 = (n as u64 % 0x1_0000_0000) as u32;
        self.data.get(index)
    }
}

} // verus!
