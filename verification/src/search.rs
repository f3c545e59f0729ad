//! Binary search over a lazy array.

use crate::array::LazyArray;
use crate::scalar::{FSize, FromData};
use core::cmp::Ordering;
use vstd::prelude::*;
use vstd::std_specs::cmp::OrdSpec;

verus! {

/// `f` may answer `order` when it is asked about `item`.
pub open spec fn may_answer<T, F: Fn(&T) -> Ordering>(f: F, item: T, order: Ordering) -> bool {
    call_ensures(f, (&item,), order)
}

/// Whatever `f` answers when it is asked about `item`, it is `order`.
pub open spec fn always_answers<T, F: Fn(&T) -> Ordering>(
    f: F,
    item: T,
    order: Ordering,
) -> bool {
    forall|other: Ordering| may_answer(f, item, other) ==> other == order
}

/// The items are in the order that `f` encodes: first those it calls `Less`,
/// then those it calls `Equal`, then those it calls `Greater`.
pub open spec fn sorted_for<T, F: Fn(&T) -> Ordering>(items: Seq<T>, f: F) -> bool {
    &&& forall|i: int, j: int|
        0 <= i <= j < items.len() && #[trigger] may_answer(f, items[i], Ordering::Greater)
            ==> #[trigger] always_answers(f, items[j], Ordering::Greater)
    &&& forall|i: int, j: int|
        0 <= i <= j < items.len() && #[trigger] may_answer(f, items[j], Ordering::Less)
            ==> #[trigger] always_answers(f, items[i], Ordering::Less)
}

/// The items are in order around `target`: first those below it, then those
/// equal to it, then those above it.
pub open spec fn sorted_around<T: Ord>(items: Seq<T>, target: T) -> bool {
    &&& forall|i: int, j: int|
        0 <= i <= j < items.len() && (#[trigger] items[i]).cmp_spec(&target) == Ordering::Greater
            ==> (#[trigger] items[j]).cmp_spec(&target) == Ordering::Greater
    &&& forall|i: int, j: int|
        0 <= i <= j < items.len() && (#[trigger] items[j]).cmp_spec(&target) == Ordering::Less
            ==> (#[trigger] items[i]).cmp_spec(&target) == Ordering::Less
}

/// What a search for `target` among `items` may come to.
///
/// What is found is one of the items and compares equal to `target`. Where
/// the items are sorted around `target`, only greater items follow it, and
/// nothing is found only if no item compares equal to `target`.
pub open spec fn search_outcome<T: Ord>(items: Seq<T>, target: T, value: Option<T>) -> bool {
    match value {
        Some(found) => exists|k: int|
            {
                &&& 0 <= k < items.len()
                &&& #[trigger] items[k] == found
                &&& found.cmp_spec(&target) == Ordering::Equal
                &&& sorted_around(items, target) ==> forall|j: int|
                    k < j < items.len() ==> (#[trigger] items[j]).cmp_spec(&target)
                        == Ordering::Greater
            },
        None => sorted_around(items, target) ==> forall|j: int|
            0 <= j < items.len() ==> (#[trigger] items[j]).cmp_spec(&target) != Ordering::Equal,
    }
}

/// What a search among `items` with the answers of `f` has seen when it ends
/// at index `k`.
///
/// The answer about the item at `k` was `order`, and that item is found if
/// the answer was `Equal`. Unless `k` is the first index, `f` answered `low`
/// about the item at `k`, which is not `Greater`. Unless `k` is the last
/// index, `f` answered `Greater` about the item at `m`, no later than the
/// next index.
pub open spec fn search_ended_at<T, F: Fn(&T) -> Ordering>(
    items: Seq<T>,
    f: F,
    value: Option<T>,
    k: int,
    m: int,
    order: Ordering,
    low: Ordering,
) -> bool {
    &&& 0 <= k < items.len()
    &&& may_answer(f, items[k], order)
    &&& value == (if order == Ordering::Equal {
        Some(items[k])
    } else {
        None
    })
    &&& k > 0 ==> low != Ordering::Greater && may_answer(f, items[k], low)
    &&& k + 1 < items.len() ==> 0 <= m <= k + 1 && may_answer(f, items[m], Ordering::Greater)
}

/// What a search among `items` with the answers of `f` may come to: nothing
/// among no items, and else what it has seen at the index where it ends.
pub open spec fn search_by_outcome<T, F: Fn(&T) -> Ordering>(
    items: Seq<T>,
    f: F,
    value: Option<T>,
) -> bool {
    if items.len() == 0 {
        value.is_none()
    } else {
        exists|k: int, m: int, order: Ordering, low: Ordering|
            search_ended_at(items, f, value, k, m, order, low)
    }
}

/// What a search among items that are sorted for `f` comes to: the last item
/// about which `f` answers `Equal`, and nothing only if it answers `Equal`
/// about none.
pub open spec fn sorted_search_by_outcome<T, F: Fn(&T) -> Ordering>(
    items: Seq<T>,
    f: F,
    value: Option<T>,
) -> bool {
    match value {
        Some(found) => exists|k: int|
            {
                &&& 0 <= k < items.len()
                &&& #[trigger] items[k] == found
                &&& may_answer(f, found, Ordering::Equal)
                &&& forall|j: int|
                    k < j < items.len() ==> always_answers(
                        f,
                        #[trigger] items[j],
                        Ordering::Greater,
                    )
            },
        None => forall|j: int|
            0 <= j < items.len() ==> !may_answer(f, #[trigger] items[j], Ordering::Equal),
    }
}

/// A search among items that are sorted for `f` finds the last item about
/// which `f` answers `Equal`, and finds nothing only if there is none.
pub proof fn lemma_sorted_search_by<T, F: Fn(&T) -> Ordering>(
    items: Seq<T>,
    f: F,
    value: Option<T>,
)
    requires
        sorted_for(items, f),
        search_by_outcome(items, f, value),
    ensures
        sorted_search_by_outcome(items, f, value),
{
    if items.len() > 0 {
        let (k, m, order, low) = choose|k: int, m: int, order: Ordering, low: Ordering|
            search_ended_at(items, f, value, k, m, order, low);
        assert forall|j: int| k < j < items.len() implies always_answers(
            f,
            #[trigger] items[j],
            Ordering::Greater,
        ) by {
            assert(may_answer(f, items[m], Ordering::Greater));
        }
        if order == Ordering::Equal {
            assert(items[k] == value.unwrap());
        } else {
            assert forall|j: int| 0 <= j < items.len() implies !may_answer(
                f,
                #[trigger] items[j],
                Ordering::Equal,
            ) by {
                if order == Ordering::Less {
                    assert(always_answers(f, items[k], Ordering::Less));
                    if j < k {
                        assert(always_answers(f, items[j], Ordering::Less));
                    }
                } else {
                    assert(always_answers(f, items[k], Ordering::Greater));
                }
                if j > k {
                    assert(always_answers(f, items[j], Ordering::Greater));
                }
            }
        }
    }
}

impl<'a, T: FromData> LazyArray<'a, T> {
    /// Looks for an element equal to `x`.
    ///
    /// What is found is an element of the view that compares equal to `x`.
    /// Where the view is sorted around `x`, the last such element is found
    /// if there is any, and nothing is found only if there is none.
    #[inline]
    pub fn binary_search(&self, x: &T) -> (value: Option<T>) where T: Ord
        ensures
            self@.len() == 0 ==> value.is_none(),
            T::obeys_cmp_spec() ==> search_outcome(self@, *x, value),
    {
        let by_order = |p: &T| -> (order: Ordering)
            ensures
                T::obeys_cmp_spec() ==> order == p.cmp_spec(x),
            { p.cmp(x) };
        let value = self.binary_search_by(by_order);
        proof {
            let items = self@;
            if T::obeys_cmp_spec() && items.len() > 0 {
                let (k, m, order, low) = choose|k: int, m: int, order: Ordering, low: Ordering|
                    search_ended_at(items, by_order, value, k, m, order, low);
                assert(items[k].cmp_spec(x) == order);
                if sorted_around(items, *x) {
                    assert forall|j: int| k < j < items.len() implies (#[trigger] items[j]).cmp_spec(
                        x,
                    ) == Ordering::Greater by {
                        assert(items[m].cmp_spec(x) == Ordering::Greater);
                    }
                    if order != Ordering::Equal {
                        assert forall|j: int| 0 <= j < items.len() implies (
                        #[trigger] items[j]).cmp_spec(x) != Ordering::Equal by {
                            if j < k {
                                assert(items[k].cmp_spec(x) == low);
                            }
                        }
                    }
                }
                if order == Ordering::Equal {
                    assert(items[k] == value.unwrap());
                }
            }
        }
        value
    }

    /// Looks for an element about which `f` answers `Equal`.
    ///
    /// The search halves the span it looks at: it asks `f` about the element
    /// in the middle and goes on below it where the answer is `Greater`, and
    /// from it on otherwise. Where the view is sorted for `f`, it finds the
    /// last element about which `f` answers `Equal`, and nothing only if
    /// there is none.
    pub fn binary_search_by<F>(&self, f: F) -> (value: Option<T>) where F: Fn(&T) -> Ordering
        requires
            forall|i: int| 0 <= i < self@.len() ==> call_requires(f, (&#[trigger] self@[i],)),
        ensures
            search_by_outcome(self@, f, value),
            sorted_for(self@, f) ==> sorted_search_by_outcome(self@, f, value),
    {
        let total: usize = self.len();
        let mut size: usize = total;
        if size == 0 {
            return None;
        }
        let mut base: usize = 0;
        let ghost mut low: Ordering = Ordering::Equal;
        let ghost mut above: int = 0;
        while size > 1
            invariant
                1 <= size,
                total == self@.len(),
                base + size <= total,
                forall|i: int| 0 <= i < self@.len() ==> call_requires(f, (&#[trigger] self@[i],)),
                base > 0 ==> low != Ordering::Greater && may_answer(
                    f,
                    self@[base.size_value()],
                    low,
                ),
                base + size < total ==> 0 <= above <= base + size && may_answer(
                    f,
                    self@[above],
                    Ordering::Greater,
                ),
            decreases size,
        {
            let half: usize = size / 2;
            let mid: usize = base + half;
            let probe = self.at(mid);
            let order = f(&probe);
            match order {
                Ordering::Greater => {
                    proof {
                        above = mid.size_value();
                    }
                },
                _ => {
                    base = mid;
                    proof {
                        low = order;
                    }
                },
            }
            size = size - half;
        }
        let candidate = self.at(base);
        let order = f(&candidate);
        let value = match order {
            Ordering::Equal => Some(candidate),
            _ => None,
        };
        proof {
            assert(search_ended_at(self@, f, value, base.size_value(), above, order, low));
            if sorted_for(self@, f) {
                lemma_sorted_search_by(self@, f, value);
            }
        }
        value
    }
}

/// A search among ascending `u8` items finds `target` if it is among them,
/// and nothing if it is not.
pub proof fn lemma_search_ascending_u8(items: Seq<u8>, target: u8, value: Option<u8>)
    requires
        forall|i: int, j: int| 0 <= i <= j < items.len() ==> items[i] <= items[j],
        search_outcome(items, target, value),
    ensures
        value == (if items.contains(target) {
            Some(target)
        } else {
            None
        }),
{
    assert(sorted_around(items, target));
    if items.contains(target) {
        let k = choose|k: int| 0 <= k < items.len() && items[k] == target;
        assert(items[k].cmp_spec(&target) == Ordering::Equal);
    }
}

/// A search among ascending `i8` items finds `target` if it is among them,
/// and nothing if it is not.
pub proof fn lemma_search_ascending_i8(items: Seq<i8>, target: i8, value: Option<i8>)
    requires
        forall|i: int, j: int| 0 <= i <= j < items.len() ==> items[i] <= items[j],
        search_outcome(items, target, value),
    ensures
        value == (if items.contains(target) {
            Some(target)
        } else {
            None
        }),
{
    assert(sorted_around(items, target));
    if items.contains(target) {
        let k = choose|k: int| 0 <= k < items.len() && items[k] == target;
        assert(items[k].cmp_spec(&target) == Ordering::Equal);
    }
}

/// A search among ascending `u16` items finds `target` if it is among them,
/// and nothing if it is not.
pub proof fn lemma_search_ascending_u16(items: Seq<u16>, target: u16, value: Option<u16>)
    requires
        forall|i: int, j: int| 0 <= i <= j < items.len() ==> items[i] <= items[j],
        search_outcome(items, target, value),
    ensures
        value == (if items.contains(target) {
            Some(target)
        } else {
            None
        }),
{
    assert(sorted_around(items, target));
    if items.contains(target) {
        let k = choose|k: int| 0 <= k < items.len() && items[k] == target;
        assert(items[k].cmp_spec(&target) == Ordering::Equal);
    }
}

/// A search among ascending `i16` items finds `target` if it is among them,
/// and nothing if it is not.
pub proof fn lemma_search_ascending_i16(items: Seq<i16>, target: i16, value: Option<i16>)
    requires
        forall|i: int, j: int| 0 <= i <= j < items.len() ==> items[i] <= items[j],
        search_outcome(items, target, value),
    ensures
        value == (if items.contains(target) {
            Some(target)
        } else {
            None
        }),
{
    assert(sorted_around(items, target));
    if items.contains(target) {
        let k = choose|k: int| 0 <= k < items.len() && items[k] == target;
        assert(items[k].cmp_spec(&target) == Ordering::Equal);
    }
}

/// A search among ascending `u32` items finds `target` if it is among them,
/// and nothing if it is not.
pub proof fn lemma_search_ascending_u32(items: Seq<u32>, target: u32, value: Option<u32>)
    requires
        forall|i: int, j: int| 0 <= i <= j < items.len() ==> items[i] <= items[j],
        search_outcome(items, target, value),
    ensures
        value == (if items.contains(target) {
            Some(target)
        } else {
            None
        }),
{
    assert(sorted_around(items, target));
    if items.contains(target) {
        let k = choose|k: int| 0 <= k < items.len() && items[k] == target;
        assert(items[k].cmp_spec(&target) == Ordering::Equal);
    }
}

/// A search among ascending `i32` items finds `target` if it is among them,
/// and nothing if it is not.
pub proof fn lemma_search_ascending_i32(items: Seq<i32>, target: i32, value: Option<i32>)
    requires
        forall|i: int, j: int| 0 <= i <= j < items.len() ==> items[i] <= items[j],
        search_outcome(items, target, value),
    ensures
        value == (if items.contains(target) {
            Some(target)
        } else {
            None
        }),
{
    assert(sorted_around(items, target));
    if items.contains(target) {
        let k = choose|k: int| 0 <= k < items.len() && items[k] == target;
        assert(items[k].cmp_spec(&target) == Ordering::Equal);
    }
}

} // verus!
