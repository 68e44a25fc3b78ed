use vstd::prelude::*;
use vstd::std_specs::cmp::PartialEqSpec;
use vstd::std_specs::cmp::PartialOrdIs;
use vstd::std_specs::cmp::PartialOrdSpec;

verus! {

/// `x > y` in the order of `T`.
pub open spec fn greater<T: PartialOrd>(x: T, y: T) -> bool {
    x.is_gt(&y)
}

/// `x < y` in the order of `T`.
pub open spec fn less<T: PartialOrd>(x: T, y: T) -> bool {
    x.is_lt(&y)
}

/// `x == y` for `T`.
pub open spec fn equal<T: PartialOrd>(x: T, y: T) -> bool {
    x.eq_spec(&y)
}

/// `==`, `<` and `>` on `T` answer as `T`'s specification of them says.
pub open spec fn comparisons_specified<T: PartialOrd>() -> bool {
    T::obeys_eq_spec() && T::obeys_partial_cmp_spec()
}

/// The comparisons of `T` agree with one total order, as `Ord` asks of
/// every type that has it: `x > y` exactly when `y < x`; `x == y` exactly
/// when neither is less than the other; `<` is transitive, and so is its
/// combination with `==`.
pub open spec fn ordered<T: PartialOrd>() -> bool {
    &&& comparisons_specified::<T>()
    &&& forall|x: T, y: T| #[trigger] greater(x, y) <==> less(y, x)
    &&& forall|x: T, y: T| #[trigger] equal(x, y) <==> (!less(x, y) && !less(y, x))
    &&& forall|x: T, y: T, z: T| #![trigger less(x, y), less(y, z)] less(x, y) && less(y, z) ==> less(x, z)
    &&& forall|x: T, y: T, z: T|
        #![trigger less(x, y), less(y, z)]
        (!less(x, y) && !less(y, x) && less(y, z) ==> less(x, z)) && (less(x, y) && !less(y, z)
            && !less(z, y) ==> less(x, z))
}

/// No item is greater than an item that comes after it: the list runs from
/// its least item to its greatest.
pub open spec fn non_decreasing<T: PartialOrd>(s: Seq<T>) -> bool {
    forall|i: int, j: int| 0 <= i <= j < s.len() ==> !less(#[trigger] s[j], #[trigger] s[i])
}

/// Some item of `s` equals `item`.
pub open spec fn holds<T: PartialOrd>(s: Seq<T>, item: T) -> bool {
    exists|k: int| 0 <= k < s.len() && equal(#[trigger] s[k], item)
}

/// Where the halving search for `item` stops when it looks in `lo..=hi`: it
/// compares the middle item (at `(lo + hi) / 2`); a lesser one moves `lo`
/// past the middle, a greater one moves `hi` before it, any other is the
/// answer. `None` once the range is empty: the item is not there.
pub open spec fn search_in<T: PartialOrd>(s: Seq<T>, item: T, lo: int, hi: int) -> Option<int>
    decreases hi - lo + 1,
{
    if lo < 0 || hi >= s.len() || lo > hi {
        None
    } else {
        let mid = (lo + hi) / 2;
        if less(s[mid], item) {
            search_in(s, item, mid + 1, hi)
        } else if greater(s[mid], item) {
            search_in(s, item, lo, mid - 1)
        } else {
            Some(mid)
        }
    }
}

/// What `binary_search` answers: 0 when the first item equals `item`, else
/// where the halving search over the whole list stops.
pub open spec fn spec_binary_search<T: PartialOrd>(s: Seq<T>, item: T) -> Option<int> {
    if s.len() > 0 && equal(s[0], item) {
        Some(0)
    } else {
        search_in(s, item, 0, s.len() - 1)
    }
}

/// Where the halving search stops, inside the range, the item there is
/// neither less nor greater than `item`.
pub proof fn lemma_search_in_found<T: PartialOrd>(s: Seq<T>, item: T, lo: int, hi: int)
    ensures
        search_in(s, item, lo, hi) matches Some(i) ==> lo <= i <= hi && !greater(s[i], item)
            && !less(s[i], item),
    decreases hi - lo + 1,
{
    if !(lo < 0 || hi >= s.len() || lo > hi) {
        let mid = (lo + hi) / 2;
        if less(s[mid], item) {
            lemma_search_in_found(s, item, mid + 1, hi);
        } else if greater(s[mid], item) {
            lemma_search_in_found(s, item, lo, mid - 1);
        }
    }
}

/// In a list that runs from its least item to its greatest, the halving
/// search stops whenever an index of the range holds an item equal to
/// `item`.
proof fn lemma_search_in_stops<T: PartialOrd>(s: Seq<T>, item: T, lo: int, hi: int, w: int)
    requires
        ordered::<T>(),
        non_decreasing(s),
        0 <= lo <= w <= hi < s.len(),
        equal(s[w], item),
    ensures
        search_in(s, item, lo, hi) is Some,
    decreases hi - lo + 1,
{
    let mid = (lo + hi) / 2;
    assert(!less(s[w], item) && !less(item, s[w]));
    if less(s[mid], item) {
        if mid >= w {
            assert(!less(s[mid], s[w]));
        }
        lemma_search_in_stops(s, item, mid + 1, hi, w);
    } else if greater(s[mid], item) {
        assert(less(item, s[mid]));
        if mid <= w {
            assert(!less(s[w], s[mid]));
        }
        lemma_search_in_stops(s, item, lo, mid - 1, w);
    }
}

/// The search finds any item of a list that runs from its least item to
/// its greatest: it answers an index whose item equals `item`.
pub proof fn lemma_sorted_list_is_searchable<T: PartialOrd>(s: Seq<T>, item: T)
    requires
        ordered::<T>(),
        non_decreasing(s),
        holds(s, item),
    ensures
        spec_binary_search(s, item) is Some,
        spec_binary_search(s, item) matches Some(i) ==> 0 <= i < s.len() && equal(s[i], item),
{
    let w = choose|k: int| 0 <= k < s.len() && equal(#[trigger] s[k], item);
    if !equal(s[0], item) {
        lemma_search_in_stops(s, item, 0, s.len() - 1, w);
        lemma_search_in_found(s, item, 0, s.len() - 1);
        let i = search_in(s, item, 0, s.len() - 1)->0;
        assert(equal(s[i], item));
    }
}

/// On `i64` the comparisons are the usual ones, so the search finds any
/// number in a list sorted from the smallest to the largest.
pub proof fn lemma_i64_ordered()
    ensures
        ordered::<i64>(),
        forall|x: i64, y: i64| #[trigger] less(x, y) <==> x < y,
        forall|x: i64, y: i64| #[trigger] equal(x, y) <==> x == y,
{
}

/// Searches `list`, which runs from its least item to its greatest, for
/// `item` and returns an index that holds it. The first item is compared
/// once, before the search: when it equals `item`, the answer is 0. Then the
/// range `lo..=hi` that must hold `item` is halved: a middle item less than
/// `item` moves `lo` past the middle, a greater one moves `hi` before it.
pub fn binary_search<T: PartialOrd>(list: Vec<T>, item: T) -> (r: usize)
    requires
        ordered::<T>(),
        non_decreasing(list@),
        holds(list@, item),
    ensures
        spec_binary_search(list@, item) == Some(r as int),
        r < list@.len(),
        equal(list@[r as int], item),
{
    proof {
        lemma_sorted_list_is_searchable(list@, item);
    }
    if list[0] == item {
        return 0;
    }
    let mut lo: usize = 0;
    let mut hi: usize = list.len() - 1;
    while lo <= hi
        invariant
            ordered::<T>(),
            !equal(list@[0], item),
            spec_binary_search(list@, item) is Some,
            spec_binary_search(list@, item) matches Some(i) ==> 0 <= i < list@.len() && equal(
                list@[i],
                item,
            ),
            lo <= list@.len(),
            hi < list@.len(),
            search_in(list@, item, lo as int, hi as int) == spec_binary_search(list@, item),
        decreases hi + 1 - lo,
    {
        let mid: usize = lo + (hi - lo) / 2;
        assert(mid == (lo + hi) / 2 && lo <= mid <= hi);
        if list[mid] < item {
            lo = mid + 1;
        } else if list[mid] > item {
            assert(greater(list@[mid as int], item));
            assert(search_in(list@, item, lo as int, hi as int) == search_in(
                list@,
                item,
                lo as int,
                mid - 1,
            ));
            assert(mid > 0);
            hi = mid - 1;
        } else {
            return mid;
        }
    }
    proof {
        assert(search_in(list@, item, lo as int, hi as int) is None);
    }
    0
}

} // verus!
