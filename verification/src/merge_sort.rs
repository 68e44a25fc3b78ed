use vstd::prelude::*;
use vstd::std_specs::cmp::PartialOrdIs;
use vstd::std_specs::cmp::PartialOrdSpec;

verus! {

broadcast use vstd::seq_lib::group_to_multiset_ensures;

/// `x` comes no later than `y`: `x <= y` in the order of `T`.
pub open spec fn le<T: PartialOrd>(x: T, y: T) -> bool {
    x.is_le(&y)
}

/// `x` and `y` are equivalent: each comes no later than the other.
pub open spec fn equiv<T: PartialOrd>(x: T, y: T) -> bool {
    le(x, y) && le(y, x)
}

/// The comparisons of `T` follow a total order, as `Ord` asks of every type
/// that has it: `<=` answers by `T`'s order, any two values compare, and
/// the order is transitive.
pub open spec fn total_order<T: PartialOrd>() -> bool {
    &&& T::obeys_partial_cmp_spec()
    &&& forall|x: T, y: T| #[trigger] le(x, y) || le(y, x)
    &&& forall|x: T, y: T, z: T| #![trigger le(x, y), le(y, z)] le(x, y) && le(y, z) ==> le(x, z)
}

/// Every item comes no later than every item after it.
pub open spec fn sorted<T: PartialOrd>(s: Seq<T>) -> bool {
    forall|i: int, j: int| 0 <= i <= j < s.len() ==> le(s[i], s[j])
}

/// Holds of the items equivalent to `v`.
pub open spec fn equiv_to<T: PartialOrd>(v: T) -> spec_fn(T) -> bool {
    |x: T| equiv(x, v)
}

/// The items of `s` equivalent to `v`, in the order they come in `s`.
pub open spec fn equivalents<T: PartialOrd>(s: Seq<T>, v: T) -> Seq<T> {
    s.filter(equiv_to(v))
}

/// The multiset of `s[lo..hi]` is that of `s[lo..mid]` plus that of `s[mid..hi]`.
proof fn lemma_split_multiset<T>(s: Seq<T>, lo: int, mid: int, hi: int)
    requires
        0 <= lo <= mid <= hi <= s.len(),
    ensures
        s.subrange(lo, hi).to_multiset() == s.subrange(lo, mid).to_multiset().add(
            s.subrange(mid, hi).to_multiset(),
        ),
{
    assert(s.subrange(lo, hi) =~= s.subrange(lo, mid) + s.subrange(mid, hi));
    vstd::seq_lib::lemma_multiset_commutative(s.subrange(lo, mid), s.subrange(mid, hi));
}

/// The items of `s[lo..hi]` equivalent to `v` are those of `s[lo..mid]`
/// followed by those of `s[mid..hi]`.
proof fn lemma_split_equivalents<T: PartialOrd>(s: Seq<T>, lo: int, mid: int, hi: int, v: T)
    requires
        0 <= lo <= mid <= hi <= s.len(),
    ensures
        equivalents(s.subrange(lo, hi), v) == equivalents(s.subrange(lo, mid), v) + equivalents(
            s.subrange(mid, hi),
            v,
        ),
{
    assert(s.subrange(lo, hi) =~= s.subrange(lo, mid) + s.subrange(mid, hi));
    Seq::filter_distributes_over_add(s.subrange(lo, mid), s.subrange(mid, hi), equiv_to(v));
}

/// Taking one more item of `s[lo..]` adds it to the equivalents of `v` when
/// it is equivalent to `v`.
proof fn lemma_equivalents_grow<T: PartialOrd>(s: Seq<T>, lo: int, i: int, v: T)
    requires
        0 <= lo <= i < s.len(),
    ensures
        equivalents(s.subrange(lo, i + 1), v) == if equiv(s[i], v) {
            equivalents(s.subrange(lo, i), v).push(s[i])
        } else {
            equivalents(s.subrange(lo, i), v)
        },
{
    assert(s.subrange(lo, i + 1) =~= s.subrange(lo, i).push(s[i]));
    s.subrange(lo, i).lemma_filter_push(s[i], equiv_to(v));
}

/// Pushing `x` adds it to the equivalents of `v` when it is equivalent to
/// `v`.
proof fn lemma_equivalents_push<T: PartialOrd>(s: Seq<T>, x: T, v: T)
    ensures
        equivalents(s.push(x), v) == if equiv(x, v) {
            equivalents(s, v).push(x)
        } else {
            equivalents(s, v)
        },
{
    s.lemma_filter_push(x, equiv_to(v));
}

/// No item of `s` is equivalent to `v`, so `v` has no equivalents in it.
proof fn lemma_no_equivalents<T: PartialOrd>(s: Seq<T>, v: T)
    requires
        forall|k: int| 0 <= k < s.len() ==> !equiv(#[trigger] s[k], v),
    ensures
        equivalents(s, v) == Seq::<T>::empty(),
{
    assert forall|k: int| 0 <= k < s.len() implies !(#[trigger] equiv_to(v)(s[k])) by {}
    s.lemma_all_neg_filter_empty(equiv_to(v));
}

/// Sorts `array[lo..hi]` in place and leaves the rest of `array` as it was.
fn merge_sort_range<T: Ord + Copy>(array: &mut [T], lo: usize, hi: usize)
    requires
        total_order::<T>(),
        lo <= hi <= old(array)@.len(),
    ensures
        final(array)@.len() == old(array)@.len(),
        sorted(final(array)@.subrange(lo as int, hi as int)),
        final(array)@.subrange(lo as int, hi as int).to_multiset() == old(array)@.subrange(
            lo as int,
            hi as int,
        ).to_multiset(),
        forall|v: T|
            #[trigger] equivalents(final(array)@.subrange(lo as int, hi as int), v) == equivalents(
                old(array)@.subrange(lo as int, hi as int),
                v,
            ),
        forall|k: int|
            0 <= k < old(array)@.len() && !(lo <= k < hi) ==> #[trigger] final(array)@[k] == old(
                array,
            )@[k],
    decreases hi - lo,
{
    if hi - lo < 2 {
        proof {
            if hi - lo == 1 {
                assert(le(array@[lo as int], array@[lo as int]));
            }
        }
        return;
    }
    let ghost s0 = array@;
    let mid = lo + (hi - lo) / 2;
    merge_sort_range(array, lo, mid);
    let ghost s1 = array@;
    merge_sort_range(array, mid, hi);
    let ghost s2 = array@;
    proof {
        assert(s1.subrange(mid as int, hi as int) =~= s0.subrange(mid as int, hi as int));
        assert(s2.subrange(lo as int, mid as int) =~= s1.subrange(lo as int, mid as int));
        lemma_split_multiset(s0, lo as int, mid as int, hi as int);
        lemma_split_multiset(s2, lo as int, mid as int, hi as int);
        assert forall|p: int, q: int| lo <= p <= q < mid implies le(s2[p], s2[q]) by {
            assert(s2[p] == s1.subrange(lo as int, mid as int)[p - lo]);
            assert(s2[q] == s1.subrange(lo as int, mid as int)[q - lo]);
        }
        assert forall|p: int, q: int| mid <= p <= q < hi implies le(s2[p], s2[q]) by {
            assert(s2[p] == s2.subrange(mid as int, hi as int)[p - mid]);
            assert(s2[q] == s2.subrange(mid as int, hi as int)[q - mid]);
        }
    }
    let mut merged: Vec<T> = Vec::with_capacity(hi - lo);
    let mut i = lo;
    let mut j = mid;
    while i < mid && j < hi
        invariant
            total_order::<T>(),
            lo <= i <= mid <= j <= hi <= s2.len(),
            array@ == s2,
            forall|p: int, q: int| lo <= p <= q < mid ==> le(s2[p], s2[q]),
            forall|p: int, q: int| mid <= p <= q < hi ==> le(s2[p], s2[q]),
            merged@.len() == (i - lo) + (j - mid),
            sorted(merged@),
            merged@.to_multiset() == s2.subrange(lo as int, i as int).to_multiset().add(
                s2.subrange(mid as int, j as int).to_multiset(),
            ),
            merged@.len() > 0 && i < mid ==> le(merged@.last(), s2[i as int]),
            merged@.len() > 0 && j < hi ==> le(merged@.last(), s2[j as int]),
            forall|p: int, q: int| i <= p < mid && mid <= q < j ==> !le(s2[p], s2[q]),
            forall|v: T|
                #[trigger] equivalents(merged@, v) == equivalents(
                    s2.subrange(lo as int, i as int),
                    v,
                ) + equivalents(s2.subrange(mid as int, j as int), v),
        decreases (mid - i) + (hi - j),
    {
        let ghost before = merged@;
        if array[i] <= array[j] {
            proof {
                let x = s2[i as int];
                assert(le(x, s2[j as int]));
                assert(s2.subrange(lo as int, i + 1) =~= s2.subrange(lo as int, i as int).push(x));
                assert forall|k: int| 0 <= k < before.len() implies le(before[k], x) by {
                    assert(le(before[k], before.last()));
                }
                assert forall|v: T| #[trigger]
                    equivalents(before.push(x), v) == equivalents(
                        s2.subrange(lo as int, i + 1),
                        v,
                    ) + equivalents(s2.subrange(mid as int, j as int), v) by {
                    lemma_equivalents_push(before, x, v);
                    lemma_equivalents_grow(s2, lo as int, i as int, v);
                    let left = equivalents(s2.subrange(lo as int, i as int), v);
                    let right = equivalents(s2.subrange(mid as int, j as int), v);
                    if equiv(x, v) {
                        assert forall|k: int| 0 <= k < j - mid implies !equiv(
                            #[trigger] s2.subrange(mid as int, j as int)[k],
                            v,
                        ) by {
                            let y = s2[mid + k];
                            assert(!le(x, y));
                            if equiv(y, v) {
                                assert(le(x, v) && le(v, y));
                            }
                        }
                        lemma_no_equivalents(s2.subrange(mid as int, j as int), v);
                        assert((left + right).push(x) =~= left.push(x) + right);
                    }
                }
                assert forall|p: int, q: int| i + 1 <= p < mid && mid <= q < j implies !le(
                    s2[p],
                    s2[q],
                ) by {}
            }
            merged.push(array[i]);
            i += 1;
        } else {
            proof {
                let y = s2[j as int];
                assert(!le(s2[i as int], y));
                assert(le(y, s2[i as int]));
                assert(s2.subrange(mid as int, j + 1) =~= s2.subrange(mid as int, j as int).push(y));
                assert forall|k: int| 0 <= k < before.len() implies le(before[k], y) by {
                    assert(le(before[k], before.last()));
                }
                assert forall|v: T| #[trigger]
                    equivalents(before.push(y), v) == equivalents(
                        s2.subrange(lo as int, i as int),
                        v,
                    ) + equivalents(s2.subrange(mid as int, j + 1), v) by {
                    lemma_equivalents_push(before, y, v);
                    lemma_equivalents_grow(s2, mid as int, j as int, v);
                    let left = equivalents(s2.subrange(lo as int, i as int), v);
                    let right = equivalents(s2.subrange(mid as int, j as int), v);
                    assert((left + right).push(y) =~= left + right.push(y));
                }
                assert forall|p: int, q: int| i <= p < mid && mid <= q < j + 1 implies !le(
                    s2[p],
                    s2[q],
                ) by {
                    if q == j && le(s2[p], y) {
                        assert(le(s2[i as int], s2[p]));
                    }
                }
            }
            merged.push(array[j]);
            j += 1;
        }
    }
    while i < mid
        invariant
            total_order::<T>(),
            lo <= i <= mid <= j <= hi <= s2.len(),
            array@ == s2,
            forall|p: int, q: int| lo <= p <= q < mid ==> le(s2[p], s2[q]),
            merged@.len() == (i - lo) + (j - mid),
            sorted(merged@),
            merged@.to_multiset() == s2.subrange(lo as int, i as int).to_multiset().add(
                s2.subrange(mid as int, j as int).to_multiset(),
            ),
            merged@.len() > 0 && i < mid ==> le(merged@.last(), s2[i as int]),
            merged@.len() > 0 && j < hi ==> le(merged@.last(), s2[j as int]),
            i == mid || j == hi,
            forall|p: int, q: int| i <= p < mid && mid <= q < j ==> !le(s2[p], s2[q]),
            forall|v: T|
                #[trigger] equivalents(merged@, v) == equivalents(
                    s2.subrange(lo as int, i as int),
                    v,
                ) + equivalents(s2.subrange(mid as int, j as int), v),
        decreases mid - i,
    {
        let ghost before = merged@;
        proof {
            let x = s2[i as int];
            assert(s2.subrange(lo as int, i + 1) =~= s2.subrange(lo as int, i as int).push(x));
            assert forall|k: int| 0 <= k < before.len() implies le(before[k], x) by {
                assert(le(before[k], before.last()));
            }
            assert forall|v: T| #[trigger]
                equivalents(before.push(x), v) == equivalents(s2.subrange(lo as int, i + 1), v)
                    + equivalents(s2.subrange(mid as int, j as int), v) by {
                lemma_equivalents_push(before, x, v);
                lemma_equivalents_grow(s2, lo as int, i as int, v);
                let left = equivalents(s2.subrange(lo as int, i as int), v);
                let right = equivalents(s2.subrange(mid as int, j as int), v);
                if equiv(x, v) {
                    assert forall|k: int| 0 <= k < j - mid implies !equiv(
                        #[trigger] s2.subrange(mid as int, j as int)[k],
                        v,
                    ) by {
                        let y = s2[mid + k];
                        assert(!le(x, y));
                        if equiv(y, v) {
                            assert(le(x, v) && le(v, y));
                        }
                    }
                    lemma_no_equivalents(s2.subrange(mid as int, j as int), v);
                    assert((left + right).push(x) =~= left.push(x) + right);
                }
            }
        }
        merged.push(array[i]);
        i += 1;
    }
    while j < hi
        invariant
            total_order::<T>(),
            lo <= i <= mid <= j <= hi <= s2.len(),
            i == mid,
            array@ == s2,
            forall|p: int, q: int| mid <= p <= q < hi ==> le(s2[p], s2[q]),
            merged@.len() == (i - lo) + (j - mid),
            sorted(merged@),
            merged@.to_multiset() == s2.subrange(lo as int, i as int).to_multiset().add(
                s2.subrange(mid as int, j as int).to_multiset(),
            ),
            merged@.len() > 0 && j < hi ==> le(merged@.last(), s2[j as int]),
            forall|v: T|
                #[trigger] equivalents(merged@, v) == equivalents(
                    s2.subrange(lo as int, i as int),
                    v,
                ) + equivalents(s2.subrange(mid as int, j as int), v),
        decreases hi - j,
    {
        let ghost before = merged@;
        proof {
            let y = s2[j as int];
            assert(s2.subrange(mid as int, j + 1) =~= s2.subrange(mid as int, j as int).push(y));
            assert forall|k: int| 0 <= k < before.len() implies le(before[k], y) by {
                assert(le(before[k], before.last()));
            }
            assert forall|v: T| #[trigger]
                equivalents(before.push(y), v) == equivalents(s2.subrange(lo as int, i as int), v)
                    + equivalents(s2.subrange(mid as int, j + 1), v) by {
                lemma_equivalents_push(before, y, v);
                lemma_equivalents_grow(s2, mid as int, j as int, v);
                let left = equivalents(s2.subrange(lo as int, i as int), v);
                let right = equivalents(s2.subrange(mid as int, j as int), v);
                assert((left + right).push(y) =~= left + right.push(y));
            }
        }
        merged.push(array[j]);
        j += 1;
    }
    let mut k: usize = 0;
    while k < merged.len()
        invariant
            lo <= hi <= s2.len(),
            merged@.len() == hi - lo,
            k <= merged@.len(),
            array@.len() == s2.len(),
            forall|t: int| 0 <= t < k ==> #[trigger] array@[lo + t] == merged@[t],
            forall|t: int|
                0 <= t < s2.len() && !(lo <= t < lo + k) ==> #[trigger] array@[t] == s2[t],
        decreases merged@.len() - k,
    {
        array[lo + k] = merged[k];
        k += 1;
    }
    proof {
        assert forall|t: int| 0 <= t < hi - lo implies #[trigger] array@.subrange(
            lo as int,
            hi as int,
        )[t] == merged@[t] by {
            assert(array@[lo + t] == merged@[t]);
        }
        assert(array@.subrange(lo as int, hi as int) =~= merged@);
        assert forall|v: T| #[trigger]
            equivalents(array@.subrange(lo as int, hi as int), v) == equivalents(
                s0.subrange(lo as int, hi as int),
                v,
            ) by {
            lemma_split_equivalents(s2, lo as int, mid as int, hi as int, v);
            lemma_split_equivalents(s0, lo as int, mid as int, hi as int, v);
            assert(equivalents(s1.subrange(lo as int, mid as int), v) == equivalents(
                s0.subrange(lo as int, mid as int),
                v,
            ));
            assert(equivalents(s2.subrange(mid as int, hi as int), v) == equivalents(
                s1.subrange(mid as int, hi as int),
                v,
            ));
        }
        assert forall|k: int|
            0 <= k < s0.len() && !(lo <= k < hi) implies #[trigger] array@[k] == s0[k] by {
            assert(array@[k] == s2[k]);
        }
    }
}

/// Sorts `array` in place into ascending order. The sort is stable: items
/// that compare equal keep the order they had.
pub fn merge_sort<T: Ord + Copy>(array: &mut [T])
    requires
        total_order::<T>(),
    ensures
        sorted(final(array)@),
        final(array)@.to_multiset() == old(array)@.to_multiset(),
        forall|v: T| #[trigger] equivalents(final(array)@, v) == equivalents(old(array)@, v),
{
    let n = array.len();
    merge_sort_range(array, 0, n);
    proof {
        assert(array@.subrange(0, n as int) =~= array@);
        assert(old(array)@.subrange(0, n as int) =~= old(array)@);
    }
}

/// The equivalents of `v` in `s` are `s[0]`, when it is equivalent to `v`,
/// followed by those of the rest of `s`.
proof fn lemma_equivalents_first<T: PartialOrd>(s: Seq<T>, v: T)
    requires
        s.len() > 0,
    ensures
        equivalents(s, v) == (if equiv(s[0], v) {
            seq![s[0]]
        } else {
            Seq::<T>::empty()
        }) + equivalents(s.drop_first(), v),
{
    assert(s =~= seq![s[0]] + s.drop_first());
    s.drop_first().lemma_filter_prepend(s[0], equiv_to(v));
}

/// A sorted sequence holds its first item no later than every item.
proof fn lemma_sorted_first_is_least<T: PartialOrd>(s: Seq<T>, x: T)
    requires
        sorted(s),
        s.to_multiset().count(x) > 0,
    ensures
        s.len() > 0,
        le(s[0], x),
{
    assert(s.contains(x));
    let k = choose|k: int| 0 <= k < s.len() && s[k] == x;
    assert(le(s[0], s[k]));
}

/// What `merge_sort` leaves is determined by what it is given: two sorted
/// sequences that hold the same items, counted with multiplicity, and list
/// the items of each class of equivalent items in the same order are equal.
/// So sorting two arrangements of the same items gives the same result
/// whenever equivalent items come in the same order in both, and an array
/// that is already sorted is left as it is.
pub proof fn lemma_sorted_stable_unique<T: PartialOrd>(a: Seq<T>, b: Seq<T>)
    requires
        total_order::<T>(),
        sorted(a),
        sorted(b),
        a.to_multiset() == b.to_multiset(),
        forall|v: T| #[trigger] equivalents(a, v) == equivalents(b, v),
    ensures
        a == b,
    decreases a.len(),
{
    assert(a.len() == a.to_multiset().len());
    assert(b.len() == b.to_multiset().len());
    if a.len() == 0 {
        assert(a =~= b);
    } else {
        let x = a[0];
        let y = b[0];
        assert(a.contains(x));
        assert(b.contains(y));
        lemma_sorted_first_is_least(b, x);
        lemma_sorted_first_is_least(a, y);
        assert(le(x, x));
        lemma_equivalents_first(a, x);
        lemma_equivalents_first(b, x);
        assert(equivalents(a, x)[0] == x);
        assert(equivalents(b, x)[0] == y);
        assert(x == y);
        assert forall|v: T| #[trigger]
            equivalents(a.drop_first(), v) == equivalents(b.drop_first(), v) by {
            lemma_equivalents_first(a, v);
            lemma_equivalents_first(b, v);
            let head = if equiv(x, v) {
                seq![x]
            } else {
                Seq::<T>::empty()
            };
            assert(equivalents(a.drop_first(), v) =~= equivalents(a, v).subrange(
                head.len() as int,
                equivalents(a, v).len() as int,
            ));
            assert(equivalents(b.drop_first(), v) =~= equivalents(b, v).subrange(
                head.len() as int,
                equivalents(b, v).len() as int,
            ));
        }
        assert(a.remove(0) =~= a.drop_first());
        assert(b.remove(0) =~= b.drop_first());
        assert(a.drop_first().to_multiset() == a.to_multiset().remove(x));
        assert(b.drop_first().to_multiset() == b.to_multiset().remove(y));
        assert forall|i: int, j: int| 0 <= i <= j < a.drop_first().len() implies le(
            a.drop_first()[i],
            a.drop_first()[j],
        ) by {
            assert(le(a[i + 1], a[j + 1]));
        }
        assert forall|i: int, j: int| 0 <= i <= j < b.drop_first().len() implies le(
            b.drop_first()[i],
            b.drop_first()[j],
        ) by {
            assert(le(b[i + 1], b[j + 1]));
        }
        lemma_sorted_stable_unique(a.drop_first(), b.drop_first());
        assert(a =~= seq![x] + a.drop_first());
        assert(b =~= seq![y] + b.drop_first());
    }
}

/// On `i64` the order is the usual one: `merge_sort` accepts `i64` arrays,
/// and sorts them into ascending order.
pub proof fn lemma_i64_order()
    ensures
        total_order::<i64>(),
        forall|x: i64, y: i64| #[trigger] le(x, y) <==> x <= y,
{
}

} // verus!
