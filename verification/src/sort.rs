use vstd::multiset::group_multiset_axioms;
use vstd::pervasive::VecAdditionalExecFns;
use vstd::prelude::*;
use vstd::seq_lib::group_to_multiset_ensures;
use vstd::seq_lib::lemma_multiset_commutative;

verus! {

/// Holds when the elements of `s` with indices in `[lo, hi)` are in
/// non-decreasing order.
pub open spec fn sorted_between(s: Seq<u64>, lo: int, hi: int) -> bool {
    forall|i: int, j: int| lo <= i < j < hi ==> s[i] <= s[j]
}

/// Holds when the whole sequence is in non-decreasing order.
pub open spec fn sorted(s: Seq<u64>) -> bool {
    sorted_between(s, 0, s.len() as int)
}

/// Exchanges the elements at positions `i` and `j`.
fn swap_at(arr: &mut Vec<u64>, i: usize, j: usize)
    requires
        i < old(arr).len(),
        j < old(arr).len(),
    ensures
        final(arr)@ == old(arr)@.update(i as int, old(arr)@[j as int]).update(
            j as int,
            old(arr)@[i as int],
        ),
{
    let vi = arr[i];
    let vj = arr[j];
    arr.set(i, vj);
    arr.set(j, vi);
}

/// Swapping two positions that both lie inside `[lo, hi)` leaves the
/// multiset of that range unchanged.
proof fn lemma_swap_subrange_multiset(s: Seq<u64>, lo: int, hi: int, i: int, j: int)
    requires
        0 <= lo <= i < hi <= s.len(),
        lo <= j < hi,
    ensures
        s.update(i, s[j]).update(j, s[i]).subrange(lo, hi).to_multiset() == s.subrange(
            lo,
            hi,
        ).to_multiset(),
{
    broadcast use group_to_multiset_ensures;
    broadcast use group_multiset_axioms;

    let t = s.update(i, s[j]).update(j, s[i]);
    let a = s.subrange(lo, hi);
    if i == j {
        assert(t =~= s);
        assert(t.subrange(lo, hi) =~= a);
    } else {
        let a1 = a.update(i - lo, s[j]);
        let a2 = a1.update(j - lo, s[i]);
        assert(t.subrange(lo, hi) =~= a2);
        assert(a[i - lo] == s[i]);
        assert(a1[j - lo] == s[j]);
        assert(a1.to_multiset() == a.to_multiset().insert(s[j]).remove(s[i]));
        assert(a2.to_multiset() == a1.to_multiset().insert(s[i]).remove(s[j]));
        assert(a.to_multiset().contains(s[i]));
        assert(a2.to_multiset() =~= a.to_multiset());
    }
}

/// Two ranges with the same multiset of elements obey the same upper
/// bound.
proof fn lemma_multiset_bound_le(a: Seq<u64>, b: Seq<u64>, bound: u64)
    requires
        a.to_multiset() == b.to_multiset(),
        forall|k: int| 0 <= k < a.len() ==> a[k] <= bound,
    ensures
        forall|k: int| 0 <= k < b.len() ==> b[k] <= bound,
{
    broadcast use group_to_multiset_ensures;

    assert forall|k: int| 0 <= k < b.len() implies b[k] <= bound by {
        assert(b.contains(b[k]));
        assert(a.to_multiset().count(b[k]) > 0);
        assert(a.contains(b[k]));
        let m = choose|m: int| 0 <= m < a.len() && a[m] == b[k];
        assert(a[m] <= bound);
    }
}

/// Two ranges with the same multiset of elements obey the same strict
/// lower bound.
proof fn lemma_multiset_bound_gt(a: Seq<u64>, b: Seq<u64>, bound: u64)
    requires
        a.to_multiset() == b.to_multiset(),
        forall|k: int| 0 <= k < a.len() ==> a[k] > bound,
    ensures
        forall|k: int| 0 <= k < b.len() ==> b[k] > bound,
{
    broadcast use group_to_multiset_ensures;

    assert forall|k: int| 0 <= k < b.len() implies b[k] > bound by {
        assert(b.contains(b[k]));
        assert(a.to_multiset().count(b[k]) > 0);
        assert(a.contains(b[k]));
        let m = choose|m: int| 0 <= m < a.len() && a[m] == b[k];
        assert(a[m] > bound);
    }
}

/// If two sequences agree on `[lo, mid)` and on `[mid, hi)` up to
/// multisets, they agree on `[lo, hi)` up to multisets.
proof fn lemma_multiset_concat_parts(s: Seq<u64>, t: Seq<u64>, lo: int, mid: int, hi: int)
    requires
        0 <= lo <= mid <= hi <= s.len(),
        hi <= t.len(),
        s.subrange(lo, mid).to_multiset() == t.subrange(lo, mid).to_multiset(),
        s.subrange(mid, hi).to_multiset() == t.subrange(mid, hi).to_multiset(),
    ensures
        s.subrange(lo, hi).to_multiset() == t.subrange(lo, hi).to_multiset(),
{
    assert(s.subrange(lo, hi) =~= s.subrange(lo, mid) + s.subrange(mid, hi));
    assert(t.subrange(lo, hi) =~= t.subrange(lo, mid) + t.subrange(mid, hi));
    lemma_multiset_commutative(s.subrange(lo, mid), s.subrange(mid, hi));
    lemma_multiset_commutative(t.subrange(lo, mid), t.subrange(mid, hi));
}

/// Reorders `[lo, hi)` of `arr` around the value initially at `hi - 1`:
/// afterwards the elements of `[lo, p)` are at most `arr[p]` and those
/// of `(p, hi)` are greater, while the rest of the vector and the
/// multiset of the range are untouched.
pub fn partition(arr: &mut Vec<u64>, lo: usize, hi: usize) -> (p: usize)
    requires
        lo < hi <= old(arr).len(),
    ensures
        lo <= p < hi,
        final(arr).len() == old(arr).len(),
        forall|k: int|
            0 <= k < old(arr)@.len() && !(lo <= k < hi) ==> final(arr)@[k] == old(arr)@[k],
        final(arr)@.subrange(lo as int, hi as int).to_multiset() == old(arr)@.subrange(
            lo as int,
            hi as int,
        ).to_multiset(),
        forall|k: int| lo <= k < p ==> final(arr)@[k] <= final(arr)@[p as int],
        forall|k: int| p < k < hi ==> final(arr)@[k] > final(arr)@[p as int],
{
    let pivot_index = hi - 1;
    let mut i: usize = lo;
    let mut j: usize = lo;
    while j < pivot_index
        invariant
            lo <= i <= j <= pivot_index,
            pivot_index == hi - 1,
            lo < hi <= arr.len(),
            arr.len() == old(arr).len(),
            forall|k: int| 0 <= k < arr@.len() && !(lo <= k < hi) ==> arr@[k] == old(arr)@[k],
            arr@.subrange(lo as int, hi as int).to_multiset() == old(arr)@.subrange(
                lo as int,
                hi as int,
            ).to_multiset(),
            forall|k: int| lo <= k < i ==> arr@[k] <= arr@[pivot_index as int],
            forall|k: int| i <= k < j ==> arr@[k] > arr@[pivot_index as int],
        decreases pivot_index - j,
    {
        if arr[j] <= arr[pivot_index] {
            let ghost before = arr@;
            swap_at(arr, i, j);
            proof {
                lemma_swap_subrange_multiset(before, lo as int, hi as int, i as int, j as int);
            }
            i = i + 1;
        }
        j = j + 1;
    }
    let ghost before = arr@;
    swap_at(arr, i, pivot_index);
    proof {
        lemma_swap_subrange_multiset(before, lo as int, hi as int, i as int, pivot_index as int);
    }
    i
}

/// Sorts the elements of `arr` whose indices lie in `[lo, hi)`, leaving
/// the rest of the vector and the multiset of the range untouched.
pub fn quicksort_range(arr: &mut Vec<u64>, lo: usize, hi: usize)
    requires
        lo <= hi <= old(arr).len(),
    ensures
        final(arr).len() == old(arr).len(),
        forall|k: int|
            0 <= k < old(arr)@.len() && !(lo <= k < hi) ==> final(arr)@[k] == old(arr)@[k],
        final(arr)@.subrange(lo as int, hi as int).to_multiset() == old(arr)@.subrange(
            lo as int,
            hi as int,
        ).to_multiset(),
        sorted_between(final(arr)@, lo as int, hi as int),
    decreases hi - lo,
{
    if hi - lo <= 1 {
        return ;
    }
    let p = partition(arr, lo, hi);
    let ghost s1 = arr@;
    quicksort_range(arr, lo, p);
    let ghost s2 = arr@;
    proof {
        assert(s2.subrange(p as int, hi as int) =~= s1.subrange(p as int, hi as int));
        lemma_multiset_concat_parts(s2, s1, lo as int, p as int, hi as int);
        lemma_multiset_bound_le(
            s1.subrange(lo as int, p as int),
            s2.subrange(lo as int, p as int),
            s1[p as int],
        );
        assert forall|k: int| lo <= k < p implies s2[k] <= s2[p as int] by {
            assert(s2.subrange(lo as int, p as int)[k - lo] == s2[k]);
            assert(s2[p as int] == s1[p as int]);
        }
    }
    quicksort_range(arr, p + 1, hi);
    let ghost s3 = arr@;
    proof {
        assert(s3.subrange(lo as int, (p + 1) as int) =~= s2.subrange(lo as int, (p + 1) as int));
        lemma_multiset_concat_parts(s3, s2, lo as int, (p + 1) as int, hi as int);
        lemma_multiset_bound_gt(
            s2.subrange((p + 1) as int, hi as int),
            s3.subrange((p + 1) as int, hi as int),
            s2[p as int],
        );
        assert(forall|k: int| lo <= k <= p ==> s3[k] == s2[k]);
        assert forall|k: int| p < k < hi implies s3[k] > s3[p as int] by {
            assert(s3.subrange((p + 1) as int, hi as int)[k - p - 1] == s3[k]);
            assert(s3[p as int] == s2[p as int]);
        }
        assert forall|k: int| lo <= k < p implies s3[k] <= s3[p as int] by {
            assert(s3[k] == s2[k] && s3[p as int] == s2[p as int]);
        }
        assert forall|x: int, y: int| lo <= x < y < hi implies s3[x] <= s3[y] by {
            if y < p {
                assert(s2[x] <= s2[y]);
            } else if y == p {
                assert(s3[x] <= s3[p as int]);
            } else if x < p {
                assert(s3[x] <= s3[p as int]);
                assert(s3[y] > s3[p as int]);
            } else if x == p {
                assert(s3[y] > s3[p as int]);
            } else {
                assert(sorted_between(s3, (p + 1) as int, hi as int));
            }
        }
    }
}

/// Sorts the vector in non-decreasing order; the result holds exactly
/// the elements it started with.
pub fn quicksort(arr: &mut Vec<u64>)
    ensures
        final(arr).len() == old(arr).len(),
        final(arr)@.to_multiset() == old(arr)@.to_multiset(),
        sorted(final(arr)@),
{
    let len = arr.len();
    if len <= 1 {
        return ;
    }
    quicksort_range(arr, 0, len);
    proof {
        assert(old(arr)@.subrange(0, old(arr)@.len() as int) =~= old(arr)@);
        assert(arr@.subrange(0, arr@.len() as int) =~= arr@);
    }
}

} // verus!
