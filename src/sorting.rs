//! The insertion sort shown on the wiki's own sorting page.

use vstd::prelude::*;

verus! {

broadcast use vstd::seq_lib::group_to_multiset_ensures;

/// The values are in non-decreasing order.
pub open spec fn sorted(s: Seq<i64>) -> bool {
    forall|k: int, l: int| 0 <= k < l < s.len() ==> s[k] <= s[l]
}

/// Exchanging two neighbouring values keeps the multiset of values.
proof fn lemma_swap_neighbours(s: Seq<i64>, j: int)
    requires
        0 < j < s.len(),
    ensures
        s.update(j - 1, s[j]).update(j, s[j - 1]).to_multiset() == s.to_multiset(),
{
    let t = s.update(j - 1, s[j]);
    vstd::seq_lib::to_multiset_update(s, j - 1, s[j]);
    vstd::seq_lib::to_multiset_update(t, j, s[j - 1]);
    assert(t.update(j, s[j - 1]).to_multiset() =~= s.to_multiset());
}

/// Sorts `a` in place by moving each value left past the larger ones.
pub fn insertion_sort(a: &mut [i64])
    ensures
        sorted(final(a)@),
        final(a)@.to_multiset() == old(a)@.to_multiset(),
{
    let n: usize = a.len();
    if n == 0 {
        return;
    }
    let mut i: usize = 1;
    while i < n
        invariant
            1 <= i <= n,
            n == a@.len(),
            forall|k: int, l: int| 0 <= k < l < i ==> a@[k] <= a@[l],
            a@.to_multiset() == old(a)@.to_multiset(),
        decreases n - i,
    {
        let mut j: usize = i;
        while j > 0 && a[j - 1] > a[j]
            invariant
                1 <= i < n,
                j <= i,
                n == a@.len(),
                forall|k: int, l: int|
                    0 <= k < l <= i && k != j && l != j ==> a@[k] <= a@[l],
                forall|l: int| j < l <= i ==> a@[j as int] <= a@[l],
                a@.to_multiset() == old(a)@.to_multiset(),
            decreases j,
        {
            proof {
                lemma_swap_neighbours(a@, j as int);
            }
            let x: i64 = a[j - 1];
            let y: i64 = a[j];
            a[j - 1] = y;
            a[j] = x;
            j = j - 1;
        }
        i = i + 1;
    }
}

} // verus!
