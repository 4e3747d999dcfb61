//! Sorting vectors of 32-bit signed integers into non-decreasing order.

use vstd::prelude::*;

use vstd::pervasive::VecAdditionalExecFns;
use vstd::relations::sorted_by;
use vstd::relations::total_ordering;
use vstd::seq_lib::lemma_sorted_unique;

verus! {

/// A sequence is sorted when its elements are in non-decreasing order.
pub open spec fn sorted(s: Seq<i32>) -> bool {
    forall|a: int, b: int| 0 <= a <= b < s.len() ==> s[a] <= s[b]
}

/// Swapping two positions of a sequence leaves its multiset of elements
/// unchanged.
proof fn lemma_swap_preserves_multiset(s: Seq<i32>, i: int, j: int)
    requires
        0 <= i < j < s.len(),
    ensures
        s.update(i, s[j]).update(j, s[i]).to_multiset() == s.to_multiset(),
{
    broadcast use vstd::seq_lib::to_multiset_update;
    broadcast use vstd::seq_lib::group_to_multiset_ensures;
    broadcast use vstd::multiset::group_multiset_axioms;

    let t = s.update(i, s[j]);
    let u = t.update(j, s[i]);
    assert(s.contains(s[i]));
    assert(t.contains(t[j]));
    assert(t[j] == s[j]);
    assert(t.to_multiset() == s.to_multiset().insert(s[j]).remove(s[i]));
    assert(u.to_multiset() == t.to_multiset().insert(s[i]).remove(s[j]));
    assert(u.to_multiset() =~= s.to_multiset());
}

/// Returns the elements of `numbers` rearranged into non-decreasing order:
/// the result is a permutation of the input and is sorted.
pub fn sort_numbers(numbers: Vec<i32>) -> (r: Vec<i32>)
    ensures
        sorted(r@),
        r@.to_multiset() == numbers@.to_multiset(),
{
    let ghost orig = numbers@;
    let mut v = numbers;
    let n = v.len();
    let mut i: usize = 0;
    while i < n
        invariant
            i <= n,
            n == v.len(),
            sorted(v@.subrange(0, i as int)),
            v@.to_multiset() == orig.to_multiset(),
        decreases n - i,
    {
        proof {
            let sub = v@.subrange(0, i as int);
            assert forall|a: int, b: int| 0 <= a <= b <= i && b != i implies v@[a]
                <= v@[b] by {
                assert(sub[a] == v@[a]);
                assert(sub[b] == v@[b]);
            }
        }
        let mut j: usize = i;
        while j > 0 && v[j - 1] > v[j]
            invariant
                j <= i < n,
                n == v.len(),
                v@.to_multiset() == orig.to_multiset(),
                forall|a: int, b: int| 0 <= a <= b <= i && b != j ==> v@[a] <= v@[b],
            decreases j,
        {
            let lo = v[j - 1];
            let hi = v[j];
            proof {
                lemma_swap_preserves_multiset(v@, (j - 1) as int, j as int);
            }
            v.set(j - 1, hi);
            v.set(j, lo);
            j -= 1;
        }
        proof {
            assert forall|a: int, b: int| 0 <= a <= b <= i implies v@[a] <= v@[b] by {
                if b == j && a < b {
                    assert(v@[a] <= v@[j - 1]);
                    assert(v@[j - 1] <= v@[j as int]);
                }
            }
        }
        i += 1;
        assert(sorted(v@.subrange(0, i as int))) by {
            let sub = v@.subrange(0, i as int);
            assert forall|a: int, b: int| 0 <= a <= b < sub.len() implies sub[a]
                <= sub[b] by {
                assert(sub[a] == v@[a]);
                assert(sub[b] == v@[b]);
            }
        }
    }
    assert(v@ =~= v@.subrange(0, n as int));
    v
}

/// A sorted sequence is determined by its multiset of elements: two sorted
/// sequences that are permutations of each other are equal. In particular,
/// sorting a sequence that is already sorted returns it unchanged.
pub proof fn lemma_sorted_permutation_equal(s: Seq<i32>, t: Seq<i32>)
    requires
        sorted(s),
        sorted(t),
        s.to_multiset() == t.to_multiset(),
    ensures
        s == t,
{
    let leq = (|a: i32, b: i32| a <= b);
    assert(total_ordering(leq));
    assert(sorted_by(s, leq));
    assert(sorted_by(t, leq));
    lemma_sorted_unique(s, t, leq);
}

} // verus!
