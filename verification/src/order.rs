//! Stable ordering of tasks by a (group, time) key.
use vstd::prelude::*;
use crate::text::{chars_lt, lemma_seq_lt_asymmetric, seq_lt};

verus! {

/// Whether the item with key `(ga, ta)` comes strictly before the item with key
/// `(gb, tb)`: smaller group first; within a group by time, newest first when
/// `newest_first`, oldest first otherwise.
pub open spec fn key_before(ga: u8, ta: Seq<char>, gb: u8, tb: Seq<char>, newest_first: bool) -> bool {
    ga < gb || (ga == gb && if newest_first {
        seq_lt(tb, ta)
    } else {
        seq_lt(ta, tb)
    })
}

pub proof fn lemma_key_before_asymmetric(ga: u8, ta: Seq<char>, gb: u8, tb: Seq<char>, nf: bool)
    ensures
        !(key_before(ga, ta, gb, tb, nf) && key_before(gb, tb, ga, ta, nf)),
{
    lemma_seq_lt_asymmetric(ta, tb);
}

/// An item that may stand before another is in a smaller or the same group, and within
/// the same group it is not older when newest comes first (not newer when oldest comes
/// first), in `str` order of the times.
pub proof fn lemma_not_before_is_ordered(ga: u8, ta: Seq<char>, gb: u8, tb: Seq<char>, nf: bool)
    requires
        !key_before(gb, tb, ga, ta, nf),
    ensures
        ga <= gb,
        ga == gb && nf ==> !seq_lt(ta, tb),
        ga == gb && !nf ==> !seq_lt(tb, ta),
{
}

/// `perm` lists each of `0..n` exactly once.
pub open spec fn is_permutation(perm: Seq<usize>, n: int) -> bool {
    &&& perm.len() == n
    &&& forall|k: int| 0 <= k < n ==> (#[trigger] perm[k]) < n
    &&& forall|a: int, b: int| 0 <= a < b < n ==> (#[trigger] perm[a]) != (#[trigger] perm[b])
}

/// No item of `perm` is before its predecessor.
pub open spec fn is_ordered(perm: Seq<usize>, groups: Seq<u8>, times: Seq<Vec<char>>, nf: bool) -> bool {
    forall|k: int|
        0 <= k < perm.len() - 1 ==> !key_before(
            groups[perm[k + 1] as int],
            times[perm[k + 1] as int]@,
            groups[#[trigger] perm[k] as int],
            times[perm[k] as int]@,
            nf,
        )
}

/// A stable ordering of the indices `0..n` by key (insertion sort).
pub fn sorted_order(groups: &Vec<u8>, times: &Vec<Vec<char>>, newest_first: bool) -> (r: Vec<usize>)
    requires
        groups@.len() == times@.len(),
    ensures
        is_permutation(r@, groups@.len() as int),
        is_ordered(r@, groups@, times@, newest_first),
{
    let n = groups.len();
    let mut r: Vec<usize> = Vec::new();
    let mut i: usize = 0;
    while i < n
        invariant
            n == groups@.len(),
            n == times@.len(),
            i <= n,
            r@.len() == i,
            forall|k: int| 0 <= k < i ==> (#[trigger] r@[k]) < i,
            forall|a: int, b: int| 0 <= a < b < i ==> (#[trigger] r@[a]) != (#[trigger] r@[b]),
            is_ordered(r@, groups@, times@, newest_first),
        decreases n - i,
    {
        let mut j = r.len();
        while j > 0 && item_before(groups, times, i, r[j - 1], newest_first)
            invariant
                n == groups@.len(),
                n == times@.len(),
                i < n,
                j <= r@.len(),
                r@.len() == i,
                forall|k: int| 0 <= k < i ==> (#[trigger] r@[k]) < i,
                forall|k: int| j <= k < r@.len() ==> key_before(
                    groups[i as int],
                    times[i as int]@,
                    groups[#[trigger] r@[k] as int],
                    times[r@[k] as int]@,
                    newest_first,
                ),
            decreases j,
        {
            j = j - 1;
        }
        let ghost old_r = r@;
        r.insert(j, i);
        proof {
            assert forall|k: int| 0 <= k < i + 1 implies (#[trigger] r@[k]) < i + 1 by {
                if k < j {
                    assert(r@[k] == old_r[k]);
                } else if k > j {
                    assert(r@[k] == old_r[k - 1]);
                }
            }
            assert forall|a: int, b: int| 0 <= a < b < i + 1 implies (#[trigger] r@[a]) != (
            #[trigger] r@[b]) by {
                let oa = if a < j { a } else if a == j { -1 } else { a - 1 };
                let ob = if b < j { b } else if b == j { -1 } else { b - 1 };
                if a != j && b != j {
                    assert(r@[a] == old_r[oa]);
                    assert(r@[b] == old_r[ob]);
                } else if a == j {
                    assert(r@[b] == old_r[ob]);
                } else {
                    assert(r@[a] == old_r[oa]);
                }
            }
            assert forall|k: int| 0 <= k < r@.len() - 1 implies !key_before(
                groups[r@[k + 1] as int],
                times[r@[k + 1] as int]@,
                groups[#[trigger] r@[k] as int],
                times[r@[k] as int]@,
                newest_first,
            ) by {
                if k + 1 < j {
                    assert(r@[k] == old_r[k]);
                    assert(r@[k + 1] == old_r[k + 1]);
                } else if k + 1 == j {
                    assert(r@[k] == old_r[k]);
                    assert(r@[k + 1] == i);
                } else if k == j {
                    assert(r@[k] == i);
                    assert(r@[k + 1] == old_r[k]);
                    lemma_key_before_asymmetric(
                        groups[i as int],
                        times[i as int]@,
                        groups[old_r[k] as int],
                        times[old_r[k] as int]@,
                        newest_first,
                    );
                } else {
                    assert(r@[k] == old_r[k - 1]);
                    assert(r@[k + 1] == old_r[k]);
                }
            }
        }
        i = i + 1;
    }
    r
}

/// Whether item `a` comes strictly before item `b`.
pub fn item_before(groups: &Vec<u8>, times: &Vec<Vec<char>>, a: usize, b: usize, newest_first: bool) -> (r: bool)
    requires
        a < groups@.len(),
        b < groups@.len(),
        groups@.len() == times@.len(),
    ensures
        r == key_before(groups@[a as int], times@[a as int]@, groups@[b as int], times@[b as int]@, newest_first),
{
    let ga = groups[a];
    let gb = groups[b];
    if ga < gb {
        true
    } else if ga == gb {
        if newest_first {
            chars_lt(&times[b], &times[a])
        } else {
            chars_lt(&times[a], &times[b])
        }
    } else {
        false
    }
}

} // verus!
