//! Lookup of two elements that add up to a target.

use std::collections::HashMap;
use vstd::prelude::*;
use vstd::std_specs::hash::group_hash_axioms;
use crate::Solution;

verus! {

/// `a` and `b` index two elements of `nums`, `a` before `b`, whose sum is
/// `target`.
pub open spec fn is_pair(nums: Seq<i32>, target: int, a: int, b: int) -> bool {
    0 <= a < b < nums.len() && nums[a] + nums[b] == target
}

/// Some two elements of `nums` add up to `target`.
pub open spec fn has_pair(nums: Seq<i32>, target: int) -> bool {
    exists|a: int, b: int| is_pair(nums, target, a, b)
}

/// `(a, b)` is the pair that a scan from the left meets first: no pair ends
/// before `b`, and of the pairs that end at `b` none starts after `a`.
pub open spec fn is_first_pair(nums: Seq<i32>, target: int, a: int, b: int) -> bool {
    &&& is_pair(nums, target, a, b)
    &&& forall|c: int, d: int| is_pair(nums, target, c, d) ==> b <= d
    &&& forall|c: int| is_pair(nums, target, c, b) ==> c <= a
}

/// At most one pair is the first: where there is a pair, `is_first_pair`
/// names one result.
pub proof fn lemma_first_pair_unique(nums: Seq<i32>, target: int, a: int, b: int, c: int, d: int)
    requires
        is_first_pair(nums, target, a, b),
        is_first_pair(nums, target, c, d),
    ensures
        a == c,
        b == d,
{
}

impl Solution {
    /// The indices of the first two elements of `nums` that add up to
    /// `target`, the smaller index first; empty where no two elements do.
    ///
    /// The sum is the sum of the integers: it does not wrap. Indices are
    /// returned as `i32`, so `nums` may hold no index beyond `i32::MAX`.
    pub fn two_sum(nums: Vec<i32>, target: i32) -> (found: Vec<i32>)
        requires
            nums@.len() - 1 <= i32::MAX,
        ensures
            has_pair(nums@, target as int) ==> found@.len() == 2 && is_first_pair(
                nums@,
                target as int,
                found@[0] as int,
                found@[1] as int,
            ),
            !has_pair(nums@, target as int) ==> found@.len() == 0,
    {
        broadcast use group_hash_axioms;

        let mut seen: HashMap<i32, usize> = HashMap::new();
        let mut i: usize = 0;
        while i < nums.len()
            invariant
                i <= nums@.len(),
                nums@.len() - 1 <= i32::MAX,
                forall|a: int, b: int| is_pair(nums@, target as int, a, b) ==> i <= b,
                forall|k: int|
                    0 <= k < i ==> seen@.contains_key(#[trigger] nums@[k]) && k <= seen@[nums@[k]],
                forall|v: i32| #[trigger]
                    seen@.contains_key(v) ==> seen@[v] < i && nums@[seen@[v] as int] == v,
            decreases nums@.len() - i,
        {
            let num = nums[i];
            if let Some(complement) = target.checked_sub(num) {
                if let Some(earlier) = seen.get(&complement) {
                    let j: usize = *earlier;
                    proof {
                        assert(is_pair(nums@, target as int, j as int, i as int));
                    }
                    return vec![j as i32, i as i32];
                }
            }
            assert forall|a: int| !is_pair(nums@, target as int, a, i as int) by {
                if is_pair(nums@, target as int, a, i as int) {
                    assert(seen@.contains_key(nums@[a]));
                }
            }
            seen.insert(num, i);
            i += 1;
        }
        Vec::new()
    }
}

} // verus!
