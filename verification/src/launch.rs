//! The launch model: partitioning a logical 1-D index space into groups.
//!
//! A kernel over `total` output elements is dispatched as `total / group`
//! execution groups of `group` workers each, rounded up so that every
//! element is covered.  A worker whose logical index reaches `total` — the
//! last group may overshoot — does nothing.  Workers never synchronize:
//! each one computes and writes exactly one output slot of its own.

use vstd::prelude::*;
use vstd::arithmetic::div_mod::lemma_fundamental_div_mod;

verus! {

/// Number of groups of `group` workers needed to cover `total` elements.
pub open spec fn group_count(total: int, group: int) -> int {
    if total == 0 {
        0
    } else {
        (total - 1) / group + 1
    }
}

/// The group count is the least one whose workers cover every element.
pub proof fn lemma_group_count_covers(total: int, group: int)
    requires
        total >= 0,
        group >= 1,
    ensures
        group_count(total, group) >= 0,
        group_count(total, group) * group >= total,
        total >= 1 ==> (group_count(total, group) - 1) * group < total,
{
    if total >= 1 {
        let q = (total - 1) / group;
        let r = (total - 1) % group;
        lemma_fundamental_div_mod(total - 1, group);
        assert(q >= 0) by (nonlinear_arith)
            requires total - 1 == group * q + r && 0 <= r < group && total >= 1;
        assert((q + 1) * group >= total && q * group < total) by (nonlinear_arith)
            requires total - 1 == group * q + r && 0 <= r < group;
    }
}

/// Computes the group count of a dispatch without overflowing.
pub fn compute_group_count(total: usize, group: usize) -> (r: usize)
    requires
        group >= 1,
    ensures
        r == group_count(total as int, group as int),
        r <= total,
{
    if total == 0 {
        0
    } else {
        proof {
            assert((total - 1) / (group as int) <= total - 1) by (nonlinear_arith)
                requires group >= 1 && total >= 1;
        }
        (total - 1) / group + 1
    }
}

} // verus!
