//! Ways to merge an effect into an earlier effect of the same identity.
use vstd::prelude::*;

verus! {

/// Merge by taking over the later effect's value.
pub struct ResetValue;

/// Merge by taking over the later effect's source.
pub struct ResetFromName;

/// Merge by adding up the stacks, with the number it holds as the least count the
/// merged effect keeps.
pub struct StackWithLimit(pub i32);

/// The stack count after adding `added` stacks to `current`: the sum, or `limit`
/// when the sum falls below it.
pub open spec fn stacked(current: i32, added: i32, limit: i32) -> int {
    if current + added >= limit {
        current + added
    } else {
        limit as int
    }
}

impl StackWithLimit {
    /// The stack count after adding `added` stacks to `current`: the larger of the
    /// sum and the limit.
    pub fn add_stacks(&self, current: i32, added: i32) -> (r: i32)
        requires
            i32::MIN <= current + added <= i32::MAX,
        ensures
            r == stacked(current, added, self.0),
    {
        let sum = current + added;
        if sum >= self.0 {
            sum
        } else {
            self.0
        }
    }
}

/// Stacking adds the stacks and never leaves fewer than the limit: the result is
/// the sum or the limit, at least each of them, and adding to a count at or above
/// the limit is plain addition.
pub proof fn law_stack_with_limit(current: i32, added: i32, limit: i32)
    requires
        i32::MIN <= current + added <= i32::MAX,
    ensures
        stacked(current, added, limit) >= limit,
        stacked(current, added, limit) >= current + added,
        stacked(current, added, limit) == limit || stacked(current, added, limit) == current
            + added,
        current >= limit && added >= 0 ==> stacked(current, added, limit) == current + added,
{
}

} // verus!
