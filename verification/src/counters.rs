//! Counters that go round their end.
use vstd::prelude::*;

verus! {

/// The sum of two counters, round the end.
pub open spec fn wrapped_sum(a: u64, b: u64) -> u64 {
    if a + b > u64::MAX {
        (a + b - 0x1_0000_0000_0000_0000) as u64
    } else {
        (a + b) as u64
    }
}

/// The sum of two counters, round the end.
pub fn add_wrapping(a: u64, b: u64) -> (r: u64)
    ensures
        r == wrapped_sum(a, b),
{
    a.wrapping_add(b)
}

/// A count as a counter shows it.
pub open spec fn counted(n: nat) -> u64 {
    (n % 0x1_0000_0000_0000_0000) as u64
}

/// Counting in parts counts the whole.
pub proof fn counting_is_additive(total: u64, a: nat, b: nat)
    ensures
        wrapped_sum(wrapped_sum(total, counted(a)), counted(b)) == wrapped_sum(
            total,
            counted(a + b),
        ),
        wrapped_sum(total, counted(0)) == total,
{
}

/// Counting does not depend on the order.
pub proof fn counting_is_commutative(total: u64, a: u64, b: u64)
    ensures
        wrapped_sum(wrapped_sum(total, a), b) == wrapped_sum(wrapped_sum(total, b), a),
{
}

/// A counter that does not reach its end counts plainly; one that does begins again
/// at zero. Nothing counted changes nothing.
pub proof fn counters_go_round(a: u64, b: u64, n: nat)
    ensures
        a + b <= u64::MAX ==> wrapped_sum(a, b) == a + b,
        a + b > u64::MAX ==> wrapped_sum(a, b) < a && wrapped_sum(a, b) < b,
        wrapped_sum(a, b) == wrapped_sum(b, a),
        wrapped_sum(a, 0) == a,
        wrapped_sum(u64::MAX, 1) == 0,
        n <= u64::MAX ==> counted(n) == n,
        counted(n + 0x1_0000_0000_0000_0000) == counted(n),
{
}

} // verus!
