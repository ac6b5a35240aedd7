//! Assembling an evaluation window from the current observation and the
//! stored history, and summing settled forwarding revenue.

use vstd::prelude::*;

verus! {

/// Prepend the current observation to the stored history, keeping only the
/// (fee, revenue) pair of each stored sample. `history` is ordered
/// most-recent-first, as the sample store returns it, so the result is the
/// evaluation window with the current observation at index 0.
pub fn build_window(current_fee: u32, current_revenue: u32, history: &Vec<(i64, u32, u32)>) -> (window: Vec<(u32, u32)>)
    ensures
        window@.len() == history@.len() + 1,
        window@[0] == (current_fee, current_revenue),
        forall|i: int|
            0 <= i < history@.len() ==> window@[i + 1] == (history@[i].1, history@[i].2),
{
    let mut window: Vec<(u32, u32)> = Vec::new();
    window.push((current_fee, current_revenue));
    let mut i: usize = 0;
    while i < history.len()
        invariant
            i <= history@.len(),
            window@.len() == i + 1,
            window@[0] == (current_fee, current_revenue),
            forall|j: int| 0 <= j < i ==> window@[j + 1] == (history@[j].1, history@[j].2),
        decreases history@.len() - i,
    {
        let (_, fee, revenue) = history[i];
        window.push((fee, revenue));
        i = i + 1;
    }
    window
}

/// Sum of a sequence of millisatoshi amounts.
pub open spec fn sum_amounts(amounts: Seq<u64>) -> int
    decreases amounts.len(),
{
    if amounts.len() == 0 {
        0
    } else {
        sum_amounts(amounts.drop_last()) + amounts.last()
    }
}

/// Total of the given millisatoshi amounts, saturating at the top of the
/// range instead of wrapping.
pub fn sum_msat(amounts: &Vec<u64>) -> (total: u64)
    ensures
        total == if sum_amounts(amounts@) > u64::MAX {
            u64::MAX as int
        } else {
            sum_amounts(amounts@)
        },
{
    let mut total: u64 = 0;
    let mut i: usize = 0;
    while i < amounts.len()
        invariant
            i <= amounts@.len(),
            total == if sum_amounts(amounts@.take(i as int)) > u64::MAX {
                u64::MAX as int
            } else {
                sum_amounts(amounts@.take(i as int))
            },
        decreases amounts@.len() - i,
    {
        proof {
            assert(amounts@.take(i + 1).drop_last() =~= amounts@.take(i as int));
        }
        total = total.saturating_add(amounts[i]);
        i = i + 1;
    }
    proof {
        assert(amounts@.take(amounts@.len() as int) =~= amounts@);
    }
    total
}

} // verus!
