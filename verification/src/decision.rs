//! Decision table: maps the revenue trend and the fee trend of one
//! evaluation window to the adjustment applied to the channel's fee.

use crate::trend::Trend;
use vstd::prelude::*;

verus! {

/// One cell of the decision table.
#[derive(Clone, Copy, Debug, PartialEq, Eq, Structural)]
pub enum Action {
    /// Leave the configured fee untouched for this tick.
    NoChange,
    /// Raise the fee by the configured adjustment step.
    StepUp,
    /// Lower the fee by the configured adjustment step.
    StepDown,
    /// Raise the fee by half its distance to the present average fee.
    AdjustUp,
    /// Lower the fee by half its distance to the present average fee.
    AdjustDown,
    /// Lower the fee by twice its distance to the present average fee: an
    /// accelerated move away from a fee level that correlated with revenue
    /// loss.
    RunDown,
}

/// The decision table. Rows are the revenue trend, columns the fee trend.
/// When both metrics rise together the smallest upward nudge is applied;
/// when revenue falls while the fee rose or fell consistently, the fee is
/// run down at doubled magnitude, away from a level that correlated with
/// revenue loss; non-monotonic windows are treated as noise around a level
/// and drawn toward the present average or held. A flat trend on either
/// metric holds the fee.
pub open spec fn decision_table(revenue: Trend, fee: Trend) -> Action {
    match (revenue, fee) {
        (Trend::Rising, Trend::Rising) => Action::StepUp,
        (Trend::Rising, Trend::Falling) => Action::StepDown,
        (Trend::Rising, Trend::Hump) => Action::AdjustUp,
        (Trend::Rising, Trend::Dip) => Action::AdjustUp,
        (Trend::Falling, Trend::Rising) => Action::RunDown,
        (Trend::Falling, Trend::Falling) => Action::RunDown,
        (Trend::Falling, Trend::Hump) => Action::StepDown,
        (Trend::Falling, Trend::Dip) => Action::AdjustDown,
        (Trend::Hump, Trend::Rising) => Action::AdjustDown,
        (Trend::Hump, Trend::Falling) => Action::AdjustUp,
        (Trend::Hump, Trend::Hump) => Action::AdjustUp,
        (Trend::Hump, Trend::Dip) => Action::AdjustDown,
        (Trend::Dip, Trend::Rising) => Action::NoChange,
        (Trend::Dip, Trend::Falling) => Action::AdjustUp,
        (Trend::Dip, Trend::Hump) => Action::StepDown,
        (Trend::Dip, Trend::Dip) => Action::StepUp,
        (Trend::Flat, _) => Action::NoChange,
        (_, Trend::Flat) => Action::NoChange,
    }
}

/// Executable lookup in the decision table.
pub fn select_action(revenue: Trend, fee: Trend) -> (action: Action)
    ensures
        action == decision_table(revenue, fee),
{
    match (revenue, fee) {
        (Trend::Rising, Trend::Rising) => Action::StepUp,
        (Trend::Rising, Trend::Falling) => Action::StepDown,
        (Trend::Rising, Trend::Hump) => Action::AdjustUp,
        (Trend::Rising, Trend::Dip) => Action::AdjustUp,
        (Trend::Falling, Trend::Rising) => Action::RunDown,
        (Trend::Falling, Trend::Falling) => Action::RunDown,
        (Trend::Falling, Trend::Hump) => Action::StepDown,
        (Trend::Falling, Trend::Dip) => Action::AdjustDown,
        (Trend::Hump, Trend::Rising) => Action::AdjustDown,
        (Trend::Hump, Trend::Falling) => Action::AdjustUp,
        (Trend::Hump, Trend::Hump) => Action::AdjustUp,
        (Trend::Hump, Trend::Dip) => Action::AdjustDown,
        (Trend::Dip, Trend::Rising) => Action::NoChange,
        (Trend::Dip, Trend::Falling) => Action::AdjustUp,
        (Trend::Dip, Trend::Hump) => Action::StepDown,
        (Trend::Dip, Trend::Dip) => Action::StepUp,
        (Trend::Flat, _) => Action::NoChange,
        (_, Trend::Flat) => Action::NoChange,
    }
}

/// Clamp a candidate fee into the emittable range: a computed fee at or
/// below zero becomes 1 (a zero fee is never emitted), and the value is
/// capped at the largest representable fee.
pub open spec fn clamped(raw: int) -> u32 {
    if raw <= 0 {
        1u32
    } else if raw >= u32::MAX {
        u32::MAX
    } else {
        raw as u32
    }
}

/// Every clamped fee is at least 1.
pub proof fn lemma_clamped_at_least_one(raw: int)
    ensures
        clamped(raw) >= 1,
{
}

} // verus!
