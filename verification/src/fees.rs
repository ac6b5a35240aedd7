//! Fee decision engine: turns an evaluation window of (fee, revenue)
//! observations, ordered most-recent-first, into either "no change" or a
//! new fee value.

use crate::decision::{clamped, decision_table, select_action, Action};
use crate::trend::{classify, Trend};
use vstd::arithmetic::div_mod::{lemma_div_is_ordered, lemma_div_multiples_vanish};
use vstd::prelude::*;

verus! {

/// Sum of the fee components of a window slice.
pub open spec fn sum_fees(w: Seq<(u32, u32)>) -> int
    decreases w.len(),
{
    if w.len() == 0 {
        0
    } else {
        sum_fees(w.drop_last()) + w.last().0
    }
}

/// Sum of the revenue components of a window slice.
pub open spec fn sum_revenues(w: Seq<(u32, u32)>) -> int
    decreases w.len(),
{
    if w.len() == 0 {
        0
    } else {
        sum_revenues(w.drop_last()) + w.last().1
    }
}

/// Both sums are non-negative and at most the slice length times the
/// largest element value.
pub proof fn lemma_sum_bounds(w: Seq<(u32, u32)>)
    ensures
        0 <= sum_fees(w) <= w.len() * u32::MAX,
        0 <= sum_revenues(w) <= w.len() * u32::MAX,
    decreases w.len(),
{
    if w.len() > 0 {
        lemma_sum_bounds(w.drop_last());
    }
}

/// Number of window entries in the present partition, which spans indices
/// `0 ..= (len - 1) / 3`.
pub open spec fn present_len(len: int) -> int {
    (len - 1) / 3 + 1
}

/// First index of the past partition, which spans indices
/// `2 * len / 3 ..= len - 1`.
pub open spec fn past_start(len: int) -> int {
    2 * len / 3
}

/// Truncated mean of the fees at indices `start .. end` of the window.
pub open spec fn fee_mean(w: Seq<(u32, u32)>, start: int, end: int) -> int {
    sum_fees(w.subrange(start, end)) / (end - start)
}

/// Truncated mean of the revenues at indices `start .. end` of the window.
pub open spec fn revenue_mean(w: Seq<(u32, u32)>, start: int, end: int) -> int {
    sum_revenues(w.subrange(start, end)) / (end - start)
}

/// The absolute step used by the `step` actions: the current fee divided by
/// the configured divisor, floored to 1 when that division truncates to 0.
pub open spec fn spec_adjustment(current: int, divisor: int) -> int {
    if current / divisor != 0 {
        current / divisor
    } else {
        1
    }
}

/// Trend profile of one evaluation window: the past/overall/present fee and
/// revenue averages, the current observation, and the adjustment step, from
/// which the next fee is decided.
#[derive(Clone, Debug)]
pub struct NewFees {
    pub past_revenue: u32,
    pub average_revenue: u32,
    pub present_revenue: u32,
    pub current_revenue: u32,
    pub past_fee: u32,
    pub average_fee: u32,
    pub present_fee: u32,
    pub current_fee: u32,
    pub adjustment_fee: u32,
}

/// The profile that a window of at least one sample and a positive divisor
/// determine.
pub open spec fn window_profile(w: Seq<(u32, u32)>, divisor: int) -> NewFees {
    let len = w.len() as int;
    NewFees {
        past_revenue: revenue_mean(w, past_start(len), len) as u32,
        average_revenue: revenue_mean(w, 0, len) as u32,
        present_revenue: revenue_mean(w, 0, present_len(len)) as u32,
        current_revenue: w[0].1,
        past_fee: fee_mean(w, past_start(len), len) as u32,
        average_fee: fee_mean(w, 0, len) as u32,
        present_fee: fee_mean(w, 0, present_len(len)) as u32,
        current_fee: w[0].0,
        adjustment_fee: spec_adjustment(w[0].0 as int, divisor) as u32,
    }
}

/// What `calculate` returns for a window and divisor: no decision for fewer
/// than two samples, otherwise the decision of the window's profile.
pub open spec fn spec_calculate(w: Seq<(u32, u32)>, divisor: int) -> Option<u32> {
    if w.len() < 2 {
        None
    } else {
        window_profile(w, divisor).decision()
    }
}

impl NewFees {
    /// The distance between the current fee and the present average fee.
    pub open spec fn fee_gap(self) -> int {
        if self.current_fee >= self.present_fee {
            self.current_fee - self.present_fee
        } else {
            self.present_fee - self.current_fee
        }
    }

    /// The fee a decision-table action yields for this profile, clamped
    /// into the emittable range; `NoChange` yields none.
    pub open spec fn action_fee(self, action: Action) -> Option<u32> {
        match action {
            Action::NoChange => None,
            Action::StepUp => Some(clamped(self.current_fee + self.adjustment_fee)),
            Action::StepDown => Some(clamped(self.current_fee - self.adjustment_fee)),
            Action::AdjustUp => Some(clamped(self.current_fee + self.fee_gap() / 2)),
            Action::AdjustDown => Some(clamped(self.current_fee - self.fee_gap() / 2)),
            Action::RunDown => Some(clamped(self.current_fee - 2 * self.fee_gap())),
        }
    }

    /// The decided fee for this profile: when the window earned nothing at
    /// all, halve the fee to search downward for routed volume; otherwise
    /// classify both metrics and apply the decision-table action.
    pub open spec fn decision(self) -> Option<u32> {
        if self.average_revenue == 0 {
            Some(clamped(self.current_fee as int / 2))
        } else {
            self.action_fee(
                decision_table(
                    classify(
                        self.past_revenue as int,
                        self.average_revenue as int,
                        self.present_revenue as int,
                    ),
                    classify(self.past_fee as int, self.average_fee as int, self.present_fee as int),
                ),
            )
        }
    }

    /// past revenue average < overall revenue average < present revenue average.
    pub fn rev_is_rising(&self) -> (r: bool)
        ensures
            r == (self.past_revenue < self.average_revenue
                && self.average_revenue < self.present_revenue),
    {
        self.past_revenue < self.average_revenue && self.average_revenue < self.present_revenue
    }

    /// past revenue average > overall revenue average > present revenue average.
    pub fn rev_is_falling(&self) -> (r: bool)
        ensures
            r == (self.past_revenue > self.average_revenue
                && self.average_revenue > self.present_revenue),
    {
        self.past_revenue > self.average_revenue && self.average_revenue > self.present_revenue
    }

    /// The overall revenue average dips below both endpoints.
    pub fn rev_has_lower_average(&self) -> (r: bool)
        ensures
            r == (self.past_revenue >= self.average_revenue
                && self.average_revenue < self.present_revenue),
    {
        self.past_revenue >= self.average_revenue && self.average_revenue < self.present_revenue
    }

    /// The overall revenue average rises above both endpoints.
    pub fn rev_has_higher_average(&self) -> (r: bool)
        ensures
            r == (self.past_revenue <= self.average_revenue
                && self.average_revenue > self.present_revenue),
    {
        self.past_revenue <= self.average_revenue && self.average_revenue > self.present_revenue
    }

    /// past fee average < overall fee average < present fee average.
    pub fn fee_is_rising(&self) -> (r: bool)
        ensures
            r == (self.past_fee < self.average_fee && self.average_fee < self.present_fee),
    {
        self.past_fee < self.average_fee && self.average_fee < self.present_fee
    }

    /// past fee average > overall fee average > present fee average.
    pub fn fee_is_falling(&self) -> (r: bool)
        ensures
            r == (self.past_fee > self.average_fee && self.average_fee > self.present_fee),
    {
        self.past_fee > self.average_fee && self.average_fee > self.present_fee
    }

    /// The overall fee average dips below both endpoints.
    pub fn fee_has_lower_average(&self) -> (r: bool)
        ensures
            r == (self.past_fee >= self.average_fee && self.average_fee < self.present_fee),
    {
        self.past_fee >= self.average_fee && self.average_fee < self.present_fee
    }

    /// The overall fee average rises above both endpoints.
    pub fn fee_has_higher_average(&self) -> (r: bool)
        ensures
            r == (self.past_fee <= self.average_fee && self.average_fee > self.present_fee),
    {
        self.past_fee <= self.average_fee && self.average_fee > self.present_fee
    }

    /// Classification of the revenue trajectory.
    pub fn rev_trend(&self) -> (trend: Trend)
        ensures
            trend == classify(
                self.past_revenue as int,
                self.average_revenue as int,
                self.present_revenue as int,
            ),
    {
        if self.rev_is_rising() {
            Trend::Rising
        } else if self.rev_is_falling() {
            Trend::Falling
        } else if self.rev_has_higher_average() {
            Trend::Hump
        } else if self.rev_has_lower_average() {
            Trend::Dip
        } else {
            Trend::Flat
        }
    }

    /// Classification of the fee trajectory.
    pub fn fee_trend(&self) -> (trend: Trend)
        ensures
            trend == classify(self.past_fee as int, self.average_fee as int, self.present_fee as int),
    {
        if self.fee_is_rising() {
            Trend::Rising
        } else if self.fee_is_falling() {
            Trend::Falling
        } else if self.fee_has_higher_average() {
            Trend::Hump
        } else if self.fee_has_lower_average() {
            Trend::Dip
        } else {
            Trend::Flat
        }
    }

    /// The distance between the current fee and the present average fee.
    fn fee_distance(&self) -> (d: u32)
        ensures
            d == self.fee_gap(),
    {
        if self.current_fee >= self.present_fee {
            self.current_fee - self.present_fee
        } else {
            self.present_fee - self.current_fee
        }
    }

    /// Raise the current fee: by twice its distance to the present average
    /// when `fast`, by the adjustment step otherwise, saturating at the top
    /// of the fee range.
    pub fn increase(&self, fast: bool) -> (raised: u32)
        ensures
            fast ==> raised == (if self.current_fee + 2 * self.fee_gap() > u32::MAX {
                u32::MAX as int
            } else {
                self.current_fee + 2 * self.fee_gap()
            }),
            !fast ==> raised == (if self.current_fee + self.adjustment_fee > u32::MAX {
                u32::MAX as int
            } else {
                self.current_fee + self.adjustment_fee
            }),
    {
        if fast {
            let gap = self.fee_distance();
            self.current_fee.saturating_add(gap).saturating_add(gap)
        } else {
            self.current_fee.saturating_add(self.adjustment_fee)
        }
    }

    /// Lower the current fee: by twice its distance to the present average
    /// when `fast`, by the adjustment step otherwise, saturating at zero.
    pub fn decrease(&self, fast: bool) -> (lowered: u32)
        ensures
            fast ==> lowered == (if self.current_fee - 2 * self.fee_gap() < 0 {
                0int
            } else {
                self.current_fee - 2 * self.fee_gap()
            }),
            !fast ==> lowered == (if self.current_fee - self.adjustment_fee < 0 {
                0int
            } else {
                self.current_fee - self.adjustment_fee
            }),
    {
        if fast {
            let gap = self.fee_distance();
            self.current_fee.saturating_sub(gap).saturating_sub(gap)
        } else {
            self.current_fee.saturating_sub(self.adjustment_fee)
        }
    }

    /// Apply one decision-table action to this profile.
    pub fn apply(&self, action: Action) -> (new_fee: Option<u32>)
        ensures
            new_fee == self.action_fee(action),
    {
        match action {
            Action::NoChange => None,
            Action::StepUp => Some(clamp_min_one(self.increase(false))),
            Action::StepDown => Some(clamp_min_one(self.decrease(false))),
            Action::AdjustUp => {
                let half_gap = self.fee_distance() / 2;
                Some(clamp_min_one(self.current_fee.saturating_add(half_gap)))
            },
            Action::AdjustDown => {
                let half_gap = self.fee_distance() / 2;
                Some(clamp_min_one(self.current_fee.saturating_sub(half_gap)))
            },
            Action::RunDown => Some(clamp_min_one(self.decrease(true))),
        }
    }

    /// Decide the next fee for this profile.
    pub fn determine(&self) -> (new_fee: Option<u32>)
        ensures
            new_fee == self.decision(),
            new_fee matches Some(f) ==> f >= 1,
    {
        if self.average_revenue == 0 {
            Some(clamp_min_one(self.current_fee / 2))
        } else {
            let revenue = self.rev_trend();
            let fee = self.fee_trend();
            let action = select_action(revenue, fee);
            self.apply(action)
        }
    }

    /// Build the trend profile of a window and decide the next fee.
    /// `values` is ordered most-recent-first, with the current observation
    /// at index 0; `None` means the fee is left unchanged for this tick.
    pub fn calculate(values: &Vec<(u32, u32)>, adjustment_divisor: u32) -> (new_fee: Option<u32>)
        requires
            adjustment_divisor >= 1,
            values@.len() <= u32::MAX,
        ensures
            new_fee == spec_calculate(values@, adjustment_divisor as int),
            values@.len() < 2 ==> new_fee is None,
            new_fee matches Some(f) ==> f >= 1,
            values@.len() >= 2 && revenue_mean(values@, 0, values@.len() as int) == 0
                ==> new_fee == Some(clamped(values@[0].0 as int / 2)),
    {
        if values.len() < 2 {
            return None;
        }
        let len = values.len();
        let present_end = (len - 1) / 3 + 1;
        let past_begin = ((2u64 * (len as u64)) / 3) as usize;
        proof {
            assert(present_end <= len);
            assert(past_begin < len);
        }
        let (present_fee, present_revenue) = range_means(values, 0, present_end);
        let (past_fee, past_revenue) = range_means(values, past_begin, len);
        let (average_fee, average_revenue) = range_means(values, 0, len);
        let (current_fee, current_revenue) = values[0];
        let adjustment_fee = if current_fee / adjustment_divisor != 0 {
            current_fee / adjustment_divisor
        } else {
            1
        };
        let profile = NewFees {
            past_revenue,
            average_revenue,
            present_revenue,
            current_revenue,
            past_fee,
            average_fee,
            present_fee,
            current_fee,
            adjustment_fee,
        };
        proof {
            assert(profile == window_profile(values@, adjustment_divisor as int));
        }
        profile.determine()
    }
}

/// Sign law for the fee-rising column of the decision table, for profiles
/// with a nonzero overall revenue average and a positive current fee: a
/// rising revenue trend yields a fee at or above the current one, falling
/// and hump revenue trends yield one at or below it, and a dip revenue
/// trend leaves the fee unchanged.
pub proof fn lemma_fee_rising_signs(p: NewFees)
    requires
        p.average_revenue != 0,
        p.current_fee >= 1,
        classify(p.past_fee as int, p.average_fee as int, p.present_fee as int) == Trend::Rising,
    ensures
        classify(p.past_revenue as int, p.average_revenue as int, p.present_revenue as int)
            == Trend::Rising ==> (p.decision() matches Some(f) && f >= p.current_fee),
        classify(p.past_revenue as int, p.average_revenue as int, p.present_revenue as int)
            == Trend::Falling ==> (p.decision() matches Some(f) && f <= p.current_fee),
        classify(p.past_revenue as int, p.average_revenue as int, p.present_revenue as int)
            == Trend::Hump ==> (p.decision() matches Some(f) && f <= p.current_fee),
        classify(p.past_revenue as int, p.average_revenue as int, p.present_revenue as int)
            == Trend::Dip ==> p.decision() is None,
{
}

/// A computed fee of zero becomes 1; anything else is emitted as computed.
fn clamp_min_one(v: u32) -> (r: u32)
    ensures
        r == clamped(v as int),
{
    if v == 0 {
        1
    } else {
        v
    }
}

/// Fee and revenue sums over indices `start .. end` of the window.
fn range_sums(values: &Vec<(u32, u32)>, start: usize, end: usize) -> (sums: (u64, u64))
    requires
        start <= end <= values@.len(),
        end - start <= u32::MAX,
    ensures
        sums.0 == sum_fees(values@.subrange(start as int, end as int)),
        sums.1 == sum_revenues(values@.subrange(start as int, end as int)),
{
    let mut fee_sum: u64 = 0;
    let mut revenue_sum: u64 = 0;
    let mut i: usize = start;
    while i < end
        invariant
            start <= i <= end <= values@.len(),
            end - start <= u32::MAX,
            fee_sum == sum_fees(values@.subrange(start as int, i as int)),
            revenue_sum == sum_revenues(values@.subrange(start as int, i as int)),
        decreases end - i,
    {
        proof {
            lemma_sum_bounds(values@.subrange(start as int, i as int));
            assert(values@.subrange(start as int, (i + 1) as int).drop_last() =~= values@.subrange(
                start as int,
                i as int,
            ));
        }
        let (fee, revenue) = values[i];
        fee_sum = fee_sum + fee as u64;
        revenue_sum = revenue_sum + revenue as u64;
        i = i + 1;
    }
    (fee_sum, revenue_sum)
}

/// Truncated fee and revenue means over indices `start .. end` of the
/// window.
fn range_means(values: &Vec<(u32, u32)>, start: usize, end: usize) -> (means: (u32, u32))
    requires
        start < end <= values@.len(),
        end - start <= u32::MAX,
    ensures
        means.0 == fee_mean(values@, start as int, end as int),
        means.1 == revenue_mean(values@, start as int, end as int),
{
    let (fee_sum, revenue_sum) = range_sums(values, start, end);
    let count = (end - start) as u64;
    proof {
        let slice = values@.subrange(start as int, end as int);
        lemma_sum_bounds(slice);
        lemma_div_is_ordered(sum_fees(slice), slice.len() * u32::MAX, count as int);
        lemma_div_is_ordered(sum_revenues(slice), slice.len() * u32::MAX, count as int);
        lemma_div_multiples_vanish(u32::MAX as int, count as int);
    }
    ((fee_sum / count) as u32, (revenue_sum / count) as u32)
}

} // verus!
