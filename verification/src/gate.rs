//! Epoch check: decides whether enough wall-clock time has elapsed since
//! the most recent stored sample for a channel to justify re-evaluating it.

use vstd::prelude::*;

verus! {

/// The epoch that started at `prior` is still open at `now`: strictly
/// fewer than `epoch_length` seconds have elapsed since `prior`.
pub open spec fn epoch_still_open(prior: int, now: int, epoch_length: int) -> bool {
    now - epoch_length < prior
}

/// A channel is due for re-evaluation when it has no history at all, or
/// when the epoch that started at its most recent sample has run its full
/// length.
pub open spec fn gate_proceeds(prior: Option<i64>, now: int, epoch_length: int) -> bool {
    match prior {
        None => true,
        Some(t) => !epoch_still_open(t as int, now, epoch_length),
    }
}

/// Decides whether a channel is due for re-evaluation. `prior` is the
/// timestamp of the most recent stored sample for the channel, if any;
/// `epoch_length` is in seconds.
pub fn epoch_gate(prior: Option<i64>, now: i64, epoch_length: i64) -> (proceed: bool)
    requires
        epoch_length >= 1,
    ensures
        proceed == gate_proceeds(prior, now as int, epoch_length as int),
{
    match prior {
        None => true,
        Some(t0) => (now as i128) - (epoch_length as i128) >= (t0 as i128),
    }
}

/// Where revenue accounting for the next evaluation starts: the most recent
/// sample's timestamp when there is history, and one whole epoch before
/// `now` when there is none.
pub open spec fn spec_anchor(prior: Option<i64>, now: int, epoch_length: int) -> Option<i64> {
    match prior {
        None => Some((now - epoch_length) as i64),
        Some(t) => if epoch_still_open(t as int, now, epoch_length) {
            None
        } else {
            Some(t)
        },
    }
}

/// Combines the epoch check with the choice of revenue anchor: `None`
/// means the channel is skipped for this tick; `Some(since)` means it is
/// evaluated, with revenue attributed from `since` onwards.
pub fn evaluation_anchor(prior: Option<i64>, now: i64, epoch_length: i64) -> (anchor: Option<
    i64,
>)
    requires
        epoch_length >= 1,
        i64::MIN + epoch_length <= now,
    ensures
        anchor == spec_anchor(prior, now as int, epoch_length as int),
        anchor is Some <==> gate_proceeds(prior, now as int, epoch_length as int),
{
    match prior {
        None => Some(now - epoch_length),
        Some(t0) => {
            if (now as i128) - (epoch_length as i128) >= (t0 as i128) {
                Some(t0)
            } else {
                None
            }
        },
    }
}

/// With a prior sample at `t0`, a channel is skipped at every instant
/// strictly before `t0 + epoch_length`, and re-evaluated at
/// `t0 + epoch_length` and at every instant after it.
pub proof fn lemma_gate_correctness(t0: i64, now: i64, epoch_length: i64)
    ensures
        now < t0 + epoch_length ==> !gate_proceeds(Some(t0), now as int, epoch_length as int),
        now >= t0 + epoch_length ==> gate_proceeds(Some(t0), now as int, epoch_length as int),
        gate_proceeds(Some(t0), now as int, epoch_length as int) <==> now >= t0 + epoch_length,
{
}

} // verus!
